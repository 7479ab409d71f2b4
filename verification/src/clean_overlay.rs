//! The reclaim overlay: pick a clean profile (the default first), show what
//! a scan found, and confirm with the shared countdown.

use vstd::prelude::*;
use std::path::PathBuf;
use crate::confirm::ConfirmModal;

verus! {

/// Label of the profile-less choice.
pub const DEFAULT_CHOICE_LABEL: &'static str = "(default)";

/// What a scan of a worktree found to reclaim.
#[derive(Debug, Clone, Copy, PartialEq, Eq, Structural)]
pub struct WorktreeReclaim {
    pub total_bytes: u64,
}

#[derive(Debug, Default)]
pub struct CleanOverlay {
    /// `None` is the default choice, always first.
    choices: Vec<Option<String>>,
    selected: usize,
    /// Branch name and path of the worktree being cleaned.
    target: Option<(String, PathBuf)>,
    reclaim: Option<WorktreeReclaim>,
    skipped: Vec<String>,
    pub confirm: ConfirmModal,
}

/// The choices offered for `profiles`: the default, then each profile.
pub open spec fn choices_for(profiles: Seq<String>) -> Seq<Option<Seq<char>>> {
    seq![None::<Seq<char>>] + profiles.map_values(|p: String| Some(p@))
}

impl CleanOverlay {
    pub closed spec fn choices_view(&self) -> Seq<Option<Seq<char>>> {
        self.choices@.map_values(|c: Option<String>| match c {
            Some(s) => Some(s@),
            None => None,
        })
    }

    pub closed spec fn confirm_view(&self) -> ConfirmModal {
        self.confirm
    }

    pub closed spec fn selected_view(&self) -> usize {
        self.selected
    }

    pub closed spec fn target_view(&self) -> Option<(Seq<char>, PathBuf)> {
        match self.target {
            Some((n, p)) => Some((n@, p)),
            None => None,
        }
    }

    pub closed spec fn reclaim_view(&self) -> Option<WorktreeReclaim> {
        self.reclaim
    }

    pub closed spec fn skipped_view(&self) -> Seq<String> {
        self.skipped@
    }

    /// Everything but the selection is as in `other`: the choices, the
    /// countdown (armed or not), the target, the scan and the skipped list.
    pub open spec fn same_but_selection(&self, other: &CleanOverlay) -> bool {
        &&& self.choices_view() == other.choices_view()
        &&& self.confirm_view() == other.confirm_view()
        &&& self.target_view() == other.target_view()
        &&& self.reclaim_view() == other.reclaim_view()
        &&& self.skipped_view() == other.skipped_view()
    }

    pub fn new() -> (r: CleanOverlay)
        ensures
            r.choices_view().len() == 0,
            r.selected_view() == 0,
            r.target_view() is None,
            r.reclaim_view() is None,
            r.skipped_view().len() == 0,
            r.confirm_view().started_at is None,
    {
        CleanOverlay {
            choices: Vec::new(),
            selected: 0,
            target: None,
            reclaim: None,
            skipped: Vec::new(),
            confirm: ConfirmModal::new(),
        }
    }

    /// Start over for the worktree `name` at `path`, offering `profiles`.
    pub fn open(&mut self, profiles: Vec<String>, name: String, path: PathBuf)
        ensures
            final(self).choices_view() == choices_for(profiles@),
            final(self).selected_view() == 0,
            final(self).target_view() == Some((name@, path)),
            final(self).reclaim_view() is None,
            final(self).skipped_view().len() == 0,
            final(self).confirm_view().started_at is None,
    {
        let mut choices: Vec<Option<String>> = Vec::new();
        choices.push(None);
        let mut i: usize = 0;
        while i < profiles.len()
            invariant
                i <= profiles@.len(),
                choices@.len() == i + 1,
                choices@[0] is None,
                forall|k: int| 0 <= k < i ==> (#[trigger] choices@[k + 1]) is Some && choices@[k + 1]->0@ == profiles@[k]@,
            decreases profiles.len() - i,
        {
            choices.push(Some(profiles[i].clone()));
            i += 1;
        }
        self.choices = choices;
        self.selected = 0;
        self.target = Some((name, path));
        self.reclaim = None;
        self.skipped = Vec::new();
        self.confirm.reset();
        proof {
            assert(self.choices_view() =~= choices_for(profiles@)) by {
                assert forall|k: int| 0 <= k < self.choices_view().len() implies self.choices_view()[k]
                    == choices_for(profiles@)[k] by {
                    if k > 0 {
                        assert(choices@[(k - 1) + 1] is Some);
                    }
                }
            }
        }
    }

    pub fn target(&self) -> (r: Option<(&str, &PathBuf)>)
        ensures
            match (r, self.target_view()) {
                (Some((n, p)), Some((tn, tp))) => n@ == tn && *p == tp,
                (None, None) => true,
                _ => false,
            },
    {
        match &self.target {
            Some((n, p)) => Some((n.as_str(), p)),
            None => None,
        }
    }

    /// The choices as shown: each profile's name, the default as
    /// `(default)`.
    pub fn choice_labels(&self) -> (r: Vec<&str>)
        ensures
            r@.len() == self.choices_view().len(),
            forall|i: int| 0 <= i < r@.len() ==> (#[trigger] r@[i])@ == match self.choices_view()[i] {
                Some(s) => s,
                None => DEFAULT_CHOICE_LABEL@,
            },
    {
        let mut out: Vec<&str> = Vec::new();
        let mut i: usize = 0;
        while i < self.choices.len()
            invariant
                i <= self.choices@.len(),
                out@.len() == i,
                forall|k: int| 0 <= k < i ==> (#[trigger] out@[k])@ == match self.choices_view()[k] {
                    Some(s) => s,
                    None => DEFAULT_CHOICE_LABEL@,
                },
            decreases self.choices.len() - i,
        {
            match &self.choices[i] {
                Some(s) => out.push(s.as_str()),
                None => out.push(DEFAULT_CHOICE_LABEL),
            }
            i += 1;
        }
        out
    }

    /// Whether any profile is on offer besides the default.
    pub fn has_profiles(&self) -> (r: bool)
        ensures
            r == (self.choices_view().len() > 1),
    {
        self.choices.len() > 1
    }

    pub fn selected_index(&self) -> (r: usize)
        ensures
            r == self.selected_view(),
    {
        self.selected
    }

    /// The selected profile; `None` for the default (or no choices).
    pub fn selected_profile(&self) -> (r: Option<&str>)
        ensures
            match r {
                Some(s) => self.selected_view() < self.choices_view().len() && self.choices_view()[self.selected_view() as int]
                    == Some(s@),
                None => self.selected_view() >= self.choices_view().len() || self.choices_view()[self.selected_view() as int] is None,
            },
    {
        if self.selected < self.choices.len() {
            match &self.choices[self.selected] {
                Some(s) => Some(s.as_str()),
                None => None,
            }
        } else {
            None
        }
    }

    /// Select choice `index`; whether the selection moved.
    pub fn select_index(&mut self, index: usize) -> (r: bool)
        ensures
            r == (index < old(self).choices_view().len() && index != old(self).selected_view()),
            final(self).selected_view() == if r { index } else { old(self).selected_view() },
            final(self).same_but_selection(old(self)),
    {
        if index >= self.choices.len() || index == self.selected {
            return false;
        }
        self.selected = index;
        true
    }

    /// Next choice, wrapping; nothing to do with fewer than two.
    pub fn select_next(&mut self) -> (r: bool)
        ensures
            r == (old(self).choices_view().len() >= 2),
            final(self).same_but_selection(old(self)),
            r ==> final(self).selected_view() == (old(self).selected_view() as int % old(self).choices_view().len() as int + 1)
                % old(self).choices_view().len() as int,
            !r ==> final(self).selected_view() == old(self).selected_view(),
    {
        if self.choices.len() < 2 {
            return false;
        }
        let n = self.choices.len();
        self.selected = (self.selected % n + 1) % n;
        true
    }

    /// Previous choice, wrapping; nothing to do with fewer than two.
    pub fn select_prev(&mut self) -> (r: bool)
        ensures
            r == (old(self).choices_view().len() >= 2),
            final(self).same_but_selection(old(self)),
            r ==> final(self).selected_view() == ({
                let m = old(self).selected_view() as int % old(self).choices_view().len() as int;
                if m == 0 { old(self).choices_view().len() - 1 } else { m - 1 }
            }),
            !r ==> final(self).selected_view() == old(self).selected_view(),
    {
        if self.choices.len() < 2 {
            return false;
        }
        let n = self.choices.len();
        let m = self.selected % n;
        self.selected = if m == 0 { n - 1 } else { m - 1 };
        true
    }

    /// Record a finished scan; a countdown in progress is cancelled.
    pub fn set_scan(&mut self, reclaim: WorktreeReclaim, skipped: Vec<String>)
        ensures
            final(self).reclaim_view() == Some(reclaim),
            final(self).skipped_view() == skipped@,
            final(self).confirm_view().started_at is None,
            final(self).choices_view() == old(self).choices_view(),
            final(self).selected_view() == old(self).selected_view(),
            final(self).target_view() == old(self).target_view(),
    {
        self.reclaim = Some(reclaim);
        self.skipped = skipped;
        self.confirm.reset();
    }

    pub fn reclaim(&self) -> (r: Option<&WorktreeReclaim>)
        ensures
            match (r, self.reclaim_view()) {
                (Some(a), Some(b)) => *a == b,
                (None, None) => true,
                _ => false,
            },
    {
        match &self.reclaim {
            Some(r) => Some(r),
            None => None,
        }
    }

    pub fn skipped(&self) -> (r: &[String])
        ensures
            r@ == self.skipped_view(),
    {
        self.skipped.as_slice()
    }

    /// Bytes the scan found; 0 before any scan.
    pub fn total_bytes(&self) -> (r: u64)
        ensures
            r == match self.reclaim_view() {
                Some(w) => w.total_bytes,
                None => 0,
            },
    {
        match &self.reclaim {
            Some(r) => r.total_bytes,
            None => 0,
        }
    }

    /// Nothing to reclaim (or no scan yet).
    pub fn is_empty_scan(&self) -> (r: bool)
        ensures
            r == (self.reclaim_view() is None || self.reclaim_view()->0.total_bytes == 0),
    {
        self.total_bytes() == 0
    }
}

} // verus!
