//! The exec-profile picker: a list of profile names with one selected,
//! and the directory the chosen profile will run in.

use vstd::prelude::*;
use std::path::PathBuf;

verus! {

#[derive(Debug, Default)]
pub struct ExecPicker {
    profiles: Vec<String>,
    selected: usize,
    cwd: Option<PathBuf>,
}

/// The profile names as text.
pub open spec fn names(v: Seq<String>) -> Seq<Seq<char>> {
    v.map_values(|s: String| s@)
}

impl ExecPicker {
    pub closed spec fn profiles_view(&self) -> Seq<String> {
        self.profiles@
    }

    pub closed spec fn selected_view(&self) -> usize {
        self.selected
    }

    pub closed spec fn cwd_view(&self) -> Option<PathBuf> {
        self.cwd
    }

    /// No profiles, nothing selected, no directory.
    pub fn new() -> (r: ExecPicker)
        ensures
            r.profiles_view().len() == 0,
            r.selected_view() == 0,
            r.cwd_view() is None,
    {
        ExecPicker { profiles: Vec::new(), selected: 0, cwd: None }
    }

    /// Show `profiles` for a run in `cwd`, the first one selected.
    pub fn open(&mut self, profiles: Vec<String>, cwd: PathBuf)
        ensures
            final(self).profiles_view() == profiles@,
            final(self).selected_view() == 0,
            final(self).cwd_view() == Some(cwd),
    {
        self.profiles = profiles;
        self.selected = 0;
        self.cwd = Some(cwd);
    }

    pub fn cwd(&self) -> (r: Option<&PathBuf>)
        ensures
            r == match self.cwd_view() {
                Some(p) => Some(&p),
                None => None::<&PathBuf>,
            },
    {
        match &self.cwd {
            Some(p) => Some(p),
            None => None,
        }
    }

    pub fn profiles(&self) -> (r: &[String])
        ensures
            r@ == self.profiles_view(),
    {
        self.profiles.as_slice()
    }

    pub fn is_empty(&self) -> (r: bool)
        ensures
            r == (self.profiles_view().len() == 0),
    {
        self.profiles.len() == 0
    }

    pub fn selected_index(&self) -> (r: usize)
        ensures
            r == self.selected_view(),
    {
        self.selected
    }

    /// The selected profile's name, or `None` when the list is empty.
    pub fn selected_profile(&self) -> (r: Option<&str>)
        ensures
            match r {
                Some(s) => self.selected_view() < self.profiles_view().len() && s@
                    == self.profiles_view()[self.selected_view() as int]@,
                None => self.selected_view() >= self.profiles_view().len(),
            },
    {
        if self.selected < self.profiles.len() {
            Some(self.profiles[self.selected].as_str())
        } else {
            None
        }
    }

    /// Select row `index`; out of range is ignored.
    pub fn select_index(&mut self, index: usize)
        ensures
            final(self).profiles_view() == old(self).profiles_view(),
            final(self).cwd_view() == old(self).cwd_view(),
            final(self).selected_view() == if index < old(self).profiles_view().len() {
                index
            } else {
                old(self).selected_view()
            },
    {
        if index < self.profiles.len() {
            self.selected = index;
        }
    }

    /// One row down, wrapping to the top.
    pub fn next(&mut self)
        ensures
            final(self).profiles_view() == old(self).profiles_view(),
            final(self).cwd_view() == old(self).cwd_view(),
            final(self).selected_view() == if old(self).profiles_view().len() == 0 {
                old(self).selected_view() as int
            } else {
                (old(self).selected_view() as int % old(self).profiles_view().len() as int + 1)
                    % old(self).profiles_view().len() as int
            },
    {
        if self.profiles.len() == 0 {
            return;
        }
        let n = self.profiles.len();
        self.selected = (self.selected % n + 1) % n;
    }

    /// One row up, wrapping to the bottom.
    pub fn prev(&mut self)
        ensures
            final(self).profiles_view() == old(self).profiles_view(),
            final(self).cwd_view() == old(self).cwd_view(),
            final(self).selected_view() == if old(self).profiles_view().len() == 0 {
                old(self).selected_view() as int
            } else {
                let m = old(self).selected_view() as int % old(self).profiles_view().len() as int;
                if m == 0 {
                    old(self).profiles_view().len() - 1
                } else {
                    m - 1
                }
            },
    {
        if self.profiles.len() == 0 {
            return;
        }
        let n = self.profiles.len();
        let m = self.selected % n;
        self.selected = if m == 0 { n - 1 } else { m - 1 };
    }
}

/// On a non-empty list, `next` then `prev` returns to the selected row.
pub proof fn law_next_prev(n: int, s: int)
    requires
        0 <= s < n,
    ensures
        ({
            let d = (s % n + 1) % n;
            let m = d % n;
            (if m == 0 { n - 1 } else { m - 1 }) == s
        }),
{
    assert(s % n == s) by (nonlinear_arith)
        requires
            0 <= s < n,
    ;
    if s + 1 < n {
        assert((s + 1) % n == s + 1) by (nonlinear_arith)
            requires
                0 <= s,
                s + 1 < n,
        ;
        assert((s + 1) % n % n == s + 1) by (nonlinear_arith)
            requires
                0 <= s,
                s + 1 < n,
        ;
    } else {
        assert((s + 1) % n == 0) by (nonlinear_arith)
            requires
                s + 1 == n,
                n > 0,
        ;
        assert(0int % n == 0) by (nonlinear_arith)
            requires
                n > 0,
        ;
    }
}

} // verus!
