//! Background-task spine: coalescing and late-result drop.
//!
//! - `request(kind)` claims a fresh generation for a cold slot, or returns
//!   `None` while a run of the same kind is in flight (coalesced).
//! - a worker reports back with the generation it was handed;
//!   `complete(kind, generation)` says whether that result is still
//!   authoritative, and frees the slot when it is.
//! - `invalidate(kind)` bumps the generation and frees the slot, so a late
//!   result of the superseded run is dropped.
//!
//! Pure state: the threads and channels live with the caller.

use vstd::prelude::*;
use std::path::PathBuf;

verus! {

/// Identity of a background task: the coalescing key and the source of the
/// loader label. The GitHub kinds are keyed by issue / PR number, so each
/// number is a slot of its own.
#[derive(Debug, Clone, Copy, PartialEq, Eq, Hash, Structural)]
pub enum TaskKind {
    CreateWorktree,
    RefreshWorktrees,
    GithubIssue(u64),
    GithubPr(u64),
    Sync,
    Bootstrap,
    DeleteWorktree,
    Pull,
    Push,
    EditWorktree,
    RefreshWorkspace,
    Sidebar,
    AgentSessions,
}

/// The loader label of a kind.
pub open spec fn label_of(k: TaskKind) -> Seq<char> {
    match k {
        TaskKind::CreateWorktree => "creating worktree…"@,
        TaskKind::RefreshWorktrees => "refreshing worktrees…"@,
        TaskKind::GithubIssue(_) => "fetching GitHub status…"@,
        TaskKind::GithubPr(_) => "fetching GitHub status…"@,
        TaskKind::Sync => "syncing…"@,
        TaskKind::Bootstrap => "bootstrapping…"@,
        TaskKind::DeleteWorktree => "deleting worktree…"@,
        TaskKind::Pull => "pulling…"@,
        TaskKind::Push => "pushing…"@,
        TaskKind::EditWorktree => "renaming worktree…"@,
        TaskKind::RefreshWorkspace => "refreshing worktrees…"@,
        TaskKind::Sidebar => "loading preview…"@,
        TaskKind::AgentSessions => "detecting agent sessions…"@,
    }
}

/// The GitHub fetch kinds.
pub open spec fn github_kind(k: TaskKind) -> bool {
    k is GithubIssue || k is GithubPr
}

/// Kinds whose worker can leave repository state half-changed if the
/// process exits before its result is drained.
pub open spec fn mutating_kind(k: TaskKind) -> bool {
    k is CreateWorktree || k is Sync || k is Bootstrap || k is DeleteWorktree || k is Pull || k is Push
        || k is EditWorktree
}

impl TaskKind {
    /// What the spinner says while a task of this kind runs.
    pub fn loading_label(self) -> (r: &'static str)
        ensures
            r@ == label_of(self),
    {
        match self {
            TaskKind::CreateWorktree => "creating worktree…",
            TaskKind::RefreshWorktrees => "refreshing worktrees…",
            TaskKind::GithubIssue(_) => "fetching GitHub status…",
            TaskKind::GithubPr(_) => "fetching GitHub status…",
            TaskKind::Sync => "syncing…",
            TaskKind::Bootstrap => "bootstrapping…",
            TaskKind::DeleteWorktree => "deleting worktree…",
            TaskKind::Pull => "pulling…",
            TaskKind::Push => "pushing…",
            TaskKind::EditWorktree => "renaming worktree…",
            TaskKind::RefreshWorkspace => "refreshing worktrees…",
            TaskKind::Sidebar => "loading preview…",
            TaskKind::AgentSessions => "detecting agent sessions…",
        }
    }

    /// `true` for the GitHub fetch kinds.
    pub fn is_github(self) -> (r: bool)
        ensures
            r == github_kind(self),
    {
        matches!(self, TaskKind::GithubIssue(_) | TaskKind::GithubPr(_))
    }

    /// `true` for workers that can leave repository / worktree state
    /// partially changed if abandoned.
    pub fn is_mutating(self) -> (r: bool)
        ensures
            r == mutating_kind(self),
    {
        matches!(
            self,
            TaskKind::CreateWorktree | TaskKind::Sync | TaskKind::Bootstrap | TaskKind::DeleteWorktree
                | TaskKind::Pull | TaskKind::Push | TaskKind::EditWorktree
        )
    }
}

/// Abstract state of the spine: the authoritative generation of each kind
/// (absent kinds are at generation 0) and the kinds in flight.
pub struct RunnerView {
    pub gens: Map<TaskKind, u64>,
    pub running: Set<TaskKind>,
}

impl RunnerView {
    pub open spec fn gen(self, k: TaskKind) -> u64 {
        if self.gens.contains_key(k) { self.gens[k] } else { 0 }
    }

    pub open spec fn empty() -> RunnerView {
        RunnerView { gens: Map::empty(), running: Set::empty() }
    }

    /// `request`: coalesce onto a run in flight, else claim the next
    /// generation and mark the kind running.
    pub open spec fn request(self, k: TaskKind) -> (RunnerView, Option<u64>) {
        if self.running.contains(k) {
            (self, None)
        } else {
            let g = (self.gen(k) + 1) as u64;
            (RunnerView { gens: self.gens.insert(k, g), running: self.running.insert(k) }, Some(g))
        }
    }

    /// `invalidate`: bump the generation and free the slot.
    pub open spec fn invalidate(self, k: TaskKind) -> RunnerView {
        RunnerView { gens: self.gens.insert(k, (self.gen(k) + 1) as u64), running: self.running.remove(k) }
    }

    /// `complete`: a result is authoritative only when its generation is
    /// the current one and a run was in flight; that frees the slot.
    pub open spec fn complete(self, k: TaskKind, g: u64) -> (RunnerView, bool) {
        if g != self.gen(k) {
            (self, false)
        } else {
            (RunnerView { gens: self.gens, running: self.running.remove(k) }, self.running.contains(k))
        }
    }
}

/// Coalescing + late-drop spine for background tasks.
#[derive(Debug, Default)]
pub struct TaskRunner {
    /// `(kind, generation)` for every kind ever claimed; no kind twice.
    generation: Vec<(TaskKind, u64)>,
    /// Kinds with a worker in flight; no kind twice.
    running: Vec<TaskKind>,
}

pub open spec fn keys_distinct(s: Seq<(TaskKind, u64)>) -> bool {
    forall|i: int, j: int| 0 <= i < j < s.len() ==> (#[trigger] s[i]).0 != (#[trigger] s[j]).0
}

pub open spec fn gen_map(s: Seq<(TaskKind, u64)>) -> Map<TaskKind, u64> {
    Map::new(
        |k: TaskKind| exists|i: int| 0 <= i < s.len() && (#[trigger] s[i]).0 == k,
        |k: TaskKind| s[choose|i: int| 0 <= i < s.len() && (#[trigger] s[i]).0 == k].1,
    )
}

impl View for TaskRunner {
    type V = RunnerView;

    closed spec fn view(&self) -> RunnerView {
        RunnerView { gens: gen_map(self.generation@), running: self.running@.to_set() }
    }
}

impl TaskRunner {
    /// Well-formedness: no kind twice in either table.
    pub closed spec fn wf(&self) -> bool {
        &&& keys_distinct(self.generation@)
        &&& self.running@.no_duplicates()
    }

    /// An empty runner: no generation claimed, nothing in flight.
    pub fn new() -> (r: Self)
        ensures
            r.wf(),
            r@ == RunnerView::empty(),
    {
        let r = TaskRunner { generation: Vec::new(), running: Vec::new() };
        proof {
            assert(gen_map(r.generation@) =~= Map::<TaskKind, u64>::empty());
            assert(r.running@.to_set() =~= Set::<TaskKind>::empty());
        }
        r
    }

    fn running_index(&self, kind: TaskKind) -> (r: Option<usize>)
        ensures
            match r {
                Some(i) => i < self.running@.len() && self.running@[i as int] == kind,
                None => !self.running@.contains(kind),
            },
    {
        let mut i: usize = 0;
        while i < self.running.len()
            invariant
                i <= self.running@.len(),
                forall|k: int| 0 <= k < i ==> self.running@[k] != kind,
            decreases self.running.len() - i,
        {
            if self.running[i] == kind {
                return Some(i);
            }
            i += 1;
        }
        None
    }

    fn gen_index(&self, kind: TaskKind) -> (r: Option<usize>)
        ensures
            match r {
                Some(i) => i < self.generation@.len() && self.generation@[i as int].0 == kind,
                None => forall|i: int| 0 <= i < self.generation@.len() ==> (#[trigger] self.generation@[i]).0 != kind,
            },
    {
        let mut i: usize = 0;
        while i < self.generation.len()
            invariant
                i <= self.generation@.len(),
                forall|k: int| 0 <= k < i ==> (#[trigger] self.generation@[k]).0 != kind,
            decreases self.generation.len() - i,
        {
            if self.generation[i].0 == kind {
                return Some(i);
            }
            i += 1;
        }
        None
    }

    /// The current generation of `kind` (0 when never claimed).
    fn current_gen(&self, kind: TaskKind) -> (g: u64)
        requires
            self.wf(),
        ensures
            g == self@.gen(kind),
    {
        match self.gen_index(kind) {
            Some(i) => {
                proof {
                    let s = self.generation@;
                    assert(gen_map(s).contains_key(kind));
                    let j = choose|j: int| 0 <= j < s.len() && (#[trigger] s[j]).0 == kind;
                    assert(j == i);
                }
                self.generation[i].1
            },
            None => {
                proof {
                    assert(!gen_map(self.generation@).contains_key(kind));
                }
                0
            },
        }
    }

    /// Set the generation of `kind` to `g`.
    fn set_gen(&mut self, kind: TaskKind, g: u64)
        requires
            old(self).wf(),
        ensures
            final(self).wf(),
            final(self)@ == (RunnerView { gens: old(self)@.gens.insert(kind, g), running: old(self)@.running }),
            final(self).running == old(self).running,
    {
        let ghost old_s = self.generation@;
        let ghost mut at: int = 0;
        match self.gen_index(kind) {
            Some(i) => {
                self.generation.set(i, (kind, g));
                proof {
                    at = i as int;
                }
            },
            None => {
                self.generation.push((kind, g));
                proof {
                    at = old_s.len() as int;
                }
            },
        }
        proof {
            let s = self.generation@;
            assert(s[at].0 == kind);
            assert(keys_distinct(s));
            assert(gen_map(s) =~= gen_map(old_s).insert(kind, g)) by {
                assert forall|k: TaskKind| #[trigger] gen_map(s).contains_key(k) == gen_map(old_s).insert(
                    kind,
                    g,
                ).contains_key(k) by {
                    if k != kind && gen_map(old_s).contains_key(k) {
                        let j = choose|j: int| 0 <= j < old_s.len() && (#[trigger] old_s[j]).0 == k;
                        assert(s[j].0 == k);
                    }
                    if k == kind {
                        assert(s[at].0 == kind);
                    }
                }
                assert forall|k: TaskKind| #[trigger] gen_map(s).contains_key(k) implies gen_map(s)[k]
                    == gen_map(old_s).insert(kind, g)[k] by {
                    let j = choose|j: int| 0 <= j < s.len() && (#[trigger] s[j]).0 == k;
                    if k != kind {
                        let j2 = choose|j: int| 0 <= j < old_s.len() && (#[trigger] old_s[j]).0 == k;
                        assert(s[j2].0 == k);
                        assert(j == j2);
                    }
                }
            }
        }
    }

    fn remove_running(&mut self, kind: TaskKind) -> (was: bool)
        requires
            old(self).wf(),
        ensures
            final(self).wf(),
            final(self)@ == (RunnerView { gens: old(self)@.gens, running: old(self)@.running.remove(kind) }),
            was == old(self)@.running.contains(kind),
    {
        let ghost old_r = self.running@;
        match self.running_index(kind) {
            Some(i) => {
                self.running.remove(i);
                proof {
                    let r = self.running@;
                    assert(r == old_r.remove(i as int));
                    assert(r.no_duplicates());
                    assert(r.to_set() =~= old_r.to_set().remove(kind)) by {
                        assert forall|k: TaskKind| r.to_set().contains(k) == old_r.to_set().remove(kind).contains(k) by {
                            if k == kind {
                                if r.contains(kind) {
                                    let j = choose|j: int| 0 <= j < r.len() && r[j] == kind;
                                    if j < i {
                                        assert(old_r[j] == kind);
                                    } else {
                                        assert(old_r[j + 1] == kind);
                                    }
                                }
                            } else if old_r.contains(k) {
                                let j = choose|j: int| 0 <= j < old_r.len() && old_r[j] == k;
                                if j < i {
                                    assert(r[j] == k);
                                } else {
                                    assert(r[j - 1] == k);
                                }
                            }
                        }
                    }
                    assert(old_r.to_set().contains(kind));
                }
                true
            },
            None => {
                proof {
                    assert(old_r.to_set().remove(kind) =~= old_r.to_set());
                }
                false
            },
        }
    }

    /// Claim a run of `kind`: `Some(generation)` for a cold slot (the
    /// caller spawns a worker tagged with it), `None` when a run of the
    /// same kind is already in flight.
    pub fn request(&mut self, kind: TaskKind) -> (r: Option<u64>)
        requires
            old(self).wf(),
            old(self)@.gen(kind) < u64::MAX,
        ensures
            final(self).wf(),
            (final(self)@, r) == old(self)@.request(kind),
    {
        if self.running_index(kind).is_some() {
            return None;
        }
        let g = self.current_gen(kind) + 1;
        self.set_gen(kind, g);
        let ghost before = self.running@;
        self.running.push(kind);
        proof {
            assert(!before.contains(kind));
            assert(self.running@.no_duplicates()) by {
                assert forall|i: int, j: int|
                    0 <= i < self.running@.len() && 0 <= j < self.running@.len() && i != j implies self.running@[i]
                    != self.running@[j] by {
                    if i == before.len() as int {
                        assert(before.contains(self.running@[j]) || j == i);
                    } else if j == before.len() as int {
                        assert(before.contains(self.running@[i]));
                    }
                }
            }
            assert(self.running@.to_set() =~= before.to_set().insert(kind)) by {
                assert forall|k: TaskKind| self.running@.to_set().contains(k) == before.to_set().insert(kind).contains(
                    k,
                ) by {
                    if before.contains(k) {
                        let j = choose|j: int| 0 <= j < before.len() && before[j] == k;
                        assert(self.running@[j] == k);
                    }
                    if self.running@.contains(k) && k != kind {
                        let j = choose|j: int| 0 <= j < self.running@.len() && self.running@[j] == k;
                        assert(before[j] == k);
                    }
                    if k == kind {
                        assert(self.running@[before.len() as int] == kind);
                    }
                }
            }
        }
        Some(g)
    }

    /// Drop any in-flight run of `kind` and bump its generation, so a late
    /// result is discarded and a fresh run may start.
    pub fn invalidate(&mut self, kind: TaskKind)
        requires
            old(self).wf(),
            old(self)@.gen(kind) < u64::MAX,
        ensures
            final(self).wf(),
            final(self)@ == old(self)@.invalidate(kind),
    {
        let g = self.current_gen(kind) + 1;
        self.set_gen(kind, g);
        self.remove_running(kind);
    }

    /// Decide whether a result tagged `generation` for `kind` is still
    /// authoritative: `true` only when the generation is the current one
    /// and a run was in flight, which frees the slot. A stale generation
    /// leaves the (newer) slot untouched.
    pub fn complete(&mut self, kind: TaskKind, generation: u64) -> (r: bool)
        requires
            old(self).wf(),
        ensures
            final(self).wf(),
            (final(self)@, r) == old(self)@.complete(kind, generation),
    {
        let current = self.current_gen(kind);
        if generation != current {
            return false;
        }
        self.remove_running(kind)
    }

    /// [`Self::invalidate`] every in-flight kind for which `pred` answers
    /// `true`. Idle kinds are left alone: there is no worker to drop.
    pub fn invalidate_matching<F: Fn(TaskKind) -> bool>(&mut self, pred: F)
        requires
            old(self).wf(),
            forall|k: TaskKind| call_requires(pred, (k,)),
            forall|k: TaskKind| old(self)@.running.contains(k) ==> old(self)@.gen(k) < u64::MAX,
        ensures
            final(self).wf(),
            forall|k: TaskKind|
                !old(self)@.running.contains(k) ==> final(self)@.gen(k) == old(self)@.gen(k)
                    && !final(self)@.running.contains(k),
            forall|k: TaskKind|
                old(self)@.running.contains(k) ==> {
                    ||| (call_ensures(pred, (k,), true) && final(self)@.gen(k) == old(self)@.gen(k) + 1
                        && !final(self)@.running.contains(k))
                    ||| (call_ensures(pred, (k,), false) && final(self)@.gen(k) == old(self)@.gen(k)
                        && final(self)@.running.contains(k))
                },
    {
        let ghost start = self@;
        let ghost run = self.running@;
        let mut hits: Vec<TaskKind> = Vec::new();
        let mut i: usize = 0;
        while i < self.running.len()
            invariant
                self.wf(),
                self@ == start,
                self.running@ == run,
                forall|k: TaskKind| call_requires(pred, (k,)),
                i <= run.len(),
                hits@.no_duplicates(),
                forall|k: TaskKind| #[trigger] hits@.contains(k) ==> run.subrange(0, i as int).contains(k),
                forall|j: int|
                    0 <= j < i ==> (hits@.contains(#[trigger] run[j]) && call_ensures(pred, (run[j],), true)) || (
                    !hits@.contains(run[j]) && call_ensures(pred, (run[j],), false)),
            decreases run.len() - i,
        {
            let k = self.running[i];
            let b = pred(k);
            let ghost before = hits@;
            if b {
                hits.push(k);
            }
            proof {
                assert(!run.subrange(0, i as int).contains(k)) by {
                    if run.subrange(0, i as int).contains(k) {
                        let j = choose|j: int| 0 <= j < i && run.subrange(0, i as int)[j] == k;
                        assert(run[j] == run[i as int]);
                    }
                }
                assert(!before.contains(k));
                assert(hits@.no_duplicates()) by {
                    if b {
                        assert forall|x: int, y: int| 0 <= x < hits@.len() && 0 <= y < hits@.len() && x != y implies hits@[x]
                            != hits@[y] by {
                            if x == before.len() as int {
                                assert(before.contains(hits@[y]));
                            } else if y == before.len() as int {
                                assert(before.contains(hits@[x]));
                            }
                        }
                    }
                }
                assert forall|x: TaskKind| #[trigger] hits@.contains(x) implies run.subrange(0, i + 1).contains(x) by {
                    if before.contains(x) {
                        let j = choose|j: int| 0 <= j < i && run.subrange(0, i as int)[j] == x;
                        assert(run.subrange(0, i + 1)[j] == x);
                    } else {
                        assert(x == k);
                        assert(run.subrange(0, i + 1)[i as int] == x);
                    }
                }
                assert forall|j: int|
                    0 <= j < i + 1 implies (hits@.contains(#[trigger] run[j]) && call_ensures(pred, (run[j],), true)) || (
                    !hits@.contains(run[j]) && call_ensures(pred, (run[j],), false)) by {
                    if j < i {
                        if before.contains(run[j]) {
                            let w = choose|w: int| 0 <= w < before.len() && before[w] == run[j];
                            assert(hits@[w] == run[j]);
                        } else {
                            assert(run[j] != k);
                        }
                    } else {
                        if b {
                            assert(hits@[before.len() as int] == k);
                        }
                    }
                }
            }
            i += 1;
        }
        let mut q: usize = 0;
        while q < hits.len()
            invariant
                self.wf(),
                q <= hits@.len(),
                hits@.no_duplicates(),
                forall|k: TaskKind| #[trigger] hits@.contains(k) ==> start.running.contains(k),
                forall|k: TaskKind| start.running.contains(k) ==> start.gen(k) < u64::MAX,
                forall|k: TaskKind|
                    #![trigger self@.gen(k)]
                    hits@.subrange(0, q as int).contains(k) ==> self@.gen(k) == start.gen(k) + 1 && !self@.running.contains(k),
                forall|k: TaskKind|
                    #![trigger self@.gen(k)]
                    !hits@.subrange(0, q as int).contains(k) ==> self@.gen(k) == start.gen(k) && self@.running.contains(k)
                        == start.running.contains(k),
            decreases hits.len() - q,
        {
            let k = hits[q];
            proof {
                assert(hits@.contains(k));
                assert(!hits@.subrange(0, q as int).contains(k)) by {
                    if hits@.subrange(0, q as int).contains(k) {
                        let j = choose|j: int| 0 <= j < q && hits@.subrange(0, q as int)[j] == k;
                        assert(hits@[j] == hits@[q as int]);
                    }
                }
                assert(self@.gen(k) == start.gen(k));
            }
            let ghost mid = self@;
            self.invalidate(k);
            proof {
                assert forall|x: TaskKind|
                    #![trigger self@.gen(x)]
                    hits@.subrange(0, q + 1).contains(x) ==> self@.gen(x) == start.gen(x) + 1 && !self@.running.contains(x) by {
                    let hs = hits@.subrange(0, q + 1);
                    if hs.contains(x) && x != k {
                        let j = choose|j: int| 0 <= j < hs.len() && hs[j] == x;
                        assert(j < q);
                        assert(hits@.subrange(0, q as int)[j] == x);
                        assert(mid.gen(x) == start.gen(x) + 1);
                    }
                }
                assert forall|x: TaskKind|
                    #![trigger self@.gen(x)]
                    !hits@.subrange(0, q + 1).contains(x) ==> self@.gen(x) == start.gen(x) && self@.running.contains(x)
                        == start.running.contains(x) by {
                    if !hits@.subrange(0, q + 1).contains(x) {
                        assert(x != k) by {
                            assert(hits@.subrange(0, q + 1)[q as int] == k);
                        }
                        if hits@.subrange(0, q as int).contains(x) {
                            let j = choose|j: int| 0 <= j < q && hits@.subrange(0, q as int)[j] == x;
                            assert(hits@.subrange(0, q + 1)[j] == x);
                        }
                        assert(mid.gen(x) == start.gen(x));
                    }
                }
            }
            q += 1;
        }
        proof {
            assert(hits@.subrange(0, hits@.len() as int) =~= hits@);
            assert(run.subrange(0, run.len() as int) =~= run);
            assert forall|k: TaskKind| !start.running.contains(k) implies self@.gen(k) == start.gen(k)
                && !self@.running.contains(k) by {
                assert(!hits@.contains(k));
                assert(self@.gen(k) == start.gen(k));
            }
            assert forall|k: TaskKind| start.running.contains(k) implies {
                ||| (call_ensures(pred, (k,), true) && self@.gen(k) == start.gen(k) + 1 && !self@.running.contains(k))
                ||| (call_ensures(pred, (k,), false) && self@.gen(k) == start.gen(k) && self@.running.contains(k))
            } by {
                let j = choose|j: int| 0 <= j < run.len() && run[j] == k;
                assert(self@.gen(k) == self@.gen(k));
                if hits@.contains(run[j]) {
                    assert(hits@.subrange(0, hits@.len() as int).contains(k));
                }
            }
        }
    }

    /// `true` while a run of `kind` is in flight.
    pub fn is_loading(&self, kind: TaskKind) -> (r: bool)
        ensures
            r == self@.running.contains(kind),
    {
        self.running_index(kind).is_some()
    }

    /// `true` while any task is in flight.
    pub fn is_any_loading(&self) -> (r: bool)
        ensures
            r == (self@.running != Set::<TaskKind>::empty()),
    {
        proof {
            if self.running@.len() > 0 {
                assert(self.running@.to_set().contains(self.running@[0]));
            } else {
                assert(self.running@.to_set() =~= Set::<TaskKind>::empty());
            }
        }
        self.running.len() != 0
    }

    /// `true` while a mutating worker is in flight.
    pub fn has_mutating_task_in_flight(&self) -> (r: bool)
        ensures
            r == any_mutating(self@.running),
    {
        let mut i: usize = 0;
        while i < self.running.len()
            invariant
                i <= self.running@.len(),
                forall|j: int| 0 <= j < i ==> !mutating_kind(#[trigger] self.running@[j]),
            decreases self.running.len() - i,
        {
            if self.running[i].is_mutating() {
                proof {
                    let k = self.running@[i as int];
                    assert(self@.running.contains(k));
                    assert(k is CreateWorktree || k is Sync || k is Bootstrap || k is DeleteWorktree || k is Pull
                        || k is Push || k is EditWorktree);
                }
                return true;
            }
            i += 1;
        }
        proof {
            assert forall|k: TaskKind| self@.running.contains(k) implies !mutating_kind(k) by {
                let j = choose|j: int| 0 <= j < self.running@.len() && self.running@[j] == k;
            }
            if any_mutating(self@.running) {
                if self@.running.contains(TaskKind::CreateWorktree) {
                    assert(mutating_kind(TaskKind::CreateWorktree));
                }
                assert(mutating_kind(TaskKind::Sync) && mutating_kind(TaskKind::Bootstrap) && mutating_kind(
                    TaskKind::DeleteWorktree,
                ) && mutating_kind(TaskKind::Pull) && mutating_kind(TaskKind::Push) && mutating_kind(
                    TaskKind::EditWorktree,
                ));
            }
        }
        false
    }

    /// Loader label of a mutating task in flight, in a fixed priority order:
    /// create, sync, bootstrap, delete, pull, push, rename.
    pub fn mutating_loading_label(&self) -> (r: Option<&'static str>)
        ensures
            r.is_some() == any_mutating(self@.running),
            r.is_some() ==> r.unwrap()@ == label_of(first_mutating(self@.running)),
    {
        if self.is_loading(TaskKind::CreateWorktree) {
            Some(TaskKind::CreateWorktree.loading_label())
        } else if self.is_loading(TaskKind::Sync) {
            Some(TaskKind::Sync.loading_label())
        } else if self.is_loading(TaskKind::Bootstrap) {
            Some(TaskKind::Bootstrap.loading_label())
        } else if self.is_loading(TaskKind::DeleteWorktree) {
            Some(TaskKind::DeleteWorktree.loading_label())
        } else if self.is_loading(TaskKind::Pull) {
            Some(TaskKind::Pull.loading_label())
        } else if self.is_loading(TaskKind::Push) {
            Some(TaskKind::Push.loading_label())
        } else if self.is_loading(TaskKind::EditWorktree) {
            Some(TaskKind::EditWorktree.loading_label())
        } else {
            None
        }
    }

    /// The loader label of some task in flight; `None` when nothing is.
    pub fn loading_label(&self) -> (r: Option<&'static str>)
        ensures
            r.is_none() == (self@.running == Set::<TaskKind>::empty()),
            r.is_some() ==> exists|k: TaskKind| self@.running.contains(k) && r.unwrap()@ == label_of(k),
    {
        proof {
            if self.running@.len() == 0 {
                assert(self.running@.to_set() =~= Set::<TaskKind>::empty());
            } else {
                assert(self.running@.to_set().contains(self.running@[0]));
            }
        }
        if self.running.len() == 0 {
            None
        } else {
            proof {
                assert(self@.running.contains(self.running@[0]));
            }
            Some(self.running[0].loading_label())
        }
    }
}

/// Some mutating kind is in flight.
pub open spec fn any_mutating(running: Set<TaskKind>) -> bool {
    running.contains(TaskKind::CreateWorktree) || running.contains(TaskKind::Sync) || running.contains(
        TaskKind::Bootstrap,
    ) || running.contains(TaskKind::DeleteWorktree) || running.contains(TaskKind::Pull) || running.contains(
        TaskKind::Push,
    ) || running.contains(TaskKind::EditWorktree)
}

/// The first mutating kind in flight, in the loader's priority order.
pub open spec fn first_mutating(running: Set<TaskKind>) -> TaskKind {
    if running.contains(TaskKind::CreateWorktree) {
        TaskKind::CreateWorktree
    } else if running.contains(TaskKind::Sync) {
        TaskKind::Sync
    } else if running.contains(TaskKind::Bootstrap) {
        TaskKind::Bootstrap
    } else if running.contains(TaskKind::DeleteWorktree) {
        TaskKind::DeleteWorktree
    } else if running.contains(TaskKind::Pull) {
        TaskKind::Pull
    } else if running.contains(TaskKind::Push) {
        TaskKind::Push
    } else {
        TaskKind::EditWorktree
    }
}

/// What a requested quit does now.
#[derive(Debug, Clone, Copy, PartialEq, Eq, Structural)]
pub enum QuitGate {
    /// No quit was asked for.
    Stay,
    /// Nothing mutating is in flight: leave the event loop.
    Leave,
    /// A mutating task is still running: keep ticking and draining until it
    /// lands, showing this kind as the reason.
    Hold(TaskKind),
}

/// Whether a quit can leave now. Mutating workers (create, sync,
/// bootstrap, delete, pull, push, rename) are never abandoned mid-way:
/// the quit is held until their results are drained.
pub fn quit_gate(should_quit: bool, tasks: &TaskRunner) -> (r: QuitGate)
    ensures
        r == (if !should_quit {
            QuitGate::Stay
        } else if !any_mutating(tasks@.running) {
            QuitGate::Leave
        } else {
            QuitGate::Hold(first_mutating(tasks@.running))
        }),
{
    if !should_quit {
        return QuitGate::Stay;
    }
    if tasks.is_loading(TaskKind::CreateWorktree) {
        QuitGate::Hold(TaskKind::CreateWorktree)
    } else if tasks.is_loading(TaskKind::Sync) {
        QuitGate::Hold(TaskKind::Sync)
    } else if tasks.is_loading(TaskKind::Bootstrap) {
        QuitGate::Hold(TaskKind::Bootstrap)
    } else if tasks.is_loading(TaskKind::DeleteWorktree) {
        QuitGate::Hold(TaskKind::DeleteWorktree)
    } else if tasks.is_loading(TaskKind::Pull) {
        QuitGate::Hold(TaskKind::Pull)
    } else if tasks.is_loading(TaskKind::Push) {
        QuitGate::Hold(TaskKind::Push)
    } else if tasks.is_loading(TaskKind::EditWorktree) {
        QuitGate::Hold(TaskKind::EditWorktree)
    } else {
        QuitGate::Leave
    }
}

/// A request on a cold slot claims a generation whose result, reported
/// straight back, is authoritative and frees the slot.
pub proof fn law_request_then_complete(v: RunnerView, k: TaskKind)
    requires
        !v.running.contains(k),
        v.gen(k) < u64::MAX,
    ensures
        ({
            let (v1, g) = v.request(k);
            &&& g == Some((v.gen(k) + 1) as u64)
            &&& v1.running.contains(k)
            &&& v1.complete(k, g.unwrap()).1
            &&& !v1.complete(k, g.unwrap()).0.running.contains(k)
        }),
{
}

/// A second request while a run is in flight is coalesced: no new
/// generation, nothing changes.
pub proof fn law_request_coalesces(v: RunnerView, k: TaskKind)
    requires
        v.running.contains(k),
    ensures
        v.request(k) == (v, None::<u64>),
{
}

/// A result whose run was invalidated mid-flight is dropped, and dropping
/// it changes nothing.
pub proof fn law_late_result_dropped(v: RunnerView, k: TaskKind)
    requires
        !v.running.contains(k),
        v.gen(k) + 1 < u64::MAX,
    ensures
        ({
            let (v1, g) = v.request(k);
            let v2 = v1.invalidate(k);
            v2.complete(k, g.unwrap()) == (v2, false)
        }),
{
}

/// A stale worker reporting after a newer run was started never clears the
/// newer run's slot; the newer run's own result is still authoritative.
pub proof fn law_stale_result_keeps_newer_run(v: RunnerView, k: TaskKind)
    requires
        !v.running.contains(k),
        v.gen(k) + 2 < u64::MAX,
    ensures
        ({
            let (v1, g1) = v.request(k);
            let (v2, g2) = v1.invalidate(k).request(k);
            let (v3, stale) = v2.complete(k, g1.unwrap());
            &&& !stale
            &&& v3.running.contains(k)
            &&& v3.complete(k, g2.unwrap()).1
        }),
{
    let (v1, g1) = v.request(k);
    let w = v1.invalidate(k);
    assert(w.gen(k) == v.gen(k) + 2);
    assert(!w.running.contains(k));
}

/// Slots are independent: claiming or completing one kind never touches
/// another kind's generation or flight state (so `GithubIssue(42)` and
/// `GithubIssue(43)` never interfere).
pub proof fn law_slots_independent(v: RunnerView, k: TaskKind, other: TaskKind, g: u64)
    requires
        k != other,
    ensures
        v.request(k).0.gen(other) == v.gen(other),
        v.request(k).0.running.contains(other) == v.running.contains(other),
        v.invalidate(k).gen(other) == v.gen(other),
        v.invalidate(k).running.contains(other) == v.running.contains(other),
        v.complete(k, g).0.gen(other) == v.gen(other),
        v.complete(k, g).0.running.contains(other) == v.running.contains(other),
{
}

/// Generations never go back: a request hands out one past the current
/// generation and makes it current; an invalidate moves past it; a
/// completion leaves it. So each generation handed out is greater than
/// every one handed out before for the same kind.
pub proof fn law_generations_increase(v: RunnerView, k: TaskKind, g: u64)
    requires
        v.gen(k) < u64::MAX,
    ensures
        v.request(k).1 matches Some(n) ==> n > v.gen(k) && v.request(k).0.gen(k) == n,
        v.request(k).0.gen(k) >= v.gen(k),
        v.invalidate(k).gen(k) > v.gen(k),
        v.complete(k, g).0.gen(k) == v.gen(k),
{
}

/// After an invalidate, no generation handed out before it is
/// authoritative any more, nor after any later request: a late result of
/// the invalidated run is always dropped, and the next request starts a
/// new run.
pub proof fn law_invalidate_drops_earlier(v: RunnerView, k: TaskKind, g: u64)
    requires
        g <= v.gen(k),
        v.gen(k) + 1 < u64::MAX,
    ensures
        !v.invalidate(k).running.contains(k),
        !v.invalidate(k).complete(k, g).1,
        !v.invalidate(k).request(k).0.complete(k, g).1,
        v.invalidate(k).request(k).1 is Some,
{
}

/// What a finished create-worktree task hands back: the branch, the new
/// worktree's path, and the bootstrap report (`R`) for it.
#[derive(Debug, Clone)]
pub struct CreateWorktreeResult<R> {
    pub branch: String,
    pub created: PathBuf,
    pub report: R,
}

/// What a finished rename (edit-worktree) task hands back.
#[derive(Debug, Clone)]
pub struct EditWorktreeResult {
    pub new_branch: String,
    pub new_path: PathBuf,
    pub new_name: String,
    /// Whether the branch was renamed on the remote too.
    pub remote_renamed: bool,
}

} // verus!
