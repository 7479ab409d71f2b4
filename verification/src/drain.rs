//! Applying finished background tasks: each result passes the generation
//! check of the task spine before it changes anything, then sets the
//! screen, the status line and the failure notes, and tells the event loop
//! what is left for it to do (store a payload, re-list the worktrees). The
//! loop owns the payloads and the repository; this module owns the
//! decisions.

use vstd::prelude::*;
use crate::async_task::{RunnerView, TaskKind, TaskRunner};
use crate::views::View as Screen;

verus! {

/// A finished task's result as the event loop receives it: the generation
/// it was started under, and what it reports. Payloads that only the loop
/// can store (worktree rows, reports, sidebar sections, GitHub statuses)
/// stay with the loop.
pub enum TaskEvent {
    /// `Ok((branch, created path))` or the error.
    CreateWorktree(u64, Result<(String, String), String>),
    /// `Ok` when fresh rows came back.
    RefreshWorktrees(u64, Result<(), String>),
    RefreshWorkspace(u64),
    /// Issue number.
    GithubIssue(u64, u64),
    /// PR number, and whether landing it closed the CI overlay (whose
    /// closing message then owns the status line).
    GithubPr(u64, u64, bool),
    /// `Ok(report text)` or the error.
    Sync(u64, Result<String, String>),
    /// `Ok(whether any step failed)` or the error.
    Bootstrap(u64, Result<bool, String>),
    /// Worktree name, its label, and the outcome.
    DeleteWorktree(u64, String, String, Result<(), String>),
    /// Worktree name, and git's message or the error.
    Pull(u64, String, Result<String, String>),
    Push(u64, String, Result<String, String>),
    /// `Ok((new branch, renamed on the remote too))` or the error.
    EditWorktree(u64, Result<(String, bool), String>),
    Sidebar(u64),
}

/// The part of the TUI's state that applying results decides.
pub struct DrainState {
    pub view: Screen,
    pub status: String,
    pub create_failure: Option<String>,
    pub delete_failure: Option<String>,
    pub edit_failure: Option<String>,
    /// Some result was applied since the drain began.
    pub applied: bool,
    /// Some GitHub result was applied.
    pub github_applied: bool,
    /// A result that owns the status line was applied.
    pub owns_status: bool,
}

/// What the event loop does after a result was applied or dropped.
pub enum DrainAction {
    /// The result was stale and dropped; nothing changed.
    Dropped,
    /// Nothing more: the state above is the whole effect.
    Done,
    /// Store the result's payload (rows, workspace rows, report, sidebar
    /// sections, GitHub status).
    Store,
    /// Store the payload, if the result carries one, re-list the worktrees,
    /// then show `status` (with `; refresh failed: <error>` appended when
    /// `report_failure` and the re-list failed), then do `then`.
    Refresh { status: String, report_failure: bool, then: FollowUp },
}

/// What a re-listing result leaves to do once the list is fresh.
#[derive(Debug, Clone, Copy, PartialEq, Eq, Structural)]
pub enum FollowUp {
    Nothing,
    /// A worktree was removed: reset the confirmation modal (its countdown
    /// and target).
    ResetConfirm,
    /// A worktree was renamed: select it again by its new path, forget the
    /// branch and path the rename form was opened on, and reset the form.
    FinishRename,
}

/// The state's value in the contracts.
pub struct DrainView {
    pub view: Screen,
    pub status: Seq<char>,
    pub create_failure: Option<Seq<char>>,
    pub delete_failure: Option<Seq<char>>,
    pub edit_failure: Option<Seq<char>>,
    pub applied: bool,
    pub github_applied: bool,
    pub owns_status: bool,
}

pub open spec fn opt_view(o: Option<String>) -> Option<Seq<char>> {
    match o {
        Some(s) => Some(s@),
        None => None,
    }
}

impl DrainState {
    pub open spec fn dview(&self) -> DrainView {
        DrainView {
            view: self.view,
            status: self.status@,
            create_failure: opt_view(self.create_failure),
            delete_failure: opt_view(self.delete_failure),
            edit_failure: opt_view(self.edit_failure),
            applied: self.applied,
            github_applied: self.github_applied,
            owns_status: self.owns_status,
        }
    }
}

/// The action's value in the contracts.
pub enum ActionView {
    Dropped,
    Done,
    Store,
    Refresh(Seq<char>, bool, FollowUp),
}

pub open spec fn action_view(a: DrainAction) -> ActionView {
    match a {
        DrainAction::Dropped => ActionView::Dropped,
        DrainAction::Done => ActionView::Done,
        DrainAction::Store => ActionView::Store,
        DrainAction::Refresh { status, report_failure, then } => ActionView::Refresh(status@, report_failure, then),
    }
}

/// The spine slot a result belongs to.
pub open spec fn kind_of(ev: TaskEvent) -> TaskKind {
    match ev {
        TaskEvent::CreateWorktree(..) => TaskKind::CreateWorktree,
        TaskEvent::RefreshWorktrees(..) => TaskKind::RefreshWorktrees,
        TaskEvent::RefreshWorkspace(..) => TaskKind::RefreshWorkspace,
        TaskEvent::GithubIssue(_, n) => TaskKind::GithubIssue(n),
        TaskEvent::GithubPr(_, n, _) => TaskKind::GithubPr(n),
        TaskEvent::Sync(..) => TaskKind::Sync,
        TaskEvent::Bootstrap(..) => TaskKind::Bootstrap,
        TaskEvent::DeleteWorktree(..) => TaskKind::DeleteWorktree,
        TaskEvent::Pull(..) => TaskKind::Pull,
        TaskEvent::Push(..) => TaskKind::Push,
        TaskEvent::EditWorktree(..) => TaskKind::EditWorktree,
        TaskEvent::Sidebar(..) => TaskKind::Sidebar,
    }
}

/// The generation a result was started under.
pub open spec fn gen_of(ev: TaskEvent) -> u64 {
    match ev {
        TaskEvent::CreateWorktree(g, _) => g,
        TaskEvent::RefreshWorktrees(g, _) => g,
        TaskEvent::RefreshWorkspace(g) => g,
        TaskEvent::GithubIssue(g, _) => g,
        TaskEvent::GithubPr(g, _, _) => g,
        TaskEvent::Sync(g, _) => g,
        TaskEvent::Bootstrap(g, _) => g,
        TaskEvent::DeleteWorktree(g, _, _, _) => g,
        TaskEvent::Pull(g, _, _) => g,
        TaskEvent::Push(g, _, _) => g,
        TaskEvent::EditWorktree(g, _) => g,
        TaskEvent::Sidebar(g) => g,
    }
}

/// What an authoritative result does to the state, and what is left for
/// the loop.
pub open spec fn apply_spec(s: DrainView, ev: TaskEvent) -> (DrainView, ActionView) {
    let s1 = DrainView { applied: true, ..s };
    let owned = DrainView { owns_status: true, ..s1 };
    match ev {
        TaskEvent::CreateWorktree(_, r) => match r {
            Ok((branch, created)) => (
                DrainView { create_failure: None, view: Screen::Report, ..owned },
                ActionView::Refresh("created "@ + branch@ + " @ "@ + created@, true, FollowUp::Nothing),
            ),
            Err(e) => (
                DrainView { create_failure: Some(e@), view: Screen::Create, status: "create failed: "@ + e@, ..owned },
                ActionView::Done,
            ),
        },
        TaskEvent::RefreshWorktrees(_, r) => match r {
            Ok(()) => (owned, ActionView::Store),
            Err(e) => (DrainView { status: "refresh failed: "@ + e@, ..owned }, ActionView::Done),
        },
        TaskEvent::RefreshWorkspace(_) => (owned, ActionView::Store),
        TaskEvent::GithubIssue(_, _) => (DrainView { github_applied: true, ..s1 }, ActionView::Store),
        TaskEvent::GithubPr(_, _, closes) => (
            DrainView { github_applied: true, owns_status: s.owns_status || closes, ..s1 },
            ActionView::Store,
        ),
        TaskEvent::Sync(_, r) => match r {
            Ok(report) => (owned, ActionView::Refresh(report@, false, FollowUp::Nothing)),
            Err(e) => (DrainView { status: "sync failed: "@ + e@, ..owned }, ActionView::Done),
        },
        TaskEvent::Bootstrap(_, r) => match r {
            Ok(any_failed) => (
                DrainView {
                    view: Screen::Report,
                    status: if any_failed { "bootstrap had failures"@ } else { "bootstrap ok"@ },
                    ..owned
                },
                ActionView::Store,
            ),
            Err(e) => (DrainView { status: "bootstrap error: "@ + e@, ..owned }, ActionView::Done),
        },
        TaskEvent::DeleteWorktree(_, name, label, r) => match r {
            Ok(()) => (
                DrainView { delete_failure: None, view: Screen::List, ..owned },
                ActionView::Refresh("removed "@ + name@ + " ("@ + label@ + ")"@, true, FollowUp::ResetConfirm),
            ),
            Err(e) => (
                DrainView { delete_failure: Some(e@), view: Screen::Confirm, status: "delete failed: "@ + e@, ..owned },
                ActionView::Done,
            ),
        },
        TaskEvent::Pull(_, name, r) => (
            owned,
            ActionView::Refresh(
                match r {
                    Ok(m) => "pulled "@ + name@ + ": "@ + m@,
                    Err(e) => "pull failed: "@ + e@,
                },
                false,
                FollowUp::Nothing,
            ),
        ),
        TaskEvent::Push(_, name, r) => match r {
            Ok(m) => (owned, ActionView::Refresh("pushed "@ + name@ + ": "@ + m@, false, FollowUp::Nothing)),
            Err(e) => (DrainView { status: "push failed: "@ + e@, ..owned }, ActionView::Done),
        },
        TaskEvent::EditWorktree(_, r) => match r {
            Ok((branch, remote)) => (
                DrainView { edit_failure: None, view: Screen::List, ..owned },
                ActionView::Refresh(
                    "renamed to "@ + branch@ + (if remote { " (local + remote)"@ } else { " (local only)"@ }),
                    false,
                    FollowUp::FinishRename,
                ),
            ),
            Err(e) => (
                DrainView { edit_failure: Some(e@), status: "rename failed: "@ + e@, ..owned },
                ActionView::Done,
            ),
        },
        TaskEvent::Sidebar(_) => (s1, ActionView::Store),
    }
}

/// A failed re-list is reported on the status line and leaves the list as
/// it was: nothing is stored, no re-list follows, and the screen stays.
pub proof fn law_failed_refresh_keeps_list(s: DrainView, g: u64, e: String)
    ensures
        apply_spec(s, TaskEvent::RefreshWorktrees(g, Err(e))).1 == ActionView::Done,
        apply_spec(s, TaskEvent::RefreshWorktrees(g, Err(e))).0.view == s.view,
        apply_spec(s, TaskEvent::RefreshWorktrees(g, Err(e))).0.status == "refresh failed: "@ + e@,
{
}

/// Every result that passes the generation check counts as applied, so the
/// drain reports it and the loop redraws; failure notes it does not touch
/// stay as they were.
pub proof fn law_applied_result_marks_drain(s: DrainView, ev: TaskEvent)
    ensures
        apply_spec(s, ev).0.applied,
        !(ev is CreateWorktree) ==> apply_spec(s, ev).0.create_failure == s.create_failure,
        !(ev is DeleteWorktree) ==> apply_spec(s, ev).0.delete_failure == s.delete_failure,
        !(ev is EditWorktree) ==> apply_spec(s, ev).0.edit_failure == s.edit_failure,
{
}

/// The status line after a re-list: the planned status, with the re-list's
/// failure appended where the plan reports it.
pub open spec fn after_refresh(status: Seq<char>, report_failure: bool, refresh: Result<(), Seq<char>>) -> Seq<char> {
    match refresh {
        Err(e) => if report_failure { status + "; refresh failed: "@ + e } else { status },
        Ok(()) => status,
    }
}

fn cat(a: &str, b: &str) -> (r: String)
    ensures
        r@ == a@ + b@,
{
    let mut v = crate::text::chars_of(a);
    let w = crate::text::chars_of(b);
    let ghost start = v@;
    let mut i: usize = 0;
    while i < w.len()
        invariant
            i <= w@.len(),
            v@ == start + w@.take(i as int),
        decreases w.len() - i,
    {
        v.push(w[i]);
        proof {
            assert(w@.take(i + 1) =~= w@.take(i as int).push(w@[i as int]));
        }
        i += 1;
    }
    proof {
        assert(w@.take(w@.len() as int) =~= w@);
    }
    crate::text::string_of(v.as_slice())
}

fn own(s: &str) -> (r: String)
    ensures
        r@ == s@,
{
    crate::text::string_of(crate::text::chars_of(s).as_slice())
}

/// Apply one finished result. It first passes the spine's generation
/// check: a late result (its run superseded or invalidated) is dropped and
/// changes nothing; an authoritative one frees its slot and is applied.
pub fn apply_task_result(st: &mut DrainState, tasks: &mut TaskRunner, ev: TaskEvent) -> (a: DrainAction)
    requires
        old(tasks).wf(),
    ensures
        final(tasks).wf(),
        final(tasks)@ == old(tasks)@.complete(kind_of(ev), gen_of(ev)).0,
        !old(tasks)@.complete(kind_of(ev), gen_of(ev)).1 ==> a is Dropped && final(st).dview() == old(st).dview(),
        old(tasks)@.complete(kind_of(ev), gen_of(ev)).1 ==> (final(st).dview(), action_view(a)) == apply_spec(old(st).dview(), ev),
{
    let (kind, generation) = match &ev {
        TaskEvent::CreateWorktree(g, _) => (TaskKind::CreateWorktree, *g),
        TaskEvent::RefreshWorktrees(g, _) => (TaskKind::RefreshWorktrees, *g),
        TaskEvent::RefreshWorkspace(g) => (TaskKind::RefreshWorkspace, *g),
        TaskEvent::GithubIssue(g, n) => (TaskKind::GithubIssue(*n), *g),
        TaskEvent::GithubPr(g, n, _) => (TaskKind::GithubPr(*n), *g),
        TaskEvent::Sync(g, _) => (TaskKind::Sync, *g),
        TaskEvent::Bootstrap(g, _) => (TaskKind::Bootstrap, *g),
        TaskEvent::DeleteWorktree(g, _, _, _) => (TaskKind::DeleteWorktree, *g),
        TaskEvent::Pull(g, _, _) => (TaskKind::Pull, *g),
        TaskEvent::Push(g, _, _) => (TaskKind::Push, *g),
        TaskEvent::EditWorktree(g, _) => (TaskKind::EditWorktree, *g),
        TaskEvent::Sidebar(g) => (TaskKind::Sidebar, *g),
    };
    if !tasks.complete(kind, generation) {
        return DrainAction::Dropped;
    }
    st.applied = true;
    match ev {
        TaskEvent::CreateWorktree(_, r) => {
            st.owns_status = true;
            match r {
                Ok((branch, created)) => {
                    st.create_failure = None;
                    st.view = Screen::Report;
                    let s = cat(cat(cat("created ", branch.as_str()).as_str(), " @ ").as_str(), created.as_str());
                    DrainAction::Refresh { status: s, report_failure: true, then: FollowUp::Nothing }
                },
                Err(e) => {
                    st.status = cat("create failed: ", e.as_str());
                    st.view = Screen::Create;
                    st.create_failure = Some(e);
                    DrainAction::Done
                },
            }
        },
        TaskEvent::RefreshWorktrees(_, r) => {
            st.owns_status = true;
            match r {
                Ok(()) => DrainAction::Store,
                Err(e) => {
                    st.status = cat("refresh failed: ", e.as_str());
                    DrainAction::Done
                },
            }
        },
        TaskEvent::RefreshWorkspace(_) => {
            st.owns_status = true;
            DrainAction::Store
        },
        TaskEvent::GithubIssue(_, _) => {
            st.github_applied = true;
            DrainAction::Store
        },
        TaskEvent::GithubPr(_, _, closes) => {
            st.github_applied = true;
            if closes {
                st.owns_status = true;
            }
            DrainAction::Store
        },
        TaskEvent::Sync(_, r) => {
            st.owns_status = true;
            match r {
                Ok(report) => DrainAction::Refresh { status: report, report_failure: false, then: FollowUp::Nothing },
                Err(e) => {
                    st.status = cat("sync failed: ", e.as_str());
                    DrainAction::Done
                },
            }
        },
        TaskEvent::Bootstrap(_, r) => {
            st.owns_status = true;
            match r {
                Ok(any_failed) => {
                    st.view = Screen::Report;
                    st.status = if any_failed { own("bootstrap had failures") } else { own("bootstrap ok") };
                    DrainAction::Store
                },
                Err(e) => {
                    st.status = cat("bootstrap error: ", e.as_str());
                    DrainAction::Done
                },
            }
        },
        TaskEvent::DeleteWorktree(_, name, label, r) => {
            st.owns_status = true;
            match r {
                Ok(()) => {
                    st.delete_failure = None;
                    st.view = Screen::List;
                    let s = cat(
                        cat(cat(cat("removed ", name.as_str()).as_str(), " (").as_str(), label.as_str()).as_str(),
                        ")",
                    );
                    DrainAction::Refresh { status: s, report_failure: true, then: FollowUp::ResetConfirm }
                },
                Err(e) => {
                    st.status = cat("delete failed: ", e.as_str());
                    st.view = Screen::Confirm;
                    st.delete_failure = Some(e);
                    DrainAction::Done
                },
            }
        },
        TaskEvent::Pull(_, name, r) => {
            st.owns_status = true;
            let s = match r {
                Ok(m) => cat(cat(cat("pulled ", name.as_str()).as_str(), ": ").as_str(), m.as_str()),
                Err(e) => cat("pull failed: ", e.as_str()),
            };
            DrainAction::Refresh { status: s, report_failure: false, then: FollowUp::Nothing }
        },
        TaskEvent::Push(_, name, r) => {
            st.owns_status = true;
            match r {
                Ok(m) => {
                    let s = cat(cat(cat("pushed ", name.as_str()).as_str(), ": ").as_str(), m.as_str());
                    DrainAction::Refresh { status: s, report_failure: false, then: FollowUp::Nothing }
                },
                Err(e) => {
                    st.status = cat("push failed: ", e.as_str());
                    DrainAction::Done
                },
            }
        },
        TaskEvent::EditWorktree(_, r) => {
            st.owns_status = true;
            match r {
                Ok((branch, remote)) => {
                    st.edit_failure = None;
                    st.view = Screen::List;
                    let tail = if remote { " (local + remote)" } else { " (local only)" };
                    let s = cat(cat("renamed to ", branch.as_str()).as_str(), tail);
                    DrainAction::Refresh { status: s, report_failure: false, then: FollowUp::FinishRename }
                },
                Err(e) => {
                    st.status = cat("rename failed: ", e.as_str());
                    st.edit_failure = Some(e);
                    DrainAction::Done
                },
            }
        },
        TaskEvent::Sidebar(_) => DrainAction::Store,
    }
}

/// The status line once the loop has re-listed the worktrees for a
/// [`DrainAction::Refresh`].
pub fn status_after_refresh(status: &str, report_failure: bool, refresh: Result<(), String>) -> (r: String)
    ensures
        r@ == after_refresh(
            status@,
            report_failure,
            match refresh {
                Ok(()) => Ok(()),
                Err(e) => Err(e@),
            },
        ),
{
    match refresh {
        Err(e) => if report_failure {
            cat(cat(status, "; refresh failed: ").as_str(), e.as_str())
        } else {
            own(status)
        },
        Ok(()) => own(status),
    }
}

/// Whether, after a drain, the GitHub outcome is reported on the status
/// line: only when a GitHub result applied, nothing that owns the status
/// line landed in the same drain, and no GitHub fetch is still loading.
pub fn report_github_after_drain(st: &DrainState, github_loading: bool) -> (r: bool)
    ensures
        r == (st.github_applied && !st.owns_status && !github_loading),
{
    st.github_applied && !st.owns_status && !github_loading
}

/// A drain over the results that have arrived, in arrival order: the
/// runner, the state and one action per result.
pub open spec fn drain_fold(v: RunnerView, s: DrainView, evs: Seq<TaskEvent>) -> (RunnerView, DrainView, Seq<ActionView>)
    decreases evs.len(),
{
    if evs.len() == 0 {
        (v, s, Seq::empty())
    } else {
        let (v1, s1, a1) = drain_fold(v, s, evs.drop_last());
        let ev = evs.last();
        let (v2, ok) = v1.complete(kind_of(ev), gen_of(ev));
        if ok {
            let (s2, a) = apply_spec(s1, ev);
            (v2, s2, a1.push(a))
        } else {
            (v2, s1, a1.push(ActionView::Dropped))
        }
    }
}

/// Apply every result that has arrived, in order; one action per result,
/// for the loop to perform in the same order.
pub fn drain_all(st: &mut DrainState, tasks: &mut TaskRunner, events: Vec<TaskEvent>) -> (acts: Vec<DrainAction>)
    requires
        old(tasks).wf(),
    ensures
        final(tasks).wf(),
        acts@.len() == events@.len(),
        drain_fold(old(tasks)@, old(st).dview(), events@) == (
            final(tasks)@,
            final(st).dview(),
            acts@.map_values(|a: DrainAction| action_view(a)),
        ),
{
    let ghost all = events@;
    let mut events = events;
    let mut acts: Vec<DrainAction> = Vec::new();
    let ghost v0 = tasks@;
    let ghost s0 = st.dview();
    proof {
        assert(all.take(0) =~= Seq::<TaskEvent>::empty());
        assert(acts@.map_values(|a: DrainAction| action_view(a)) =~= Seq::<ActionView>::empty());
    }
    while events.len() > 0
        invariant
            tasks.wf(),
            acts@.len() + events@.len() == all.len(),
            events@ == all.skip(acts@.len() as int),
            drain_fold(v0, s0, all.take(acts@.len() as int)) == (
                tasks@,
                st.dview(),
                acts@.map_values(|a: DrainAction| action_view(a)),
            ),
        decreases events.len(),
    {
        let ghost k = acts@.len() as int;
        let ev = events.remove(0);
        proof {
            assert(ev == all[k]);
            assert(all.take(k + 1).drop_last() =~= all.take(k));
            assert(all.take(k + 1).last() == all[k]);
            assert(events@ =~= all.skip(k + 1));
        }
        let ghost vb = tasks@;
        let ghost sb = st.dview();
        let ghost evg = ev;
        let a = apply_task_result(st, tasks, ev);
        let ghost before = acts@;
        acts.push(a);
        proof {
            assert(acts@.map_values(|a: DrainAction| action_view(a)) =~= before.map_values(|a: DrainAction| action_view(a)).push(action_view(a)));
        }
    }
    proof {
        assert(all.take(acts@.len() as int) =~= all);
    }
    acts
}

/// The drain consumes every result present and reports whether it applied
/// any: starting from a drain that has applied nothing, it ends having
/// applied something exactly when some result passed the generation
/// check, and a result that did not pass is only dropped.
pub proof fn law_drain_reports_applied(v: RunnerView, s: DrainView, evs: Seq<TaskEvent>)
    requires
        !s.applied,
    ensures
        drain_fold(v, s, evs).2.len() == evs.len(),
        drain_fold(v, s, evs).1.applied <==> exists|i: int| 0 <= i < evs.len() && !(drain_fold(v, s, evs).2[i] is Dropped),
    decreases evs.len(),
{
    if evs.len() > 0 {
        law_drain_reports_applied(v, s, evs.drop_last());
        let (v1, s1, a1) = drain_fold(v, s, evs.drop_last());
        let r = drain_fold(v, s, evs);
        assert forall|i: int| 0 <= i < a1.len() implies r.2[i] == a1[i] by {}
        let ev = evs.last();
        if v1.complete(kind_of(ev), gen_of(ev)).1 {
            law_applied_result_marks_drain(s1, ev);
            assert(!(r.2[evs.len() - 1] is Dropped));
        } else {
            if r.1.applied {
                let i = choose|i: int| 0 <= i < a1.len() && !(a1[i] is Dropped);
                assert(!(r.2[i] is Dropped));
            }
        }
    }
}

/// The two requests that wait for an agent-session detection in flight.
#[derive(Debug, Clone, Copy, PartialEq, Eq, Structural)]
pub struct AgentFlags {
    /// A scan of every session (the attach prompt's candidates) was asked
    /// for while a detection ran.
    pub pool_wanted: bool,
    /// A pin changed while a detection ran, so its pins are out of date.
    pub redetect_wanted: bool,
}

/// What a landed agent-session detection leaves for the loop. The
/// snapshot itself is always stored and stamped with the time.
#[derive(Debug, Clone, Copy, PartialEq, Eq, Structural)]
pub struct AgentLanding {
    /// Store the full session pool the run carried.
    pub store_pool: bool,
    /// Start the pool scan that was waiting (the run carried none and the
    /// attach prompt is still open).
    pub rescan_pool: bool,
    /// Store the pins the run read.
    pub store_pins: bool,
    /// Clear the snapshot's time stamp, so the next tick re-detects.
    pub clear_stamp: bool,
    /// Rebuild the open agents overlay's rows.
    pub rebuild_rows: bool,
}

/// An agent-session detection result. It passes the same generation check
/// as every other result but does not count as applied: detection reads no
/// git state.
pub fn apply_agent_result(
    flags: &mut AgentFlags,
    tasks: &mut TaskRunner,
    generation: u64,
    carries_pool: bool,
    prompt_open: bool,
    agents_overlay_open: bool,
) -> (r: Option<AgentLanding>)
    requires
        old(tasks).wf(),
    ensures
        final(tasks).wf(),
        final(tasks)@ == old(tasks)@.complete(TaskKind::AgentSessions, generation).0,
        !old(tasks)@.complete(TaskKind::AgentSessions, generation).1 ==> r is None && *final(flags) == *old(flags),
        old(tasks)@.complete(TaskKind::AgentSessions, generation).1 ==> *final(flags) == (AgentFlags {
            pool_wanted: false,
            redetect_wanted: false,
        }) && r == Some(AgentLanding {
            store_pool: carries_pool,
            rescan_pool: old(flags).pool_wanted && !carries_pool && prompt_open,
            store_pins: !old(flags).redetect_wanted,
            clear_stamp: old(flags).redetect_wanted,
            rebuild_rows: agents_overlay_open,
        }),
{
    if !tasks.complete(TaskKind::AgentSessions, generation) {
        return None;
    }
    let rescan_pool = flags.pool_wanted && !carries_pool && prompt_open;
    let redetect = flags.redetect_wanted;
    flags.pool_wanted = false;
    flags.redetect_wanted = false;
    Some(AgentLanding {
        store_pool: carries_pool,
        rescan_pool,
        store_pins: !redetect,
        clear_stamp: redetect,
        rebuild_rows: agents_overlay_open,
    })
}

} // verus!
