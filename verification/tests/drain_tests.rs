use gwm_tui::drain::{apply_agent_result, AgentFlags, AgentLanding};
use gwm_tui::async_task::{TaskKind, TaskRunner};
use gwm_tui::drain::{apply_task_result, drain_all, report_github_after_drain, status_after_refresh, DrainAction, DrainState, FollowUp, TaskEvent};
use gwm_tui::views::View;

fn state() -> DrainState {
    DrainState {
        view: View::List,
        status: "creating worktree…".to_string(),
        create_failure: None,
        delete_failure: None,
        edit_failure: None,
        applied: false,
        github_applied: false,
        owns_status: false,
    }
}

fn refresh_plan(a: DrainAction) -> (String, bool) {
    match a {
        DrainAction::Refresh { status, report_failure, .. } => (status, report_failure),
        _ => panic!("expected a re-list"),
    }
}

#[test]
fn late_result_is_dropped_and_changes_nothing() {
    let mut tasks = TaskRunner::new();
    let g = tasks.request(TaskKind::Sync).unwrap();
    tasks.invalidate(TaskKind::Sync);
    let mut st = state();
    let a = apply_task_result(&mut st, &mut tasks, TaskEvent::Sync(g, Ok("synced".into())));
    assert!(matches!(a, DrainAction::Dropped));
    assert!(!st.applied);
    assert_eq!(st.status, "creating worktree…");
}

#[test]
fn created_worktree_shows_report_and_relists() {
    let mut tasks = TaskRunner::new();
    let g = tasks.request(TaskKind::CreateWorktree).unwrap();
    let mut st = state();
    st.create_failure = Some("old".into());
    let a = apply_task_result(&mut st, &mut tasks, TaskEvent::CreateWorktree(g, Ok(("feat".into(), "/w/feat".into()))));
    let (status, report) = refresh_plan(a);
    assert_eq!(status, "created feat @ /w/feat");
    assert!(report);
    assert_eq!(st.view, View::Report);
    assert_eq!(st.create_failure, None);
    assert!(st.applied && st.owns_status);
    assert!(!tasks.is_loading(TaskKind::CreateWorktree));
    assert_eq!(status_after_refresh(&status, report, Err("no repo".into())), "created feat @ /w/feat; refresh failed: no repo");
    assert_eq!(status_after_refresh(&status, report, Ok(())), "created feat @ /w/feat");
}

#[test]
fn failed_refresh_is_reported_and_keeps_the_list() {
    let mut tasks = TaskRunner::new();
    let g = tasks.request(TaskKind::RefreshWorktrees).unwrap();
    let mut st = state();
    let a = apply_task_result(&mut st, &mut tasks, TaskEvent::RefreshWorktrees(g, Err("index locked".into())));
    assert!(matches!(a, DrainAction::Done));
    assert_eq!(st.status, "refresh failed: index locked");
    assert_eq!(st.view, View::List);
}

#[test]
fn failed_create_returns_to_the_form() {
    let mut tasks = TaskRunner::new();
    let g = tasks.request(TaskKind::CreateWorktree).unwrap();
    let mut st = state();
    let a = apply_task_result(&mut st, &mut tasks, TaskEvent::CreateWorktree(g, Err("branch exists".into())));
    assert!(matches!(a, DrainAction::Done));
    assert_eq!(st.view, View::Create);
    assert_eq!(st.status, "create failed: branch exists");
    assert_eq!(st.create_failure.as_deref(), Some("branch exists"));
}

#[test]
fn bootstrap_with_a_failed_step_says_so() {
    let mut tasks = TaskRunner::new();
    let g = tasks.request(TaskKind::Bootstrap).unwrap();
    let mut st = state();
    let a = apply_task_result(&mut st, &mut tasks, TaskEvent::Bootstrap(g, Ok(true)));
    assert!(matches!(a, DrainAction::Store));
    assert_eq!(st.status, "bootstrap had failures");
    assert_eq!(st.view, View::Report);
}

#[test]
fn delete_and_rename_plan_their_status_lines() {
    let mut tasks = TaskRunner::new();
    let g = tasks.request(TaskKind::DeleteWorktree).unwrap();
    let mut st = state();
    let a = apply_task_result(&mut st, &mut tasks, TaskEvent::DeleteWorktree(g, "feat".into(), "merged".into(), Ok(())));
    let (status, report) = refresh_plan(a);
    assert_eq!(status, "removed feat (merged)");
    assert!(report);
    let g = tasks.request(TaskKind::EditWorktree).unwrap();
    let a = apply_task_result(&mut st, &mut tasks, TaskEvent::EditWorktree(g, Ok(("topic".into(), true))));
    let (status, report) = refresh_plan(a);
    assert_eq!(status, "renamed to topic (local + remote)");
    assert!(!report);
    assert_eq!(status_after_refresh(&status, report, Err("x".into())), "renamed to topic (local + remote)");
}

#[test]
fn github_outcome_is_reported_only_when_nothing_else_owns_the_status() {
    let mut tasks = TaskRunner::new();
    let g = tasks.request(TaskKind::GithubIssue(42)).unwrap();
    let mut st = state();
    let a = apply_task_result(&mut st, &mut tasks, TaskEvent::GithubIssue(g, 42));
    assert!(matches!(a, DrainAction::Store));
    assert!(report_github_after_drain(&st, false));
    assert!(!report_github_after_drain(&st, true));
    let g = tasks.request(TaskKind::Pull).unwrap();
    let a = apply_task_result(&mut st, &mut tasks, TaskEvent::Pull(g, "main".into(), Err("conflict".into())));
    assert_eq!(refresh_plan(a).0, "pull failed: conflict");
    assert!(!report_github_after_drain(&st, false));
}

#[test]
fn drain_consumes_every_result_and_reports_whether_any_applied() {
    let mut tasks = TaskRunner::new();
    let stale = tasks.request(TaskKind::Push).unwrap();
    tasks.invalidate(TaskKind::Push);
    let mut st = state();
    let acts = drain_all(&mut st, &mut tasks, vec![TaskEvent::Push(stale, "main".into(), Ok("ok".into()))]);
    assert_eq!(acts.len(), 1);
    assert!(matches!(acts[0], DrainAction::Dropped));
    assert!(!st.applied);
    let g = tasks.request(TaskKind::DeleteWorktree).unwrap();
    let h = tasks.request(TaskKind::EditWorktree).unwrap();
    let acts = drain_all(
        &mut st,
        &mut tasks,
        vec![
            TaskEvent::DeleteWorktree(g, "feat".into(), "merged".into(), Ok(())),
            TaskEvent::Sync(99, Ok("late".into())),
            TaskEvent::EditWorktree(h, Ok(("topic".into(), false))),
        ],
    );
    assert_eq!(acts.len(), 3);
    assert!(matches!(acts[0], DrainAction::Refresh { then: FollowUp::ResetConfirm, .. }));
    assert!(matches!(acts[1], DrainAction::Dropped));
    assert!(matches!(acts[2], DrainAction::Refresh { then: FollowUp::FinishRename, .. }));
    assert!(st.applied);
}

#[test]
fn generations_grow_and_invalidated_runs_stay_dropped() {
    let mut tasks = TaskRunner::new();
    let g1 = tasks.request(TaskKind::Pull).unwrap();
    tasks.invalidate(TaskKind::Pull);
    let g2 = tasks.request(TaskKind::Pull).unwrap();
    assert!(g2 > g1);
    assert!(!tasks.complete(TaskKind::Pull, g1));
    assert!(tasks.complete(TaskKind::Pull, g2));
}

#[test]
fn agent_landing_chains_the_waiting_pool_scan_and_keeps_fresh_pins() {
    let mut tasks = TaskRunner::new();
    let g = tasks.request(TaskKind::AgentSessions).unwrap();
    let mut flags = AgentFlags { pool_wanted: true, redetect_wanted: true };
    assert_eq!(apply_agent_result(&mut flags, &mut tasks, g + 1, false, true, true), None);
    assert_eq!(flags, AgentFlags { pool_wanted: true, redetect_wanted: true });
    let l = apply_agent_result(&mut flags, &mut tasks, g, false, true, false).unwrap();
    assert_eq!(
        l,
        AgentLanding { store_pool: false, rescan_pool: true, store_pins: false, clear_stamp: true, rebuild_rows: false }
    );
    assert_eq!(flags, AgentFlags { pool_wanted: false, redetect_wanted: false });
}
