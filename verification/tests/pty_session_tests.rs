use gwm_tui::pty::PtyKind;
use gwm_tui::pty_session::PtySession;

#[test]
fn group_is_signalled_once_across_finish_and_close() {
    let mut s = PtySession::new(PtyKind::Exec, Some(4242), 80, 24);
    assert!(!s.group_signalled() && !s.is_reaped() && !s.finished);
    assert!(!s.observe_exit(false));
    assert!(s.is_reaped());
    assert_eq!(s.mark_finished(), Some(4242));
    assert!(s.finished && s.group_signalled());
    let plan = s.begin_kill();
    assert_eq!(plan.signal_group, None);
    assert!(!plan.wait_for_leader);
    assert_eq!(plan.teardown, None);
}

#[test]
fn close_of_a_live_session_waits_and_tears_down_once() {
    let mut s = PtySession::new(PtyKind::Exec, Some(7), 100, 30)
        .with_teardown(vec!["docker".to_string(), "rm".to_string(), "-f".to_string(), "gwm-x".to_string()]);
    assert_eq!(s.teardown_argv().map(|a| a.len()), Some(4));
    assert!(s.observe_exit(true));
    assert!(!s.is_reaped());
    let plan = s.begin_kill();
    assert_eq!(plan.signal_group, Some(7));
    assert!(plan.wait_for_leader);
    assert_eq!(plan.teardown.as_ref().map(|t| t[0].as_str()), Some("docker"));
    assert!(s.is_reaped() && s.teardown_argv().is_none());
    let again = s.begin_kill();
    assert_eq!(again.signal_group, None);
    assert!(!again.wait_for_leader);
    assert!(again.teardown.is_none());
    s.resize(120, 40);
    assert_eq!((s.cols, s.rows), (120, 40));
}

#[test]
fn no_pid_means_no_signal() {
    let mut s = PtySession::new(PtyKind::Terminal, None, 80, 24);
    assert_eq!(s.signal_group(), None);
    assert!(s.group_signalled());
}
