use gwm_tui::async_task::{QuitGate, TaskKind, TaskRunner};
use gwm_tui::event_loop::{list_key, poll_millis, pty_tick, route_event, EventRoute, ListKey, LoopEvent, PtyTick};
use gwm_tui::keymap::{KeyCode, KeyModifiers, KeyStroke};
use gwm_tui::pty::PtyKind;
use gwm_tui::views::View;

fn ctrl_c() -> KeyStroke {
    KeyStroke { code: KeyCode::Char('c'), modifiers: KeyModifiers { ctrl: true, alt: false, shift: false } }
}

fn plain(c: char) -> KeyStroke {
    KeyStroke { code: KeyCode::Char(c), modifiers: KeyModifiers { ctrl: false, alt: false, shift: false } }
}

#[test]
fn ctrl_c_in_the_pty_goes_to_the_child() {
    let tasks = TaskRunner::new();
    assert!(matches!(route_event(View::Pty, false, &tasks, LoopEvent::Key(ctrl_c())), EventRoute::ForwardToPty));
}

#[test]
fn ctrl_c_waits_for_a_running_sync() {
    let mut tasks = TaskRunner::new();
    assert!(matches!(route_event(View::List, false, &tasks, LoopEvent::Key(ctrl_c())), EventRoute::Quit(QuitGate::Leave)));
    tasks.request(TaskKind::Sync);
    assert!(matches!(
        route_event(View::List, false, &tasks, LoopEvent::Key(ctrl_c())),
        EventRoute::Quit(QuitGate::Hold(TaskKind::Sync))
    ));
}

#[test]
fn pending_quit_ignores_keys_and_idle_loop_routes_them() {
    let tasks = TaskRunner::new();
    assert!(matches!(route_event(View::List, true, &tasks, LoopEvent::Key(plain('j'))), EventRoute::Ignore));
    match route_event(View::List, false, &tasks, LoopEvent::Key(plain('j'))) {
        EventRoute::Screen(k) => assert_eq!(k, plain('j')),
        _ => panic!("expected the screen to get the key"),
    }
}

#[test]
fn resize_resizes_the_child_only_under_the_overlay() {
    let tasks = TaskRunner::new();
    match route_event(View::Pty, false, &tasks, LoopEvent::Resize(100, 40)) {
        EventRoute::Resize { cols, rows, pty } => {
            assert_eq!((cols, rows), (100, 40));
            assert_eq!(pty, Some((84, 32)));
        }
        _ => panic!("expected a resize"),
    }
    match route_event(View::Pty, false, &tasks, LoopEvent::Resize(12, 3)) {
        EventRoute::Resize { pty, .. } => assert_eq!(pty, Some((10, 5))),
        _ => panic!("expected a resize"),
    }
    match route_event(View::List, false, &tasks, LoopEvent::Resize(100, 40)) {
        EventRoute::Resize { pty, .. } => assert_eq!(pty, None),
        _ => panic!("expected a resize"),
    }
}

#[test]
fn finished_exec_lingers_and_interactive_children_close() {
    assert_eq!(pty_tick(View::Pty, Some((PtyKind::Exec, false))), PtyTick::MarkFinished);
    assert_eq!(pty_tick(View::Pty, Some((PtyKind::LazyGit, false))), PtyTick::Close);
    assert_eq!(pty_tick(View::Pty, Some((PtyKind::Terminal, true))), PtyTick::Keep);
    assert_eq!(pty_tick(View::Pty, None), PtyTick::Close);
    assert_eq!(pty_tick(View::List, None), PtyTick::Keep);
}

#[test]
fn poll_tightens_under_the_overlay_and_during_sidebar_rebuilds() {
    let mut tasks = TaskRunner::new();
    assert_eq!(poll_millis(View::List, &tasks), 200);
    assert_eq!(poll_millis(View::Pty, &tasks), 50);
    tasks.request(TaskKind::Sidebar);
    assert_eq!(poll_millis(View::List, &tasks), 50);
}

fn key(code: KeyCode) -> KeyStroke {
    KeyStroke { code, modifiers: KeyModifiers { ctrl: false, alt: false, shift: false } }
}

#[test]
fn open_filter_bar_takes_q_as_text() {
    assert_eq!(list_key(true, false, false, plain('q')), ListKey::FilterPush('q'));
    assert_eq!(list_key(true, false, false, key(KeyCode::Esc)), ListKey::FilterCancel);
    assert_eq!(list_key(true, true, false, key(KeyCode::Esc)), ListKey::PickerCancel);
    assert_eq!(list_key(true, true, false, key(KeyCode::Enter)), ListKey::FilterKeep { then_pick: true });
    assert_eq!(list_key(true, false, false, key(KeyCode::Backspace)), ListKey::FilterPop);
}

#[test]
fn esc_on_the_list_clears_a_sticky_filter_before_quitting() {
    assert_eq!(list_key(false, false, false, key(KeyCode::Esc)), ListKey::ClearFilter);
    assert_eq!(list_key(false, false, true, key(KeyCode::Esc)), ListKey::Quit);
    assert_eq!(list_key(false, true, true, key(KeyCode::Enter)), ListKey::Pick);
    assert_eq!(list_key(false, false, true, key(KeyCode::Enter)), ListKey::CopyPath);
    assert_eq!(list_key(false, false, true, plain('j')), ListKey::Dispatch);
}
