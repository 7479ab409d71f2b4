use gwm_tui::commits::CommitsModal;
use std::path::PathBuf;

#[test]
fn paging_through_history() {
    let mut m: CommitsModal<String> = CommitsModal::new(10);
    assert_eq!((m.limit, m.loaded, m.loading), (0, 0, false));
    let p = PathBuf::from("/repo/wt");
    m.begin(Some(&p), 10);
    assert!(m.loading);
    assert_eq!(m.path, Some(p.clone()));
    assert!(!m.can_load_more());
    m.load((0..10).map(|i| format!("c{i}")).collect());
    assert_eq!(m.loaded, 10);
    assert!(m.can_load_more());
    assert_eq!(m.next_limit(), 20);
    m.begin_more(20);
    assert!(m.loading && !m.can_load_more());
    assert_eq!(m.lines.len(), 10);
    m.load((0..15).map(|i| format!("c{i}")).collect());
    assert!(!m.can_load_more());
    m.begin(None, 45);
    assert!(!m.loading);
    assert_eq!(m.path, None);
    assert_eq!(m.next_limit(), 50);
    m.load((0..45).map(|i| format!("c{i}")).collect());
    assert!(m.can_load_more());
    m.begin_more(50);
    m.load((0..50).map(|i| format!("c{i}")).collect());
    assert!(!m.can_load_more());
    assert_eq!(m.next_limit(), 50);
}

#[test]
fn commits_scroll_is_clamped() {
    let mut m: CommitsModal<String> = CommitsModal::new(10);
    m.scroll_up();
    assert_eq!(m.scroll, 0);
    m.max_scroll = 2;
    m.scroll_down();
    m.scroll_down();
    m.scroll_down();
    assert_eq!(m.scroll, 2);
    m.scroll_to_top();
    assert_eq!(m.scroll, 0);
    m.scroll_to_bottom();
    assert_eq!(m.scroll, 2);
    m.begin(None, 10);
    assert_eq!((m.scroll, m.max_scroll), (0, 0));
}
