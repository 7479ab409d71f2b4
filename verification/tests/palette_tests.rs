use gwm_tui::keymap::Action;
use gwm_tui::palette::{palette_entries, PaletteState};

#[test]
fn registry_covers_every_action_variant() {
    let entries = palette_entries();
    for a in Action::all() {
        assert!(entries.iter().any(|e| e.action == a), "missing {:?}", a);
    }
}

#[test]
fn empty_buffer_lists_whole_registry_in_order() {
    let p = PaletteState::new();
    let m = p.matches();
    assert_eq!(m.len(), palette_entries().len());
    assert_eq!(m[0].name, "create");
}

#[test]
fn typing_filters_and_accept_fires_highlight() {
    let mut p = PaletteState::new();
    p.open();
    for c in "quit".chars() {
        p.push_char(c);
    }
    let m = p.matches();
    assert!(!m.is_empty());
    assert_eq!(m[0].name, "quit");
    assert_eq!(p.accept(), Some(Action::Quit));
    assert!(!p.open);
    assert_eq!(p.buffer(), "");
}

#[test]
fn no_match_keeps_palette_open() {
    let mut p = PaletteState::new();
    p.open();
    for c in "zzzzqqq".chars() {
        p.push_char(c);
    }
    assert!(p.matches().is_empty());
    assert_eq!(p.accept(), None);
    assert!(p.open);
}

#[test]
fn highlight_wraps_both_ways() {
    let mut p = PaletteState::new();
    p.cycle_highlight_up();
    assert_eq!(p.highlight(), palette_entries().len() - 1);
    p.cycle_highlight_down();
    assert_eq!(p.highlight(), 0);
}

#[test]
fn same_buffer_gives_the_same_matches() {
    let mut a = PaletteState::new();
    a.open();
    for c in "tog".chars() {
        a.push_char(c);
    }
    let mut b = PaletteState::new();
    b.open();
    for c in "tox".chars() {
        b.push_char(c);
    }
    b.pop_char();
    b.push_char('g');
    let names = |p: &PaletteState| p.matches().iter().map(|e| e.name).collect::<Vec<_>>();
    assert_eq!(a.buffer(), b.buffer());
    assert_eq!(names(&a), names(&b));
    assert!(!names(&a).is_empty());
    assert!(names(&a).len() <= palette_entries().len());
}

#[test]
fn typing_and_taking_back_restores_the_list() {
    let mut p = PaletteState::new();
    p.open();
    p.push_char('t');
    let before = p.matches().iter().map(|e| e.name).collect::<Vec<_>>();
    p.push_char('o');
    p.pop_char();
    assert_eq!(p.buffer(), "t");
    assert_eq!(p.matches().iter().map(|e| e.name).collect::<Vec<_>>(), before);
    p.pop_char();
    p.pop_char();
    assert_eq!(p.buffer(), "");
    let all: Vec<&str> = palette_entries().iter().map(|e| e.name).collect();
    assert_eq!(p.matches().iter().map(|e| e.name).collect::<Vec<_>>(), all);
}
