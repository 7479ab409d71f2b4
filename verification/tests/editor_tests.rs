use gwm_tui::note_editor::{NoteEditor, NoteMode};
use std::path::PathBuf;

fn ed(text: &str) -> NoteEditor {
    NoteEditor::open("feat".to_string(), PathBuf::from("/n.md"), text)
}

#[test]
fn open_lands_at_the_end_and_text_round_trips() {
    let e = ed("one\ntwo\n");
    assert_eq!(e.lines, vec!["one", "two", ""]);
    assert_eq!((e.cursor_line, e.cursor_col), (2, 0));
    assert_eq!(e.text(), "one\ntwo\n");
    assert_eq!(ed("").text(), "");
    assert_eq!(ed("   \n").text(), "");
    assert_eq!(ed("a\n\n\n").text(), "a\n");
}

#[test]
fn typing_and_backspace() {
    let mut e = ed("ab");
    e.left();
    e.insert_char('x');
    assert_eq!(e.lines[0], "axb");
    assert!(e.dirty);
    e.backspace();
    assert_eq!(e.lines[0], "ab");
    e.home();
    e.backspace();
    assert_eq!(e.lines, vec!["ab"]);
}

#[test]
fn enter_continues_and_ends_lists() {
    let mut e = ed("- [x] done");
    e.newline();
    assert_eq!(e.lines, vec!["- [x] done", "- [ ] "]);
    assert_eq!(e.cursor_col, 6);
    e.newline();
    assert_eq!(e.lines, vec!["- [x] done", ""]);
    let mut p = ed("  - item");
    p.newline();
    assert_eq!(p.lines[1], "  - ");
}

#[test]
fn toggles() {
    let mut e = ed("task");
    e.toggle_bullet();
    assert_eq!(e.lines[0], "- task");
    e.toggle_checkbox();
    assert_eq!(e.lines[0], "- [ ] task");
    e.toggle_checkbox();
    assert_eq!(e.lines[0], "- [x] task");
    e.toggle_bullet();
    assert_eq!(e.lines[0], "task");
}

#[test]
fn delete_joins_lines() {
    let mut e = ed("a\nb");
    e.up();
    e.end();
    e.delete();
    assert_eq!(e.lines, vec!["ab"]);
}

#[test]
fn arrows_cross_lines() {
    let mut e = ed("ab\ncd");
    e.home();
    e.left();
    assert_eq!((e.cursor_line, e.cursor_col), (0, 2));
    e.right();
    assert_eq!((e.cursor_line, e.cursor_col), (1, 0));
    e.page_up(10);
    assert_eq!(e.cursor_line, 0);
    e.page_down(10);
    assert_eq!(e.cursor_line, 1);
}

#[test]
fn normal_mode_verbs() {
    let mut e = ed("foo bar-baz\nsecond");
    e.enter_normal();
    assert_eq!(e.mode, NoteMode::Normal);
    e.normal_key('g');
    e.normal_key('g');
    e.normal_key('0');
    assert_eq!((e.cursor_line, e.cursor_col), (0, 0));
    e.normal_key('w');
    assert_eq!(e.cursor_col, 4);
    e.normal_key('w');
    assert_eq!(e.cursor_col, 7);
    e.normal_key('W');
    assert_eq!((e.cursor_line, e.cursor_col), (1, 0));
    e.normal_key('b');
    assert_eq!((e.cursor_line, e.cursor_col), (0, 8));
    e.normal_key('e');
    assert_eq!(e.cursor_col, 10);
    e.normal_key('$');
    assert_eq!(e.cursor_col, 10);
    e.normal_key('x');
    assert_eq!(e.lines[0], "foo bar-ba");
    e.normal_key('d');
    e.normal_key('d');
    assert_eq!(e.lines, vec!["second"]);
    e.normal_key('A');
    assert_eq!((e.mode, e.cursor_col), (NoteMode::Insert, 6));
}

#[test]
fn normal_mode_open_line_carries_marker() {
    let mut e = ed("- a");
    e.enter_normal();
    e.normal_key('o');
    assert_eq!(e.lines, vec!["- a", "- "]);
    assert_eq!(e.mode, NoteMode::Insert);
}

#[test]
fn clamp_scroll_follows_cursor() {
    let mut e = ed("1\n2\n3\n4\n5");
    e.clamp_scroll(2);
    assert_eq!(e.scroll, 3);
    e.page_up(4);
    e.clamp_scroll(2);
    assert_eq!(e.scroll, 0);
}

#[test]
fn toggling_a_bullet_twice_restores_the_line() {
    let mut e = ed("  buy milk");
    assert_eq!((e.cursor_line, e.cursor_col), (0, 10));
    e.toggle_bullet();
    assert_eq!(e.lines[0], "  - buy milk");
    assert_eq!(e.cursor_col, 12);
    e.toggle_bullet();
    assert_eq!(e.lines[0], "  buy milk");
    assert_eq!(e.cursor_col, 10);
}

#[test]
fn normal_keys_keep_the_caret_on_the_line() {
    let mut e = ed("ab\n\nlonger line");
    e.enter_normal();
    for k in ['g', 'g', '$', 'j', 'l', 'l', 'k', 'A'] {
        e.normal_key(k);
        let len = e.lines[e.cursor_line].chars().count();
        assert!(e.cursor_col <= len, "{k}: col {} past {len}", e.cursor_col);
    }
    assert_eq!((e.cursor_line, e.cursor_col), (0, 2));
}
