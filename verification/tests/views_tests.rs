use gwm_tui::commit_graph::{box_drawing_chars, build_pipe_sets, render_commits, render_pipe_set, test_row, PipeKind, SpanStyle};
use gwm_tui::config_panel::{next_choice_in, ConfigPanel, KeyCapture, KeyRow, KeyTarget, SettingField, SettingsLayer, SettingsTab};
use gwm_tui::detail_overlay::{filter_rows, filter_sessions, format_run_duration, DetailKind, DetailOverlay, DetailRow, SessionKey};
use gwm_tui::filter::{fuzzy_match_indices, FilterState};
use gwm_tui::github_fetch::{BranchLink, FetchKey, GitHubFetch, GitHubFetchState, LinkSource};
use gwm_tui::keymap::{Action, KeyCode, KeyModifiers, KeyStroke};
use gwm_tui::launch::{clipboard_candidates, launch_argv, wants_child_stdout_on_tty, HostOs};
use gwm_tui::markdown::{Emphasis, MdLine, Segment};
use gwm_tui::modal_keymap::ModalAction;
use gwm_tui::mouse::{Hit, MouseMap, PaneId, Rect, RowList, Spot};
use gwm_tui::pty::key_to_bytes;

fn row(value: &str, meta: Option<&str>) -> DetailRow {
    DetailRow {
        label: "l".to_string(),
        value: value.to_string(),
        meta: meta.map(|m| m.to_string()),
        ..Default::default()
    }
}

#[test]
fn box_chars_cover_the_corners() {
    assert_eq!(box_drawing_chars(true, true, false, false), ('│', ' '));
    assert_eq!(box_drawing_chars(false, true, true, false), ('╮', ' '));
    assert_eq!(box_drawing_chars(true, false, false, true), ('╰', '─'));
    assert_eq!(box_drawing_chars(false, false, false, false), (' ', ' '));
}

#[test]
fn linear_history_is_one_column() {
    let commits = vec![test_row("c3", &["c2"]), test_row("c2", &["c1"]), test_row("c1", &[])];
    let sets = build_pipe_sets(&commits);
    assert_eq!(sets.len(), 3);
    assert!(sets[0].iter().any(|p| p.kind == PipeKind::Starts));
    let rows = render_commits(&commits);
    for r in &rows {
        assert_eq!(r.len(), 2);
        assert_eq!(r[0].text, '○');
        assert_eq!(r[0].style, SpanStyle::Node);
    }
}

#[test]
fn merge_commit_opens_a_second_lane() {
    let commits = vec![test_row("m", &["a", "b"]), test_row("b", &["a"]), test_row("a", &[])];
    let rows = render_commits(&commits);
    assert_eq!(rows[0][0].text, '◎');
    assert_eq!(rows[0].len(), 4);
    assert_eq!(rows[0][2].text, '╮');
    assert!(build_pipe_sets(&vec![]).is_empty());
}

#[test]
fn fuzzy_filter_ranks_and_memoises() {
    let names = vec!["main".to_string(), "feature-login".to_string(), "fix-logout".to_string()];
    assert_eq!(fuzzy_match_indices("", &names), vec![0, 1, 2]);
    let hits = fuzzy_match_indices("login", &names);
    assert_eq!(hits[0], 1);
    assert!(!hits.contains(&0));
    assert!(fuzzy_match_indices("zzzz", &names).is_empty());
    let mut f = FilterState::new();
    f.open();
    for c in "log".chars() {
        f.push_char(c);
    }
    let first = f.filtered_indices(&names);
    assert!(first.contains(&1) && first.contains(&2));
    assert_eq!(f.filtered_indices(&names), first);
    assert_eq!(f.snapshot_indices(&names), first);
    f.close_keep();
    assert!(!f.active);
    assert_eq!(f.query, "log");
    f.pop_char();
    assert_eq!(f.query, "lo");
    f.close_cancel();
    assert_eq!(f.query, "");
    assert_eq!(f.filtered_indices(&names), vec![0, 1, 2]);
}

#[test]
fn detail_rows_filter_case_insensitively() {
    let rows = vec![row("Deploy session", Some("a1")), row("lint", None), row("DEPLOY two", None)];
    assert_eq!(filter_rows(&rows, "deploy"), vec![0, 2]);
    assert_eq!(filter_rows(&rows, ""), vec![0, 1, 2]);
    let s = vec![
        SessionKey { id: "ABC".to_string(), name: None, kind: "shell".to_string() },
        SessionKey { id: "x".to_string(), name: Some("Build Bot".to_string()), kind: "batch".to_string() },
    ];
    assert_eq!(filter_sessions(&s, "abc"), vec![0]);
    assert_eq!(filter_sessions(&s, "bot"), vec![1]);
    assert_eq!(filter_sessions(&s, "BATCH"), vec![1]);
    assert_eq!(filter_sessions(&s, ""), vec![0, 1]);
}

#[test]
fn detail_overlay_navigation() {
    let mut d = DetailOverlay::default();
    d.open(DetailKind::CiChecks, "checks".to_string(), vec![row("a", Some("u1")), row("b", None), row("c", None)]);
    assert!(d.kind.is_forge_linked());
    assert!(!DetailKind::Agents.is_forge_linked());
    assert_eq!(d.selected_meta(), Some("u1"));
    d.select_page_down(10);
    assert_eq!(d.selected, 2);
    d.select_next();
    assert_eq!(d.selected, 2);
    d.select_page_up(1);
    assert_eq!(d.selected, 1);
    assert_eq!(d.selected_meta(), None);
    d.set_rows(vec![row("only", None)]);
    assert_eq!(d.selected, 0);
    d.select_last();
    d.select_prev();
    assert_eq!(d.selected, 0);
}

#[test]
fn run_durations() {
    assert_eq!(format_run_duration(0), "0s");
    assert_eq!(format_run_duration(45), "45s");
    assert_eq!(format_run_duration(180), "3m");
    assert_eq!(format_run_duration(185), "3m05s");
    assert_eq!(format_run_duration(3720), "1h02m");
}

#[test]
fn github_fetch_slots() {
    let mut g: GitHubFetch<String, String> = GitHubFetch::new();
    assert_eq!(*g.issue_fetch_state(7), GitHubFetchState::Idle);
    g.mark_loading(FetchKey::Issue(7));
    assert_eq!(*g.issue_fetch_state(7), GitHubFetchState::Loading);
    assert!(!g.is_cached(FetchKey::Issue(7)));
    g.complete_issue(7, Ok("open".to_string()));
    assert!(g.is_cached(FetchKey::Issue(7)));
    assert_eq!(*g.issue_fetch_state(7), GitHubFetchState::Loaded("open".to_string()));
    g.apply_pr_result(Err("boom".to_string()));
    assert_eq!(*g.pr_fetch_state(3), GitHubFetchState::Idle);
    g.link = BranchLink { issue: None, pr: Some(3), pr_source: LinkSource::Detected };
    g.apply_pr_result(Err("boom".to_string()));
    assert_eq!(*g.pr_fetch_state(3), GitHubFetchState::Error("boom".to_string()));
    g.apply_pr_result(Ok((9, "merged".to_string())));
    assert_eq!(*g.pr_fetch_state(9), GitHubFetchState::Loaded("merged".to_string()));
    g.clear_detected_pr();
    assert_eq!(g.link.pr, None);
    g.invalidate();
    assert!(!g.is_cached(FetchKey::Pr(9)));
}

#[test]
fn settings_vocabulary() {
    assert_eq!(SettingsTab::Tui.label(), "TUI");
    assert_eq!(SettingsTab::Worktree.fields().len(), 3);
    assert!(SettingsTab::Keys.fields().is_empty());
    assert_eq!(SettingField::ConfirmCountdown.key_path(), "tui.confirm_countdown_secs");
    assert_eq!(SettingField::NoteVim.label(), "note vim mode");
    assert_eq!(SettingsLayer::Project.toggled(), SettingsLayer::Global);
    assert_eq!(next_choice_in(&["a", "b", "c"], "c"), Some("a".to_string()));
    assert_eq!(next_choice_in(&["a", "b"], "zz"), Some("a".to_string()));
    assert_eq!(SettingField::OpenMode.next_choice(&["shell", "editor", "finder"], "shell"), Some("editor".to_string()));
    assert_eq!(next_choice_in(&[], "a"), None);
    assert_eq!(KeyTarget::Global(Action::Quit).config_key(), "tui.keys.quit");
    assert_eq!(KeyTarget::Modal(ModalAction::LinkChoosePr).config_key(), "tui.keys.modal.link.choose_target.pr");
    assert!(KeyTarget::Modal(ModalAction::HelpClose).single_only());
}

#[test]
fn config_panel_edit_and_capture() {
    let mut p: ConfigPanel<(), ()> = ConfigPanel::new();
    p.next_tab();
    p.next_tab();
    assert_eq!(p.tab, SettingsTab::Tui);
    p.select_next();
    assert_eq!(p.selected_field(), Some(SettingField::DimUnfocused));
    p.begin_edit("x");
    assert_eq!(p.editing, None);
    for _ in 0..9 {
        p.select_next();
    }
    assert_eq!(p.selected_field(), Some(SettingField::ConfirmCountdown));
    p.begin_edit("1");
    assert!(p.push_edit_char('2'));
    assert!(!p.push_edit_char('x'));
    assert!(p.push_edit_char('3'));
    assert!(p.push_edit_char('4'));
    assert_eq!(p.editing.as_deref(), Some("123"));
    p.pop_edit_char();
    assert_eq!(p.take_edit(), Some("12".to_string()));
    p.prev_tab();
    p.prev_tab();
    p.prev_tab();
    assert_eq!(p.tab, SettingsTab::All);
    p.prev_tab();
    assert_eq!(p.tab, SettingsTab::Keys);
    p.key_rows.push(KeyRow {
        target: KeyTarget::Global(Action::Quit),
        scope: "global".to_string(),
        label: "quit".to_string(),
        keys: "q".to_string(),
        source: (),
    });
    p.begin_capture();
    let k = KeyStroke::new(KeyCode::Char('z'), KeyModifiers::empty());
    p.capture_push(k);
    p.capture_push(k);
    let cap = p.take_capture().unwrap();
    assert_eq!(cap, KeyCapture { row: 0, single_only: false, pending: vec![k, k] });
    assert_eq!(cap.as_config_items(), vec!["z z".to_string()]);
}

#[test]
fn launch_argv_splits_shell_style() {
    assert_eq!(launch_argv("nvim -p", false), vec!["nvim", "-p"]);
    assert_eq!(launch_argv("code 'my dir'", false), vec!["code", "my dir"]);
    assert_eq!(launch_argv("/opt/My App/run", true), vec!["/opt/My App/run"]);
    assert_eq!(launch_argv("broken 'quote", false), vec!["broken 'quote"]);
    assert_eq!(launch_argv("   ", false), vec!["   "]);
    assert!(wants_child_stdout_on_tty(false));
    assert!(!wants_child_stdout_on_tty(true));
    assert_eq!(clipboard_candidates(HostOs::MacOs)[0].0, "pbcopy");
    let linux = clipboard_candidates(HostOs::Other);
    assert_eq!(linux[1], ("xclip", vec!["-selection", "clipboard"]));
}

#[test]
fn mouse_topmost_zone_wins() {
    let mut m: MouseMap<u8> = MouseMap::new();
    assert!(m.is_empty());
    let full = Rect { x: 0, y: 0, width: 80, height: 24 };
    m.push_pane(full, PaneId::Worktrees);
    m.push_rows(Rect { x: 0, y: 2, width: 40, height: 5 }, RowList::Worktrees, 10, 12);
    m.push_spot(Rect { x: 70, y: 0, width: 5, height: 1 }, Spot::Settings);
    assert_eq!(m.hit(1, 3), Some(Hit::Row { list: RowList::Worktrees, index: 11 }));
    assert_eq!(m.hit(1, 5), None);
    assert_eq!(m.hit(50, 10), Some(Hit::Pane(PaneId::Worktrees)));
    assert_eq!(m.hit(71, 0), Some(Hit::Spot(Spot::Settings)));
    m.push_mapped_rows(Rect { x: 0, y: 20, width: 10, height: 3 }, RowList::Detail, 0, 5, vec![None, Some(4)]);
    assert_eq!(m.hit(0, 20), None);
    assert_eq!(m.hit(0, 21), Some(Hit::Row { list: RowList::Detail, index: 4 }));
    assert_eq!(m.hit(0, 22), None);
    assert_eq!(m.hit(200, 200), None);
    m.clear();
    assert!(m.is_empty());
}

#[test]
fn keys_to_pty_bytes() {
    let k = |code: KeyCode, ctrl: bool, alt: bool| KeyStroke::new(code, KeyModifiers { ctrl, alt, shift: false });
    assert_eq!(key_to_bytes(k(KeyCode::Char('a'), false, false)), vec![b'a']);
    assert_eq!(key_to_bytes(k(KeyCode::Char('C'), true, false)), vec![3]);
    assert_eq!(key_to_bytes(k(KeyCode::Char('1'), true, false)), Vec::<u8>::new());
    assert_eq!(key_to_bytes(k(KeyCode::Char('x'), false, true)), vec![27, b'x']);
    assert_eq!(key_to_bytes(k(KeyCode::Char('é'), false, false)), "é".as_bytes().to_vec());
    assert_eq!(key_to_bytes(k(KeyCode::Char('€'), false, false)), "€".as_bytes().to_vec());
    assert_eq!(key_to_bytes(k(KeyCode::Char('😀'), false, false)), "😀".as_bytes().to_vec());
    assert_eq!(key_to_bytes(k(KeyCode::Up, false, false)), vec![27, b'[', b'A']);
    assert_eq!(key_to_bytes(k(KeyCode::F(5), false, false)), vec![27, b'[', b'1', b'5', b'~']);
    assert_eq!(key_to_bytes(k(KeyCode::F(1), false, false)), vec![27, b'O', b'P']);
    assert_eq!(key_to_bytes(k(KeyCode::Enter, false, false)), vec![b'\r']);
    assert_eq!(key_to_bytes(k(KeyCode::Other, false, false)), Vec::<u8>::new());
}

#[test]
fn md_line_plain_joins_segments() {
    let l = MdLine {
        segments: vec![Segment::new("• ".to_string(), Emphasis::Marker), Segment::chip(" open ".to_string(), Emphasis::Success)],
        preformatted: false,
    };
    assert_eq!(l.plain(), "•  open ");
    assert!(l.segments[1].chip && !l.segments[0].chip);
}

#[test]
fn merge_lanes_take_fresh_columns() {
    let commits = vec![test_row("m", &["a", "b"]), test_row("a", &["c"]), test_row("b", &["c"]), test_row("c", &[])];
    let r = build_pipe_sets(&commits);
    let rows: Vec<Vec<(i16, i16, String, String, PipeKind)>> = r
        .iter()
        .map(|row| row.iter().map(|p| (p.from_pos, p.to_pos, p.from_hash.clone(), p.to_hash.clone(), p.kind)).collect())
        .collect();
    let t = |a: i16, b: i16, f: &str, to: &str, k: PipeKind| (a, b, f.to_string(), to.to_string(), k);
    let s0 = "__GWM_GRAPH_START__";
    let (C, S, T) = (PipeKind::Continues, PipeKind::Starts, PipeKind::Terminates);
    assert_eq!(rows.len(), 4);
    assert_eq!(rows[0], vec![t(0, 0, s0, "m", T), t(0, 0, "m", "a", S), t(0, 1, "m", "b", S)]);
    assert_eq!(rows[1], vec![t(0, 0, "m", "a", T), t(0, 0, "a", "c", S), t(1, 1, "m", "b", C)]);
    assert_eq!(rows[2], vec![t(0, 0, "a", "c", C), t(1, 1, "m", "b", T), t(1, 1, "b", "c", S)]);
    assert_eq!(rows[3], vec![t(0, 0, "a", "c", T), t(1, 0, "b", "c", T), t(0, 0, "c", "", S)]);
}

#[test]
fn commit_node_sits_in_the_commit_column() {
    let commits = vec![test_row("m", &["a", "b"]), test_row("a", &["c"]), test_row("b", &["c"]), test_row("c", &[])];
    let rows = build_pipe_sets(&commits);
    let merge = render_pipe_set(&rows[0]);
    assert_eq!(merge[0].text, '◎');
    assert_eq!(merge[0].style, SpanStyle::Node);
    let a = render_pipe_set(&rows[1]);
    assert_eq!(a[0].text, '○');
    let b = render_pipe_set(&rows[2]);
    assert_eq!(b[2].text, '○');
    assert_eq!(b[2].style, SpanStyle::Node);
    assert_eq!(b[0].style, SpanStyle::Connector);
}

#[test]
fn each_commit_starts_one_pipe_per_parent_from_its_column() {
    let commits = vec![test_row("m", &["a", "b"]), test_row("a", &["c"]), test_row("b", &["c"]), test_row("c", &[])];
    let rows = build_pipe_sets(&commits);
    let starts = |i: usize| rows[i].iter().filter(|p| p.kind == PipeKind::Starts).collect::<Vec<_>>();
    assert_eq!(starts(0).len(), 2);
    assert!(starts(0).iter().all(|p| p.from_pos == 0));
    assert_eq!(starts(2).len(), 1);
    assert_eq!(starts(2)[0].from_pos, 1);
    assert_eq!(starts(3).len(), 1);
    assert!(rows[3].iter().filter(|p| p.kind == PipeKind::Terminates).all(|p| p.to_pos == 0));
    // equal pipes keep the order they were laid out in
    let last: Vec<(String, PipeKind)> = rows[3].iter().map(|p| (p.from_hash.clone(), p.kind)).collect();
    assert_eq!(
        last,
        vec![("a".to_string(), PipeKind::Terminates), ("b".to_string(), PipeKind::Terminates), ("c".to_string(), PipeKind::Starts)]
    );
}

#[test]
fn rendered_rows_have_two_spans_per_column_and_plain_gaps() {
    let commits = vec![test_row("m", &["a", "b"]), test_row("a", &["c"]), test_row("b", &["c"]), test_row("c", &[])];
    for row in build_pipe_sets(&commits) {
        let spans = render_pipe_set(&row);
        let m = row.iter().map(|p| p.from_pos.max(p.to_pos)).max().unwrap_or(0).max(0) as usize;
        assert_eq!(spans.len(), 2 * (m + 1));
        for (i, s) in spans.iter().enumerate() {
            if i % 2 == 1 {
                assert!(s.text == '─' || s.text == ' ');
                assert_eq!(s.style, SpanStyle::Connector);
            }
        }
    }
}
