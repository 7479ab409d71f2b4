use gwm_tui::async_task::{quit_gate, QuitGate, TaskKind, TaskRunner};
use gwm_tui::clean_overlay::{CleanOverlay, WorktreeReclaim};
use gwm_tui::command_logs::CommandLogs;
use gwm_tui::confirm::{ConfirmKeyAction, ConfirmModal, CountdownTickOutcome};
use gwm_tui::create_form::{fields_for, CreateForm, Field, Mode};
use gwm_tui::exec_picker::ExecPicker;
use gwm_tui::help::HelpOverlay;
use gwm_tui::link_prompt::{LinkPrompt, LinkPromptStage, LinkTarget};
use std::path::PathBuf;

const SEC: u64 = 1_000_000_000;

#[test]
fn task_runner_coalesces_and_drops_late_results() {
    let mut r = TaskRunner::new();
    let g1 = r.request(TaskKind::Sync).unwrap();
    assert_eq!(g1, 1);
    assert_eq!(r.request(TaskKind::Sync), None);
    assert!(r.is_loading(TaskKind::Sync));
    assert!(r.has_mutating_task_in_flight());
    r.invalidate(TaskKind::Sync);
    assert!(!r.complete(TaskKind::Sync, g1));
    let g2 = r.request(TaskKind::Sync).unwrap();
    assert_eq!(g2, 3);
    assert!(r.complete(TaskKind::Sync, g2));
    assert!(!r.is_any_loading());
    assert!(!r.complete(TaskKind::Sync, g2));
}

#[test]
fn task_runner_slots_are_independent_and_labelled() {
    let mut r = TaskRunner::new();
    r.request(TaskKind::GithubIssue(1)).unwrap();
    r.request(TaskKind::GithubIssue(2)).unwrap();
    assert!(r.is_loading(TaskKind::GithubIssue(2)));
    assert_eq!(r.loading_label(), Some("fetching GitHub status…"));
    assert_eq!(r.mutating_loading_label(), None);
    r.invalidate_matching(|k| k.is_github());
    assert!(!r.is_any_loading());
    assert_eq!(TaskKind::CreateWorktree.loading_label(), "creating worktree…");
    assert!(TaskKind::Push.is_mutating());
    assert!(!TaskKind::Sidebar.is_mutating());
}

#[test]
fn help_scroll_is_clamped() {
    let mut h = HelpOverlay::new();
    h.max_scroll = 2;
    h.scroll_down();
    h.scroll_down();
    h.scroll_down();
    assert_eq!(h.scroll, 2);
    h.scroll_up();
    assert_eq!(h.scroll, 1);
    h.scroll_left();
    assert_eq!(h.x_scroll, 0);
    h.rewind();
    assert_eq!(h.scroll, 0);
}

#[test]
fn confirm_countdown_arms_disarms_and_fires() {
    let mut m = ConfirmModal::new();
    assert_eq!(m.press_y(0, 0), ConfirmKeyAction::FireNow);
    assert_eq!(m.press_y(10, 3 * SEC), ConfirmKeyAction::Armed);
    assert_eq!(m.press_y(11, 3 * SEC), ConfirmKeyAction::Disarmed);
    assert_eq!(m.tick(12, 3 * SEC), CountdownTickOutcome::NotArmed);
    m.press_y(0, 3 * SEC);
    assert_eq!(m.remaining_secs(SEC / 2, 3 * SEC), 3);
    assert_eq!(m.remaining_secs(SEC, 3 * SEC), 2);
    assert_eq!(m.tick(2 * SEC, 3 * SEC), CountdownTickOutcome::Pending);
    assert_eq!(m.tick(3 * SEC, 3 * SEC), CountdownTickOutcome::ReadyToFire);
    assert_eq!(m.started_at, None);
    assert_eq!(m.remaining_secs(4 * SEC, 3 * SEC), 0);
}

#[test]
fn clean_overlay_choices_and_selection() {
    let mut o = CleanOverlay::new();
    o.open(vec!["deep".to_string(), "light".to_string()], "feat".to_string(), PathBuf::from("/tmp/wt"));
    assert_eq!(o.choice_labels(), vec!["(default)", "deep", "light"]);
    assert!(o.has_profiles());
    assert_eq!(o.selected_profile(), None);
    assert!(o.select_next());
    assert_eq!(o.selected_profile(), Some("deep"));
    assert!(o.select_prev());
    assert!(o.select_prev());
    assert_eq!(o.selected_index(), 2);
    assert!(!o.select_index(2));
    assert!(!o.select_index(9));
    assert_eq!(o.target().map(|(n, _)| n), Some("feat"));
    assert!(o.is_empty_scan());
    o.set_scan(WorktreeReclaim { total_bytes: 42 }, vec!["x".to_string()]);
    assert_eq!(o.total_bytes(), 42);
    assert!(!o.is_empty_scan());
    assert_eq!(o.skipped().len(), 1);
}

#[test]
fn exec_picker_wraps() {
    let mut p = ExecPicker::new();
    assert!(p.is_empty());
    p.next();
    assert_eq!(p.selected_index(), 0);
    p.open(vec!["a".to_string(), "b".to_string(), "c".to_string()], PathBuf::from("/w"));
    p.prev();
    assert_eq!(p.selected_profile(), Some("c"));
    p.next();
    assert_eq!(p.selected_index(), 0);
    p.select_index(7);
    assert_eq!(p.selected_index(), 0);
    p.select_index(1);
    assert_eq!(p.selected_profile(), Some("b"));
    assert_eq!(p.cwd(), Some(&PathBuf::from("/w")));
}

#[test]
fn link_prompt_stages() {
    let mut p = LinkPrompt::new();
    p.push_char('1');
    assert_eq!(p.number, "");
    p.toggle_target();
    assert_eq!(p.target, Some(LinkTarget::Issue));
    p.toggle_target();
    assert_eq!(p.target, Some(LinkTarget::Pr));
    p.commit_target(LinkTarget::Pr);
    assert_eq!(p.stage, LinkPromptStage::InputNumber);
    p.toggle_target();
    assert_eq!(p.target, Some(LinkTarget::Pr));
    for c in "4x2".chars() {
        p.push_char(c);
    }
    assert_eq!(p.number, "42");
    p.pop_char();
    assert_eq!(p.number, "4");
    p.reset();
    assert_eq!(p.stage, LinkPromptStage::ChooseTarget);
    assert_eq!(p.target, None);
}

#[test]
fn command_logs_scroll() {
    let mut l: CommandLogs<String> = CommandLogs::new();
    l.sync(vec!["git fetch".to_string()]);
    assert_eq!(l.entries.len(), 1);
    l.max_scroll = 1;
    l.scroll_down();
    l.scroll_down();
    assert_eq!(l.scroll, 1);
    l.scroll_to_top();
    assert_eq!(l.scroll, 0);
    l.scroll_to_bottom();
    l.max_x_scroll = 3;
    l.scroll_right();
    l.reset();
    assert_eq!((l.scroll, l.x_scroll), (0, 0));
}

#[test]
fn create_form_fields_and_limits() {
    let mut f = CreateForm::new();
    assert_eq!(f.fields(), &[Field::Type, Field::Issue, Field::Desc]);
    assert_eq!(f.entry_field(), Field::Issue);
    assert_eq!(f.last_field(), Field::Desc);
    f.next_field();
    assert_eq!(f.field, Field::Issue);
    f.prev_field();
    f.prev_field();
    assert_eq!(f.field, Field::Desc);
    f.next_field();
    f.next_field();
    for c in "12a345678".chars() {
        f.push_char(c);
    }
    assert_eq!(f.issue, "1234567");
    f.pop_char();
    assert_eq!(f.issue, "123456");
    f.toggle_mode();
    assert_eq!((f.mode, f.field), (Mode::Freeform, Field::Name));
    f.push_char('é');
    assert_eq!(f.name, "é");
    f.toggle_mode();
    assert_eq!(f.field, Field::Issue);
    f.next_type(3);
    f.next_type(3);
    f.next_type(3);
    assert_eq!(f.type_index, 0);
    f.prev_type(3);
    assert_eq!(f.type_index, 2);
    f.reset();
    assert_eq!((f.issue.as_str(), f.name.as_str(), f.field), ("", "", Field::Type));
}

#[test]
fn create_form_name_limit_is_in_bytes() {
    let mut f = CreateForm::new();
    f.toggle_mode();
    for _ in 0..127 {
        f.push_char('é');
    }
    assert_eq!(f.name.len(), 254);
    f.push_char('é');
    assert_eq!(f.name.len(), 254);
    f.push_char('a');
    assert_eq!(f.name.len(), 255);
}

#[test]
fn create_form_set_fields_moves_focus() {
    let mut f = CreateForm::new();
    f.next_field();
    f.set_fields(vec![Field::Desc]);
    assert_eq!(f.field, Field::Desc);
    assert_eq!(fields_for(&["type".to_string(), "user".to_string(), "desc".to_string()]), vec![Field::Type, Field::Desc]);
}

#[test]
fn quit_waits_for_mutating_tasks() {
    let mut r = TaskRunner::new();
    assert_eq!(quit_gate(false, &r), QuitGate::Stay);
    assert_eq!(quit_gate(true, &r), QuitGate::Leave);
    r.request(TaskKind::RefreshWorktrees);
    assert_eq!(quit_gate(true, &r), QuitGate::Leave);
    r.request(TaskKind::Push);
    r.request(TaskKind::Sync);
    assert_eq!(quit_gate(true, &r), QuitGate::Hold(TaskKind::Sync));
    assert_eq!(quit_gate(false, &r), QuitGate::Stay);
}
