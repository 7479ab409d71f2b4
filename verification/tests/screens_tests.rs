use gwm_tui::config_panel::SettingsTab;
use gwm_tui::detail_overlay::{DetailKind, DetailMode};
use gwm_tui::flows::{capture_target, capture_write, edit_submit_plan, CaptureWrite, ConfigFile, EditPlan};
use gwm_tui::async_task::{TaskKind, TaskRunner};
use gwm_tui::config_panel::SettingsLayer;
use gwm_tui::keymap::{Action, KeyCode, KeyModifiers, KeyStroke};
use gwm_tui::modal_keymap::ModalAction;
use gwm_tui::screens::{action_plan, blocked_status_text, screen_key, ActionPlan, LinkPick, ScreenEffect, ScreenState};
use gwm_tui::views::View;
use std::path::PathBuf;

fn st() -> ScreenState {
    ScreenState {
        config_tab: SettingsTab::Theme,
        config_capturing: false,
        config_editing: false,
        confirm_focused: false,
        busy: false,
        pty_finished: false,
        detail_mode: DetailMode::List,
        detail_kind: DetailKind::Agents,
    }
}

fn key(code: KeyCode) -> KeyStroke {
    KeyStroke { code, modifiers: KeyModifiers { ctrl: false, alt: false, shift: false } }
}

#[test]
fn confirm_activate_fires_only_on_the_focused_confirm_button() {
    let k = key(KeyCode::Enter);
    assert_eq!(screen_key(View::Confirm, st(), k, Some(ModalAction::ConfirmActivate), false), ScreenEffect::Dismiss);
    let focused = ScreenState { confirm_focused: true, ..st() };
    assert_eq!(screen_key(View::Confirm, focused, k, Some(ModalAction::ConfirmActivate), false), ScreenEffect::Fire);
    let busy = ScreenState { busy: true, ..focused };
    assert_eq!(screen_key(View::Confirm, busy, k, Some(ModalAction::ConfirmConfirm), false), ScreenEffect::Nothing);
    assert_eq!(screen_key(View::Confirm, st(), key(KeyCode::Char('D')), None, true), ScreenEffect::ToggleDeleteBranch);
}

#[test]
fn settings_all_tab_scrolls_instead_of_selecting() {
    let k = key(KeyCode::Down);
    assert_eq!(
        screen_key(View::Config, st(), k, Some(ModalAction::ConfigSelectNext), false),
        ScreenEffect::Apply(ModalAction::ConfigSelectNext)
    );
    let all = ScreenState { config_tab: SettingsTab::All, ..st() };
    assert_eq!(screen_key(View::Config, all, k, Some(ModalAction::ConfigSelectNext), false), ScreenEffect::ConfigScrollDown);
    assert_eq!(screen_key(View::Config, st(), k, Some(ModalAction::ConfigScrollTop), false), ScreenEffect::Nothing);
    assert_eq!(screen_key(View::Config, st(), k, Some(ModalAction::ConfigScrollTop), true), ScreenEffect::Close);
    let keys = ScreenState { config_tab: SettingsTab::Keys, ..st() };
    assert_eq!(screen_key(View::Config, keys, k, Some(ModalAction::ConfigActivate), false), ScreenEffect::BeginCapture);
    assert_eq!(screen_key(View::Config, st(), k, Some(ModalAction::ConfigActivate), false), ScreenEffect::ActivateSetting);
}

#[test]
fn report_close_relists_and_menu_picks_links() {
    let k = key(KeyCode::Esc);
    assert_eq!(screen_key(View::Report, st(), k, Some(ModalAction::ReportClose), false), ScreenEffect::CloseAndRefresh);
    assert_eq!(
        screen_key(View::OpenMenu, st(), k, Some(ModalAction::OpenMenuPr), false),
        ScreenEffect::OpenLink(LinkPick::Pr)
    );
    assert_eq!(screen_key(View::OpenMenu, st(), key(KeyCode::Char('F')), None, true), ScreenEffect::FetchGithub);
}

#[test]
fn pty_esc_detaches_and_finished_exec_closes_on_any_key() {
    assert_eq!(screen_key(View::Pty, st(), key(KeyCode::Esc), None, false), ScreenEffect::ClosePty);
    assert_eq!(screen_key(View::Pty, st(), key(KeyCode::Char('q')), None, false), ScreenEffect::Forward);
    let done = ScreenState { pty_finished: true, ..st() };
    assert_eq!(screen_key(View::Pty, done, key(KeyCode::Char('q')), None, false), ScreenEffect::ClosePty);
}

#[test]
fn stale_workspace_blocks_writes_and_picker_ignores_branch_flows() {
    assert_eq!(action_plan(true, true, false, true, Action::Create), ActionPlan::Blocked);
    assert_eq!(action_plan(true, false, false, true, Action::Down), ActionPlan::Run(Action::Down));
    assert_eq!(action_plan(false, false, true, true, Action::Create), ActionPlan::Ignored);
    assert_eq!(action_plan(false, false, true, true, Action::Help), ActionPlan::Run(Action::Help));
    assert_eq!(action_plan(false, false, false, false, Action::Open), ActionPlan::NothingSelected);
    assert_eq!(blocked_status_text(), "workspace: selected repo is unavailable (moved/deleted?); press r to refresh");
}

#[test]
fn capture_goes_to_the_right_file() {
    assert!(matches!(capture_target(false, SettingsLayer::Project, None), Ok(ConfigFile::Project)));
    assert_eq!(
        capture_target(true, SettingsLayer::Project, None).err().unwrap(),
        "workspace: selected repo is unavailable — can't edit its project keymap"
    );
    match capture_target(true, SettingsLayer::Global, Some(PathBuf::from("/h/.config/gwm.toml"))) {
        Ok(ConfigFile::Global(p)) => assert_eq!(p, PathBuf::from("/h/.config/gwm.toml")),
        _ => panic!("expected the global file"),
    }
    assert_eq!(
        capture_target(false, SettingsLayer::Global, None).err().unwrap(),
        "keys: no global config path (set $XDG_CONFIG_HOME or $HOME)"
    );
    assert_eq!(capture_write(Err("bad key".into()), Ok(())), CaptureWrite::RollBack("keys: bad key".into()));
    assert_eq!(
        capture_write(Ok(()), Err("prefix clash".into())),
        CaptureWrite::RollBack("keys: rebind rejected — would break the merged config: prefix clash".into())
    );
    assert_eq!(capture_write(Ok(()), Ok(())), CaptureWrite::Keep);
}

#[test]
fn rename_submit_waits_for_running_work() {
    let mut tasks = TaskRunner::new();
    assert_eq!(edit_submit_plan(None, "b", false, &mut tasks), EditPlan::Cancel);
    assert_eq!(edit_submit_plan(Some("b"), "b", true, &mut tasks), EditPlan::NoChange);
    tasks.request(TaskKind::Sync);
    assert_eq!(edit_submit_plan(Some("a"), "b", false, &mut tasks), EditPlan::Held("finish syncing before renaming".into()));
    tasks.invalidate(TaskKind::Sync);
    assert_eq!(edit_submit_plan(Some("a"), "b", true, &mut tasks), EditPlan::Start(1));
    assert!(tasks.is_loading(TaskKind::EditWorktree));
}
