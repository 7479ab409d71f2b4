//! What a key does on each overlay screen, once the modal keymap has
//! resolved it: back to the list, a verb for the overlay's own state, or
//! one of the decisions the screens take (fire or dismiss a confirmation,
//! scroll instead of select on the read-only settings tab, which link to
//! open, ...). The event loop performs the effect.

use vstd::prelude::*;
use crate::config_panel::SettingsTab;
use crate::detail_overlay::{DetailKind, DetailMode};
use crate::keymap::{Action, KeyCode, KeyStroke};
use crate::modal_keymap::ModalAction;
use crate::views::View as Screen;

verus! {

/// What the screens' decisions read besides the key.
#[derive(Debug, Clone, Copy, PartialEq, Eq, Structural)]
pub struct ScreenState {
    /// The settings panel's tab.
    pub config_tab: SettingsTab,
    /// A live keystroke capture on the settings Keys tab.
    pub config_capturing: bool,
    /// A numeric or text edit open on the settings panel.
    pub config_editing: bool,
    /// The confirmation's focused button is Confirm (else Cancel).
    pub confirm_focused: bool,
    /// The screen's own mutation (create, rename, delete or merge) is in
    /// flight, so its modal is locked.
    pub busy: bool,
    /// The PTY overlay's one-shot command has finished.
    pub pty_finished: bool,
    pub detail_mode: DetailMode,
    pub detail_kind: DetailKind,
}

/// Which link the open menu opens.
#[derive(Debug, Clone, Copy, PartialEq, Eq, Structural)]
pub enum LinkPick {
    /// The highlighted one.
    Selected,
    Issue,
    Pr,
}

/// What a key does on an overlay screen.
#[derive(Debug, Clone, Copy, PartialEq, Eq, Structural)]
pub enum ScreenEffect {
    /// Nothing.
    Nothing,
    /// Close the overlay, back to the worktree list.
    Close,
    /// Close the report, back to the list, and re-list the worktrees.
    CloseAndRefresh,
    /// Perform the verb on the open overlay's own state.
    Apply(ModalAction),
    /// The screen's own key handler takes the key (forms, prompts, the
    /// palette's input, the settings capture and edit buffers).
    Handler,
    /// Settings, read-only All tab: scroll instead of selecting.
    ConfigScrollDown,
    ConfigScrollUp,
    /// Settings Keys tab: arm a live keystroke capture.
    BeginCapture,
    /// Other settings tabs: cycle the choice or open the edit buffer.
    ActivateSetting,
    /// Run the confirmed action.
    Fire,
    /// Dismiss the confirmation.
    Dismiss,
    /// Flip the delete-branch checkbox of the confirmation.
    ToggleDeleteBranch,
    /// Open a link from the open menu.
    OpenLink(LinkPick),
    /// Refresh the GitHub status in place.
    FetchGithub,
    /// Close the PTY overlay (its child is killed when still running).
    ClosePty,
    /// Send the key to the PTY child.
    Forward,
}

/// `opener` says the key is bound to the global action of the screen's
/// own toggle (the Command Logs or settings key, which toggles the overlay
/// shut; the delete-branch key on the confirmation; the GitHub fetch key
/// on the open menu); it applies to keys no verb of the screen takes.
pub open spec fn screen_key_spec(view: Screen, st: ScreenState, k: KeyStroke, m: Option<ModalAction>, opener: bool) -> ScreenEffect {
    match view {
        Screen::Help => match m {
            Some(ModalAction::HelpClose) => ScreenEffect::Close,
            Some(ModalAction::HelpScrollDown) => ScreenEffect::Apply(ModalAction::HelpScrollDown),
            Some(ModalAction::HelpScrollUp) => ScreenEffect::Apply(ModalAction::HelpScrollUp),
            Some(ModalAction::HelpScrollRight) => ScreenEffect::Apply(ModalAction::HelpScrollRight),
            Some(ModalAction::HelpScrollLeft) => ScreenEffect::Apply(ModalAction::HelpScrollLeft),
            Some(ModalAction::HelpScrollTop) => ScreenEffect::Apply(ModalAction::HelpScrollTop),
            Some(ModalAction::HelpScrollBottom) => ScreenEffect::Apply(ModalAction::HelpScrollBottom),
            _ => ScreenEffect::Nothing,
        },
        Screen::CommandLogs => match m {
            Some(ModalAction::CommandLogsClose) => ScreenEffect::Close,
            Some(ModalAction::CommandLogsCopy) => ScreenEffect::Apply(ModalAction::CommandLogsCopy),
            Some(ModalAction::CommandLogsScrollDown) => ScreenEffect::Apply(ModalAction::CommandLogsScrollDown),
            Some(ModalAction::CommandLogsScrollUp) => ScreenEffect::Apply(ModalAction::CommandLogsScrollUp),
            Some(ModalAction::CommandLogsScrollRight) => ScreenEffect::Apply(ModalAction::CommandLogsScrollRight),
            Some(ModalAction::CommandLogsScrollLeft) => ScreenEffect::Apply(ModalAction::CommandLogsScrollLeft),
            Some(ModalAction::CommandLogsScrollTop) => ScreenEffect::Apply(ModalAction::CommandLogsScrollTop),
            Some(ModalAction::CommandLogsScrollBottom) => ScreenEffect::Apply(ModalAction::CommandLogsScrollBottom),
            _ => if opener { ScreenEffect::Close } else { ScreenEffect::Nothing },
        },
        Screen::Config => if st.config_capturing || st.config_editing {
            ScreenEffect::Handler
        } else {
            let on_all = st.config_tab == SettingsTab::All;
            match m {
                Some(ModalAction::ConfigClose) => ScreenEffect::Close,
                Some(ModalAction::ConfigNextTab) => ScreenEffect::Apply(ModalAction::ConfigNextTab),
                Some(ModalAction::ConfigPrevTab) => ScreenEffect::Apply(ModalAction::ConfigPrevTab),
                Some(ModalAction::ConfigToggleLayer) => ScreenEffect::Apply(ModalAction::ConfigToggleLayer),
                Some(ModalAction::ConfigActivate) => if st.config_tab == SettingsTab::Keys {
                    ScreenEffect::BeginCapture
                } else {
                    ScreenEffect::ActivateSetting
                },
                Some(ModalAction::ConfigSelectNext) => if on_all {
                    ScreenEffect::ConfigScrollDown
                } else {
                    ScreenEffect::Apply(ModalAction::ConfigSelectNext)
                },
                Some(ModalAction::ConfigSelectPrev) => if on_all {
                    ScreenEffect::ConfigScrollUp
                } else {
                    ScreenEffect::Apply(ModalAction::ConfigSelectPrev)
                },
                Some(ModalAction::ConfigScrollRight) if on_all => ScreenEffect::Apply(ModalAction::ConfigScrollRight),
                Some(ModalAction::ConfigScrollLeft) if on_all => ScreenEffect::Apply(ModalAction::ConfigScrollLeft),
                Some(ModalAction::ConfigScrollTop) if on_all => ScreenEffect::Apply(ModalAction::ConfigScrollTop),
                Some(ModalAction::ConfigScrollBottom) if on_all => ScreenEffect::Apply(ModalAction::ConfigScrollBottom),
                _ => if opener { ScreenEffect::Close } else { ScreenEffect::Nothing },
            }
        },
        Screen::Create | Screen::Edit => if st.busy { ScreenEffect::Nothing } else { ScreenEffect::Handler },
        Screen::Confirm => if st.busy {
            ScreenEffect::Nothing
        } else {
            match m {
                Some(ModalAction::ConfirmConfirm) => ScreenEffect::Fire,
                Some(ModalAction::ConfirmActivate) => if st.confirm_focused {
                    ScreenEffect::Fire
                } else {
                    ScreenEffect::Dismiss
                },
                Some(ModalAction::ConfirmCancel) => ScreenEffect::Dismiss,
                Some(ModalAction::ConfirmFocusConfirm) => ScreenEffect::Apply(ModalAction::ConfirmFocusConfirm),
                Some(ModalAction::ConfirmFocusCancel) => ScreenEffect::Apply(ModalAction::ConfirmFocusCancel),
                Some(ModalAction::ConfirmToggleFocus) => ScreenEffect::Apply(ModalAction::ConfirmToggleFocus),
                _ => if opener { ScreenEffect::ToggleDeleteBranch } else { ScreenEffect::Nothing },
            }
        },
        Screen::Report => match m {
            Some(ModalAction::ReportClose) => ScreenEffect::CloseAndRefresh,
            _ => ScreenEffect::Nothing,
        },
        Screen::OpenMenu => match m {
            Some(ModalAction::OpenMenuClose) => ScreenEffect::Close,
            Some(ModalAction::OpenMenuToggle) => ScreenEffect::Apply(ModalAction::OpenMenuToggle),
            Some(ModalAction::OpenMenuAccept) => ScreenEffect::OpenLink(LinkPick::Selected),
            Some(ModalAction::OpenMenuIssue) => ScreenEffect::OpenLink(LinkPick::Issue),
            Some(ModalAction::OpenMenuPr) => ScreenEffect::OpenLink(LinkPick::Pr),
            _ => if opener { ScreenEffect::FetchGithub } else { ScreenEffect::Nothing },
        },
        Screen::Pty => if k.code == KeyCode::Esc || st.pty_finished {
            ScreenEffect::ClosePty
        } else {
            ScreenEffect::Forward
        },
        Screen::DetailOverlay => if st.detail_mode == DetailMode::Input {
            ScreenEffect::Handler
        } else if st.detail_kind == DetailKind::CiChecks {
            match m {
                Some(ModalAction::CiChecksClose) => ScreenEffect::Close,
                Some(ModalAction::CiChecksNext) => ScreenEffect::Apply(ModalAction::CiChecksNext),
                Some(ModalAction::CiChecksPrev) => ScreenEffect::Apply(ModalAction::CiChecksPrev),
                Some(ModalAction::CiChecksOpen) => ScreenEffect::Apply(ModalAction::CiChecksOpen),
                Some(ModalAction::CiChecksFilter) => ScreenEffect::Apply(ModalAction::CiChecksFilter),
                Some(ModalAction::CiChecksRefresh) => ScreenEffect::Apply(ModalAction::CiChecksRefresh),
                _ => ScreenEffect::Nothing,
            }
        } else if st.detail_kind == DetailKind::Agents {
            match m {
                Some(ModalAction::DetailClose) => ScreenEffect::Close,
                Some(ModalAction::DetailSelectNext) => ScreenEffect::Apply(ModalAction::DetailSelectNext),
                Some(ModalAction::DetailSelectPrev) => ScreenEffect::Apply(ModalAction::DetailSelectPrev),
                Some(ModalAction::DetailAttach) => ScreenEffect::Apply(ModalAction::DetailAttach),
                Some(ModalAction::DetailDetach) => ScreenEffect::Apply(ModalAction::DetailDetach),
                Some(ModalAction::DetailInput) => ScreenEffect::Apply(ModalAction::DetailInput),
                _ => ScreenEffect::Nothing,
            }
        } else {
            // The rich issue and PR views resolve their keys in a context
            // of their own.
            ScreenEffect::Handler
        },
        Screen::CleanReport => match m {
            Some(ModalAction::CleanCancel) => ScreenEffect::Close,
            Some(ModalAction::CleanConfirm) => ScreenEffect::Apply(ModalAction::CleanConfirm),
            Some(ModalAction::CleanNext) => ScreenEffect::Apply(ModalAction::CleanNext),
            Some(ModalAction::CleanPrev) => ScreenEffect::Apply(ModalAction::CleanPrev),
            _ => ScreenEffect::Nothing,
        },
        Screen::LinkPrompt | Screen::ExecPicker | Screen::CommandPalette => ScreenEffect::Handler,
        // The list's keys go through `event_loop::list_key`.
        Screen::List => ScreenEffect::Nothing,
    }
}

/// The effect of key `k` on screen `view`, `m` being the modal keymap's
/// resolution of `k` in the screen's context.
pub fn screen_key(view: Screen, st: ScreenState, k: KeyStroke, m: Option<ModalAction>, opener: bool) -> (r: ScreenEffect)
    ensures
        r == screen_key_spec(view, st, k, m, opener),
{
    match view {
        Screen::Help => match m {
            Some(ModalAction::HelpClose) => ScreenEffect::Close,
            Some(ModalAction::HelpScrollDown) => ScreenEffect::Apply(ModalAction::HelpScrollDown),
            Some(ModalAction::HelpScrollUp) => ScreenEffect::Apply(ModalAction::HelpScrollUp),
            Some(ModalAction::HelpScrollRight) => ScreenEffect::Apply(ModalAction::HelpScrollRight),
            Some(ModalAction::HelpScrollLeft) => ScreenEffect::Apply(ModalAction::HelpScrollLeft),
            Some(ModalAction::HelpScrollTop) => ScreenEffect::Apply(ModalAction::HelpScrollTop),
            Some(ModalAction::HelpScrollBottom) => ScreenEffect::Apply(ModalAction::HelpScrollBottom),
            _ => ScreenEffect::Nothing,
        },
        Screen::CommandLogs => match m {
            Some(ModalAction::CommandLogsClose) => ScreenEffect::Close,
            Some(ModalAction::CommandLogsCopy) => ScreenEffect::Apply(ModalAction::CommandLogsCopy),
            Some(ModalAction::CommandLogsScrollDown) => ScreenEffect::Apply(ModalAction::CommandLogsScrollDown),
            Some(ModalAction::CommandLogsScrollUp) => ScreenEffect::Apply(ModalAction::CommandLogsScrollUp),
            Some(ModalAction::CommandLogsScrollRight) => ScreenEffect::Apply(ModalAction::CommandLogsScrollRight),
            Some(ModalAction::CommandLogsScrollLeft) => ScreenEffect::Apply(ModalAction::CommandLogsScrollLeft),
            Some(ModalAction::CommandLogsScrollTop) => ScreenEffect::Apply(ModalAction::CommandLogsScrollTop),
            Some(ModalAction::CommandLogsScrollBottom) => ScreenEffect::Apply(ModalAction::CommandLogsScrollBottom),
            _ => if opener { ScreenEffect::Close } else { ScreenEffect::Nothing },
        },
        Screen::Config => if st.config_capturing || st.config_editing {
            ScreenEffect::Handler
        } else {
            let on_all = st.config_tab == SettingsTab::All;
            match m {
                Some(ModalAction::ConfigClose) => ScreenEffect::Close,
                Some(ModalAction::ConfigNextTab) => ScreenEffect::Apply(ModalAction::ConfigNextTab),
                Some(ModalAction::ConfigPrevTab) => ScreenEffect::Apply(ModalAction::ConfigPrevTab),
                Some(ModalAction::ConfigToggleLayer) => ScreenEffect::Apply(ModalAction::ConfigToggleLayer),
                Some(ModalAction::ConfigActivate) => if st.config_tab == SettingsTab::Keys {
                    ScreenEffect::BeginCapture
                } else {
                    ScreenEffect::ActivateSetting
                },
                Some(ModalAction::ConfigSelectNext) => if on_all {
                    ScreenEffect::ConfigScrollDown
                } else {
                    ScreenEffect::Apply(ModalAction::ConfigSelectNext)
                },
                Some(ModalAction::ConfigSelectPrev) => if on_all {
                    ScreenEffect::ConfigScrollUp
                } else {
                    ScreenEffect::Apply(ModalAction::ConfigSelectPrev)
                },
                Some(ModalAction::ConfigScrollRight) if on_all => ScreenEffect::Apply(ModalAction::ConfigScrollRight),
                Some(ModalAction::ConfigScrollLeft) if on_all => ScreenEffect::Apply(ModalAction::ConfigScrollLeft),
                Some(ModalAction::ConfigScrollTop) if on_all => ScreenEffect::Apply(ModalAction::ConfigScrollTop),
                Some(ModalAction::ConfigScrollBottom) if on_all => ScreenEffect::Apply(ModalAction::ConfigScrollBottom),
                _ => if opener { ScreenEffect::Close } else { ScreenEffect::Nothing },
            }
        },
        Screen::Create | Screen::Edit => if st.busy { ScreenEffect::Nothing } else { ScreenEffect::Handler },
        Screen::Confirm => if st.busy {
            ScreenEffect::Nothing
        } else {
            match m {
                Some(ModalAction::ConfirmConfirm) => ScreenEffect::Fire,
                Some(ModalAction::ConfirmActivate) => if st.confirm_focused {
                    ScreenEffect::Fire
                } else {
                    ScreenEffect::Dismiss
                },
                Some(ModalAction::ConfirmCancel) => ScreenEffect::Dismiss,
                Some(ModalAction::ConfirmFocusConfirm) => ScreenEffect::Apply(ModalAction::ConfirmFocusConfirm),
                Some(ModalAction::ConfirmFocusCancel) => ScreenEffect::Apply(ModalAction::ConfirmFocusCancel),
                Some(ModalAction::ConfirmToggleFocus) => ScreenEffect::Apply(ModalAction::ConfirmToggleFocus),
                _ => if opener { ScreenEffect::ToggleDeleteBranch } else { ScreenEffect::Nothing },
            }
        },
        Screen::Report => match m {
            Some(ModalAction::ReportClose) => ScreenEffect::CloseAndRefresh,
            _ => ScreenEffect::Nothing,
        },
        Screen::OpenMenu => match m {
            Some(ModalAction::OpenMenuClose) => ScreenEffect::Close,
            Some(ModalAction::OpenMenuToggle) => ScreenEffect::Apply(ModalAction::OpenMenuToggle),
            Some(ModalAction::OpenMenuAccept) => ScreenEffect::OpenLink(LinkPick::Selected),
            Some(ModalAction::OpenMenuIssue) => ScreenEffect::OpenLink(LinkPick::Issue),
            Some(ModalAction::OpenMenuPr) => ScreenEffect::OpenLink(LinkPick::Pr),
            _ => if opener { ScreenEffect::FetchGithub } else { ScreenEffect::Nothing },
        },
        Screen::Pty => if k.code == KeyCode::Esc || st.pty_finished {
            ScreenEffect::ClosePty
        } else {
            ScreenEffect::Forward
        },
        Screen::DetailOverlay => if st.detail_mode == DetailMode::Input {
            ScreenEffect::Handler
        } else if st.detail_kind == DetailKind::CiChecks {
            match m {
                Some(ModalAction::CiChecksClose) => ScreenEffect::Close,
                Some(ModalAction::CiChecksNext) => ScreenEffect::Apply(ModalAction::CiChecksNext),
                Some(ModalAction::CiChecksPrev) => ScreenEffect::Apply(ModalAction::CiChecksPrev),
                Some(ModalAction::CiChecksOpen) => ScreenEffect::Apply(ModalAction::CiChecksOpen),
                Some(ModalAction::CiChecksFilter) => ScreenEffect::Apply(ModalAction::CiChecksFilter),
                Some(ModalAction::CiChecksRefresh) => ScreenEffect::Apply(ModalAction::CiChecksRefresh),
                _ => ScreenEffect::Nothing,
            }
        } else if st.detail_kind == DetailKind::Agents {
            match m {
                Some(ModalAction::DetailClose) => ScreenEffect::Close,
                Some(ModalAction::DetailSelectNext) => ScreenEffect::Apply(ModalAction::DetailSelectNext),
                Some(ModalAction::DetailSelectPrev) => ScreenEffect::Apply(ModalAction::DetailSelectPrev),
                Some(ModalAction::DetailAttach) => ScreenEffect::Apply(ModalAction::DetailAttach),
                Some(ModalAction::DetailDetach) => ScreenEffect::Apply(ModalAction::DetailDetach),
                Some(ModalAction::DetailInput) => ScreenEffect::Apply(ModalAction::DetailInput),
                _ => ScreenEffect::Nothing,
            }
        } else {
            ScreenEffect::Handler
        },
        Screen::CleanReport => match m {
            Some(ModalAction::CleanCancel) => ScreenEffect::Close,
            Some(ModalAction::CleanConfirm) => ScreenEffect::Apply(ModalAction::CleanConfirm),
            Some(ModalAction::CleanNext) => ScreenEffect::Apply(ModalAction::CleanNext),
            Some(ModalAction::CleanPrev) => ScreenEffect::Apply(ModalAction::CleanPrev),
            _ => ScreenEffect::Nothing,
        },
        Screen::LinkPrompt | Screen::ExecPicker | Screen::CommandPalette => ScreenEffect::Handler,
        Screen::List => ScreenEffect::Nothing,
    }
}

/// While the screen's own mutation runs, its modal is locked: no key
/// fires, dismisses or edits anything.
pub proof fn law_busy_modal_is_locked(view: Screen, st: ScreenState, k: KeyStroke, m: Option<ModalAction>, opener: bool)
    requires
        st.busy,
        view == Screen::Create || view == Screen::Edit || view == Screen::Confirm,
    ensures
        screen_key_spec(view, st, k, m, opener) == ScreenEffect::Nothing,
{
}

/// On the confirmation, `activate` acts on the focused button: it fires
/// only when Confirm has the focus, so a stray Enter on a freshly opened
/// modal (focus on Cancel) dismisses.
pub proof fn law_activate_follows_focus(st: ScreenState, k: KeyStroke, opener: bool)
    requires
        !st.busy,
    ensures
        screen_key_spec(Screen::Confirm, st, k, Some(ModalAction::ConfirmActivate), opener) == (if st.confirm_focused {
            ScreenEffect::Fire
        } else {
            ScreenEffect::Dismiss
        }),
{
}

/// What a worktree-list action comes to before it runs.
#[derive(Debug, Clone, Copy, PartialEq, Eq, Structural)]
pub enum ActionPlan {
    /// Refused: the workspace's selected repository is unavailable, so a
    /// write would hit the previously active one. The status line says so.
    Blocked,
    /// Ignored: picker mode (`gwm switch`) only picks a path.
    Ignored,
    /// Nothing is selected to open.
    NothingSelected,
    /// Run the action.
    Run(Action),
}

/// The status line of a blocked action.
pub open spec fn blocked_status() -> Seq<char> {
    "workspace: selected repo is unavailable (moved/deleted?); press r to refresh"@
}

/// Actions that act on the selected worktree's branch or open a flow for
/// it; picker mode ignores them.
pub open spec fn picker_gated(a: Action) -> bool {
    match a {
        Action::Create | Action::DeleteConfirm | Action::Bootstrap | Action::ToggleDeleteBranch | Action::Review
        | Action::OpenMenu | Action::LinkPrompt | Action::FetchGithub => true,
        _ => false,
    }
}

/// `stale`: the workspace's selected repository could not be activated;
/// `mutating`: the action writes to the active repository; `picker`:
/// picker mode; `selected`: a worktree is selected.
pub open spec fn action_plan_spec(stale: bool, mutating: bool, picker: bool, selected: bool, a: Action) -> ActionPlan {
    if stale && mutating {
        ActionPlan::Blocked
    } else if picker && picker_gated(a) {
        ActionPlan::Ignored
    } else if a == Action::Open && !selected {
        ActionPlan::NothingSelected
    } else {
        ActionPlan::Run(a)
    }
}

/// Decide a worktree-list action: a write while the workspace selection
/// is stale is refused (navigation and refresh stay live so the user can
/// recover), picker mode ignores the branch flows, and opening needs a
/// selection.
pub fn action_plan(stale: bool, mutating: bool, picker: bool, selected: bool, a: Action) -> (r: ActionPlan)
    ensures
        r == action_plan_spec(stale, mutating, picker, selected, a),
{
    if stale && mutating {
        return ActionPlan::Blocked;
    }
    let gated = match a {
        Action::Create | Action::DeleteConfirm | Action::Bootstrap | Action::ToggleDeleteBranch | Action::Review
        | Action::OpenMenu | Action::LinkPrompt | Action::FetchGithub => true,
        _ => false,
    };
    if picker && gated {
        ActionPlan::Ignored
    } else if a == Action::Open && !selected {
        ActionPlan::NothingSelected
    } else {
        ActionPlan::Run(a)
    }
}

/// The status line of a blocked action, as text.
pub fn blocked_status_text() -> (r: String)
    ensures
        r@ == blocked_status(),
{
    crate::text::string_of(crate::text::chars_of("workspace: selected repo is unavailable (moved/deleted?); press r to refresh").as_slice())
}

} // verus!
