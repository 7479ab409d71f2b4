//! Per-modal keymaps: each modal or overlay is a context with its own
//! verbs, bound to single keystrokes, so one key can mean different things
//! in different modals without any global conflict. A user override is
//! refused when a typing context would swallow the key first, when it
//! collides with another verb of the same context, or when it is a chord
//! or the emergency `Ctrl+C`.

use vstd::prelude::*;
use crate::keymap::{
    chord_outcome, stroke_text, KeyCode, KeyModifiers, KeyStroke, KeymapError, Source,
};
use crate::text::{ascii_digit, chars_of, is_ascii_digit, str_eq, string_of};

verus! {

/// One modal or overlay whose keys can be rebound.
#[derive(Debug, Clone, Copy, PartialEq, Eq, Hash, PartialOrd, Ord, Structural)]
pub enum KeyContext {
    Create,
    Confirm,
    Help,
    Detail,
    CommandLogs,
    Config,
    ConfigEdit,
    Report,
    OpenMenu,
    CommandPalette,
    LinkChooseTarget,
    LinkInputNumber,
    ExecPicker,
    Clean,
    CiChecks,
}

/// Every context, in declaration order.
pub open spec fn all_contexts() -> Seq<KeyContext> {
    seq![
        KeyContext::Create,
        KeyContext::Confirm,
        KeyContext::Help,
        KeyContext::Detail,
        KeyContext::CommandLogs,
        KeyContext::Config,
        KeyContext::ConfigEdit,
        KeyContext::Report,
        KeyContext::OpenMenu,
        KeyContext::CommandPalette,
        KeyContext::LinkChooseTarget,
        KeyContext::LinkInputNumber,
        KeyContext::ExecPicker,
        KeyContext::Clean,
        KeyContext::CiChecks,
    ]
}

/// The dotted key under `[tui.keys.modal]` addressing a context.
pub open spec fn context_path(c: KeyContext) -> Seq<char> {
    match c {
        KeyContext::Create => "create"@,
        KeyContext::Confirm => "confirm"@,
        KeyContext::Help => "help"@,
        KeyContext::Detail => "detail"@,
        KeyContext::CommandLogs => "command_logs"@,
        KeyContext::Config => "config"@,
        KeyContext::ConfigEdit => "config.edit"@,
        KeyContext::Report => "report"@,
        KeyContext::OpenMenu => "open_menu"@,
        KeyContext::CommandPalette => "palette"@,
        KeyContext::LinkChooseTarget => "link.choose_target"@,
        KeyContext::LinkInputNumber => "link.input_number"@,
        KeyContext::ExecPicker => "exec"@,
        KeyContext::Clean => "clean"@,
        KeyContext::CiChecks => "ci_checks"@,
    }
}

/// Keys a typing context takes as input before any verb sees them: a verb
/// bound to one could never fire.
pub open spec fn context_reserves(ctx: KeyContext, k: KeyStroke) -> bool {
    if k.modifiers.ctrl || k.modifiers.alt {
        false
    } else {
        match k.code {
            KeyCode::Backspace => ctx == KeyContext::CommandPalette || ctx == KeyContext::LinkInputNumber || ctx
                == KeyContext::ConfigEdit,
            KeyCode::Char(c) => if ctx == KeyContext::CommandPalette {
                if k.modifiers.shift {
                    ascii_digit(c)
                } else {
                    ('a' <= c && c <= 'z') || ascii_digit(c) || c == '_' || c == '-'
                }
            } else if ctx == KeyContext::LinkInputNumber {
                ascii_digit(c)
            } else {
                ctx == KeyContext::ConfigEdit
            },
            _ => false,
        }
    }
}

impl KeyContext {
    /// Whether this context's typing takes `stroke` before any verb.
    pub fn reserved_typing_stroke(self, stroke: &KeyStroke) -> (r: bool)
        ensures
            r == context_reserves(self, *stroke),
    {
        if stroke.modifiers.ctrl || stroke.modifiers.alt {
            return false;
        }
        match stroke.code {
            KeyCode::Backspace => self == KeyContext::CommandPalette || self == KeyContext::LinkInputNumber || self
                == KeyContext::ConfigEdit,
            KeyCode::Char(c) => if self == KeyContext::CommandPalette {
                if stroke.modifiers.shift {
                    is_ascii_digit(c)
                } else {
                    ('a' <= c && c <= 'z') || is_ascii_digit(c) || c == '_' || c == '-'
                }
            } else if self == KeyContext::LinkInputNumber {
                is_ascii_digit(c)
            } else {
                self == KeyContext::ConfigEdit
            },
            _ => false,
        }
    }

    pub fn config_path(self) -> (r: &'static str)
        ensures
            r@ == context_path(self),
    {
        match self {
            KeyContext::Create => "create",
            KeyContext::Confirm => "confirm",
            KeyContext::Help => "help",
            KeyContext::Detail => "detail",
            KeyContext::CommandLogs => "command_logs",
            KeyContext::Config => "config",
            KeyContext::ConfigEdit => "config.edit",
            KeyContext::Report => "report",
            KeyContext::OpenMenu => "open_menu",
            KeyContext::CommandPalette => "palette",
            KeyContext::LinkChooseTarget => "link.choose_target",
            KeyContext::LinkInputNumber => "link.input_number",
            KeyContext::ExecPicker => "exec",
            KeyContext::Clean => "clean",
            KeyContext::CiChecks => "ci_checks",
        }
    }

    /// Every context, in declaration order.
    pub fn all() -> (r: Vec<KeyContext>)
        ensures
            r@ == all_contexts(),
    {
        let r = vec![
            KeyContext::Create,
            KeyContext::Confirm,
            KeyContext::Help,
            KeyContext::Detail,
            KeyContext::CommandLogs,
            KeyContext::Config,
            KeyContext::ConfigEdit,
            KeyContext::Report,
            KeyContext::OpenMenu,
            KeyContext::CommandPalette,
            KeyContext::LinkChooseTarget,
            KeyContext::LinkInputNumber,
            KeyContext::ExecPicker,
            KeyContext::Clean,
            KeyContext::CiChecks,
        ];
        proof {
            assert(r@ =~= all_contexts());
        }
        r
    }

    /// The context addressed by `path`: the first, in declaration order,
    /// whose path it is.
    pub fn from_config_path(path: &str) -> (r: Option<KeyContext>)
        ensures
            match r {
                Some(c) => exists|i: int| 0 <= i < all_contexts().len() && all_contexts()[i] == c && context_path(c) == path@
                    && forall|j: int| 0 <= j < i ==> context_path(#[trigger] all_contexts()[j]) != path@,
                None => forall|i: int| 0 <= i < all_contexts().len() ==> context_path(#[trigger] all_contexts()[i]) != path@,
            },
    {
        let all = KeyContext::all();
        let mut i: usize = 0;
        while i < all.len()
            invariant
                all@ == all_contexts(),
                i <= all@.len(),
                forall|j: int| 0 <= j < i ==> context_path(#[trigger] all_contexts()[j]) != path@,
            decreases all.len() - i,
        {
            if str_eq(all[i].config_path(), path) {
                return Some(all[i]);
            }
            i += 1;
        }
        None
    }
}

/// A context-qualified modal verb.
#[derive(Debug, Clone, Copy, PartialEq, Eq, Hash, Structural)]
pub enum ModalAction {
    CreateCancel,
    CreateNextField,
    CreatePrevField,
    CreateSubmit,
    CreatePrevType,
    CreateNextType,
    CreateToggleMode,
    ConfirmConfirm,
    ConfirmActivate,
    ConfirmCancel,
    ConfirmFocusConfirm,
    ConfirmFocusCancel,
    ConfirmToggleFocus,
    HelpClose,
    HelpScrollDown,
    HelpScrollUp,
    HelpScrollRight,
    HelpScrollLeft,
    HelpScrollTop,
    HelpScrollBottom,
    DetailClose,
    DetailSelectNext,
    DetailSelectPrev,
    DetailAttach,
    DetailDetach,
    DetailInput,
    CommandLogsClose,
    CommandLogsCopy,
    CommandLogsScrollDown,
    CommandLogsScrollUp,
    CommandLogsScrollRight,
    CommandLogsScrollLeft,
    CommandLogsScrollTop,
    CommandLogsScrollBottom,
    ConfigClose,
    ConfigNextTab,
    ConfigPrevTab,
    ConfigToggleLayer,
    ConfigActivate,
    ConfigSelectNext,
    ConfigSelectPrev,
    ConfigScrollRight,
    ConfigScrollLeft,
    ConfigScrollTop,
    ConfigScrollBottom,
    ConfigEditSubmit,
    ConfigEditCancel,
    ReportClose,
    OpenMenuClose,
    OpenMenuToggle,
    OpenMenuAccept,
    OpenMenuIssue,
    OpenMenuPr,
    CommandPaletteClose,
    CommandPaletteAccept,
    CommandPalettePrev,
    CommandPaletteNext,
    LinkChooseNext,
    LinkChoosePrev,
    LinkChooseIssue,
    LinkChoosePr,
    LinkChooseAccept,
    LinkChooseCancel,
    LinkInputSubmit,
    LinkInputCancel,
    ExecPickerNext,
    ExecPickerPrev,
    ExecPickerAccept,
    ExecPickerCancel,
    CleanNext,
    CleanPrev,
    CleanConfirm,
    CleanCancel,
    CiChecksClose,
    CiChecksNext,
    CiChecksPrev,
    CiChecksOpen,
    CiChecksFilter,
    CiChecksRefresh,
}

/// Every verb, in declaration order.
pub open spec fn all_modal_actions() -> Seq<ModalAction> {
    seq![
        ModalAction::CreateCancel,
        ModalAction::CreateNextField,
        ModalAction::CreatePrevField,
        ModalAction::CreateSubmit,
        ModalAction::CreatePrevType,
        ModalAction::CreateNextType,
        ModalAction::CreateToggleMode,
        ModalAction::ConfirmConfirm,
        ModalAction::ConfirmActivate,
        ModalAction::ConfirmCancel,
        ModalAction::ConfirmFocusConfirm,
        ModalAction::ConfirmFocusCancel,
        ModalAction::ConfirmToggleFocus,
        ModalAction::HelpClose,
        ModalAction::HelpScrollDown,
        ModalAction::HelpScrollUp,
        ModalAction::HelpScrollRight,
        ModalAction::HelpScrollLeft,
        ModalAction::HelpScrollTop,
        ModalAction::HelpScrollBottom,
        ModalAction::DetailClose,
        ModalAction::DetailSelectNext,
        ModalAction::DetailSelectPrev,
        ModalAction::DetailAttach,
        ModalAction::DetailDetach,
        ModalAction::DetailInput,
        ModalAction::CommandLogsClose,
        ModalAction::CommandLogsCopy,
        ModalAction::CommandLogsScrollDown,
        ModalAction::CommandLogsScrollUp,
        ModalAction::CommandLogsScrollRight,
        ModalAction::CommandLogsScrollLeft,
        ModalAction::CommandLogsScrollTop,
        ModalAction::CommandLogsScrollBottom,
        ModalAction::ConfigClose,
        ModalAction::ConfigNextTab,
        ModalAction::ConfigPrevTab,
        ModalAction::ConfigToggleLayer,
        ModalAction::ConfigActivate,
        ModalAction::ConfigSelectNext,
        ModalAction::ConfigSelectPrev,
        ModalAction::ConfigScrollRight,
        ModalAction::ConfigScrollLeft,
        ModalAction::ConfigScrollTop,
        ModalAction::ConfigScrollBottom,
        ModalAction::ConfigEditSubmit,
        ModalAction::ConfigEditCancel,
        ModalAction::ReportClose,
        ModalAction::OpenMenuClose,
        ModalAction::OpenMenuToggle,
        ModalAction::OpenMenuAccept,
        ModalAction::OpenMenuIssue,
        ModalAction::OpenMenuPr,
        ModalAction::CommandPaletteClose,
        ModalAction::CommandPaletteAccept,
        ModalAction::CommandPalettePrev,
        ModalAction::CommandPaletteNext,
        ModalAction::LinkChooseNext,
        ModalAction::LinkChoosePrev,
        ModalAction::LinkChooseIssue,
        ModalAction::LinkChoosePr,
        ModalAction::LinkChooseAccept,
        ModalAction::LinkChooseCancel,
        ModalAction::LinkInputSubmit,
        ModalAction::LinkInputCancel,
        ModalAction::ExecPickerNext,
        ModalAction::ExecPickerPrev,
        ModalAction::ExecPickerAccept,
        ModalAction::ExecPickerCancel,
        ModalAction::CleanNext,
        ModalAction::CleanPrev,
        ModalAction::CleanConfirm,
        ModalAction::CleanCancel,
        ModalAction::CiChecksClose,
        ModalAction::CiChecksNext,
        ModalAction::CiChecksPrev,
        ModalAction::CiChecksOpen,
        ModalAction::CiChecksFilter,
        ModalAction::CiChecksRefresh,
    ]
}

/// The context a verb belongs to.
pub open spec fn action_context(a: ModalAction) -> KeyContext {
    match a {
        ModalAction::CreateCancel => KeyContext::Create,
        ModalAction::CreateNextField => KeyContext::Create,
        ModalAction::CreatePrevField => KeyContext::Create,
        ModalAction::CreateSubmit => KeyContext::Create,
        ModalAction::CreatePrevType => KeyContext::Create,
        ModalAction::CreateNextType => KeyContext::Create,
        ModalAction::CreateToggleMode => KeyContext::Create,
        ModalAction::ConfirmConfirm => KeyContext::Confirm,
        ModalAction::ConfirmActivate => KeyContext::Confirm,
        ModalAction::ConfirmCancel => KeyContext::Confirm,
        ModalAction::ConfirmFocusConfirm => KeyContext::Confirm,
        ModalAction::ConfirmFocusCancel => KeyContext::Confirm,
        ModalAction::ConfirmToggleFocus => KeyContext::Confirm,
        ModalAction::HelpClose => KeyContext::Help,
        ModalAction::HelpScrollDown => KeyContext::Help,
        ModalAction::HelpScrollUp => KeyContext::Help,
        ModalAction::HelpScrollRight => KeyContext::Help,
        ModalAction::HelpScrollLeft => KeyContext::Help,
        ModalAction::HelpScrollTop => KeyContext::Help,
        ModalAction::HelpScrollBottom => KeyContext::Help,
        ModalAction::DetailClose => KeyContext::Detail,
        ModalAction::DetailSelectNext => KeyContext::Detail,
        ModalAction::DetailSelectPrev => KeyContext::Detail,
        ModalAction::DetailAttach => KeyContext::Detail,
        ModalAction::DetailDetach => KeyContext::Detail,
        ModalAction::DetailInput => KeyContext::Detail,
        ModalAction::CommandLogsClose => KeyContext::CommandLogs,
        ModalAction::CommandLogsCopy => KeyContext::CommandLogs,
        ModalAction::CommandLogsScrollDown => KeyContext::CommandLogs,
        ModalAction::CommandLogsScrollUp => KeyContext::CommandLogs,
        ModalAction::CommandLogsScrollRight => KeyContext::CommandLogs,
        ModalAction::CommandLogsScrollLeft => KeyContext::CommandLogs,
        ModalAction::CommandLogsScrollTop => KeyContext::CommandLogs,
        ModalAction::CommandLogsScrollBottom => KeyContext::CommandLogs,
        ModalAction::ConfigClose => KeyContext::Config,
        ModalAction::ConfigNextTab => KeyContext::Config,
        ModalAction::ConfigPrevTab => KeyContext::Config,
        ModalAction::ConfigToggleLayer => KeyContext::Config,
        ModalAction::ConfigActivate => KeyContext::Config,
        ModalAction::ConfigSelectNext => KeyContext::Config,
        ModalAction::ConfigSelectPrev => KeyContext::Config,
        ModalAction::ConfigScrollRight => KeyContext::Config,
        ModalAction::ConfigScrollLeft => KeyContext::Config,
        ModalAction::ConfigScrollTop => KeyContext::Config,
        ModalAction::ConfigScrollBottom => KeyContext::Config,
        ModalAction::ConfigEditSubmit => KeyContext::ConfigEdit,
        ModalAction::ConfigEditCancel => KeyContext::ConfigEdit,
        ModalAction::ReportClose => KeyContext::Report,
        ModalAction::OpenMenuClose => KeyContext::OpenMenu,
        ModalAction::OpenMenuToggle => KeyContext::OpenMenu,
        ModalAction::OpenMenuAccept => KeyContext::OpenMenu,
        ModalAction::OpenMenuIssue => KeyContext::OpenMenu,
        ModalAction::OpenMenuPr => KeyContext::OpenMenu,
        ModalAction::CommandPaletteClose => KeyContext::CommandPalette,
        ModalAction::CommandPaletteAccept => KeyContext::CommandPalette,
        ModalAction::CommandPalettePrev => KeyContext::CommandPalette,
        ModalAction::CommandPaletteNext => KeyContext::CommandPalette,
        ModalAction::LinkChooseNext => KeyContext::LinkChooseTarget,
        ModalAction::LinkChoosePrev => KeyContext::LinkChooseTarget,
        ModalAction::LinkChooseIssue => KeyContext::LinkChooseTarget,
        ModalAction::LinkChoosePr => KeyContext::LinkChooseTarget,
        ModalAction::LinkChooseAccept => KeyContext::LinkChooseTarget,
        ModalAction::LinkChooseCancel => KeyContext::LinkChooseTarget,
        ModalAction::LinkInputSubmit => KeyContext::LinkInputNumber,
        ModalAction::LinkInputCancel => KeyContext::LinkInputNumber,
        ModalAction::ExecPickerNext => KeyContext::ExecPicker,
        ModalAction::ExecPickerPrev => KeyContext::ExecPicker,
        ModalAction::ExecPickerAccept => KeyContext::ExecPicker,
        ModalAction::ExecPickerCancel => KeyContext::ExecPicker,
        ModalAction::CleanNext => KeyContext::Clean,
        ModalAction::CleanPrev => KeyContext::Clean,
        ModalAction::CleanConfirm => KeyContext::Clean,
        ModalAction::CleanCancel => KeyContext::Clean,
        ModalAction::CiChecksClose => KeyContext::CiChecks,
        ModalAction::CiChecksNext => KeyContext::CiChecks,
        ModalAction::CiChecksPrev => KeyContext::CiChecks,
        ModalAction::CiChecksOpen => KeyContext::CiChecks,
        ModalAction::CiChecksFilter => KeyContext::CiChecks,
        ModalAction::CiChecksRefresh => KeyContext::CiChecks,
    }
}

/// The verb's slug within its context.
pub open spec fn action_verb(a: ModalAction) -> Seq<char> {
    match a {
        ModalAction::CreateCancel => "cancel"@,
        ModalAction::CreateNextField => "next_field"@,
        ModalAction::CreatePrevField => "prev_field"@,
        ModalAction::CreateSubmit => "submit"@,
        ModalAction::CreatePrevType => "prev_type"@,
        ModalAction::CreateNextType => "next_type"@,
        ModalAction::CreateToggleMode => "toggle_mode"@,
        ModalAction::ConfirmConfirm => "confirm"@,
        ModalAction::ConfirmActivate => "activate"@,
        ModalAction::ConfirmCancel => "cancel"@,
        ModalAction::ConfirmFocusConfirm => "focus_confirm"@,
        ModalAction::ConfirmFocusCancel => "focus_cancel"@,
        ModalAction::ConfirmToggleFocus => "toggle_focus"@,
        ModalAction::HelpClose => "close"@,
        ModalAction::HelpScrollDown => "scroll_down"@,
        ModalAction::HelpScrollUp => "scroll_up"@,
        ModalAction::HelpScrollRight => "scroll_right"@,
        ModalAction::HelpScrollLeft => "scroll_left"@,
        ModalAction::HelpScrollTop => "scroll_top"@,
        ModalAction::HelpScrollBottom => "scroll_bottom"@,
        ModalAction::DetailClose => "close"@,
        ModalAction::DetailSelectNext => "select_next"@,
        ModalAction::DetailSelectPrev => "select_prev"@,
        ModalAction::DetailAttach => "attach"@,
        ModalAction::DetailDetach => "detach"@,
        ModalAction::DetailInput => "attach_by_id"@,
        ModalAction::CommandLogsClose => "close"@,
        ModalAction::CommandLogsCopy => "copy"@,
        ModalAction::CommandLogsScrollDown => "scroll_down"@,
        ModalAction::CommandLogsScrollUp => "scroll_up"@,
        ModalAction::CommandLogsScrollRight => "scroll_right"@,
        ModalAction::CommandLogsScrollLeft => "scroll_left"@,
        ModalAction::CommandLogsScrollTop => "scroll_top"@,
        ModalAction::CommandLogsScrollBottom => "scroll_bottom"@,
        ModalAction::ConfigClose => "close"@,
        ModalAction::ConfigNextTab => "next_tab"@,
        ModalAction::ConfigPrevTab => "prev_tab"@,
        ModalAction::ConfigToggleLayer => "toggle_layer"@,
        ModalAction::ConfigActivate => "activate"@,
        ModalAction::ConfigSelectNext => "select_next"@,
        ModalAction::ConfigSelectPrev => "select_prev"@,
        ModalAction::ConfigScrollRight => "scroll_right"@,
        ModalAction::ConfigScrollLeft => "scroll_left"@,
        ModalAction::ConfigScrollTop => "scroll_top"@,
        ModalAction::ConfigScrollBottom => "scroll_bottom"@,
        ModalAction::ConfigEditSubmit => "submit"@,
        ModalAction::ConfigEditCancel => "cancel"@,
        ModalAction::ReportClose => "close"@,
        ModalAction::OpenMenuClose => "close"@,
        ModalAction::OpenMenuToggle => "toggle"@,
        ModalAction::OpenMenuAccept => "accept"@,
        ModalAction::OpenMenuIssue => "issue"@,
        ModalAction::OpenMenuPr => "pr"@,
        ModalAction::CommandPaletteClose => "close"@,
        ModalAction::CommandPaletteAccept => "accept"@,
        ModalAction::CommandPalettePrev => "prev"@,
        ModalAction::CommandPaletteNext => "next"@,
        ModalAction::LinkChooseNext => "next"@,
        ModalAction::LinkChoosePrev => "prev"@,
        ModalAction::LinkChooseIssue => "issue"@,
        ModalAction::LinkChoosePr => "pr"@,
        ModalAction::LinkChooseAccept => "accept"@,
        ModalAction::LinkChooseCancel => "cancel"@,
        ModalAction::LinkInputSubmit => "submit"@,
        ModalAction::LinkInputCancel => "cancel"@,
        ModalAction::ExecPickerNext => "next"@,
        ModalAction::ExecPickerPrev => "prev"@,
        ModalAction::ExecPickerAccept => "accept"@,
        ModalAction::ExecPickerCancel => "cancel"@,
        ModalAction::CleanNext => "next"@,
        ModalAction::CleanPrev => "prev"@,
        ModalAction::CleanConfirm => "confirm"@,
        ModalAction::CleanCancel => "cancel"@,
        ModalAction::CiChecksClose => "close"@,
        ModalAction::CiChecksNext => "select_next"@,
        ModalAction::CiChecksPrev => "select_prev"@,
        ModalAction::CiChecksOpen => "open"@,
        ModalAction::CiChecksFilter => "filter"@,
        ModalAction::CiChecksRefresh => "refresh"@,
    }
}

/// The keys a verb ships bound to.
pub open spec fn default_keys(a: ModalAction) -> Seq<KeyStroke> {
    match a {
        ModalAction::CreateCancel => seq![KeyStroke { code: KeyCode::Esc, modifiers: KeyModifiers { ctrl: false, alt: false, shift: false } }],
        ModalAction::CreateNextField => seq![KeyStroke { code: KeyCode::Tab, modifiers: KeyModifiers { ctrl: false, alt: false, shift: false } }],
        ModalAction::CreatePrevField => seq![KeyStroke { code: KeyCode::BackTab, modifiers: KeyModifiers { ctrl: false, alt: false, shift: false } }],
        ModalAction::CreateSubmit => seq![KeyStroke { code: KeyCode::Enter, modifiers: KeyModifiers { ctrl: false, alt: false, shift: false } }],
        ModalAction::CreatePrevType => seq![KeyStroke { code: KeyCode::Up, modifiers: KeyModifiers { ctrl: false, alt: false, shift: false } }, KeyStroke { code: KeyCode::Left, modifiers: KeyModifiers { ctrl: false, alt: false, shift: false } }, KeyStroke { code: KeyCode::Char('h'), modifiers: KeyModifiers { ctrl: false, alt: false, shift: false } }],
        ModalAction::CreateNextType => seq![KeyStroke { code: KeyCode::Down, modifiers: KeyModifiers { ctrl: false, alt: false, shift: false } }, KeyStroke { code: KeyCode::Right, modifiers: KeyModifiers { ctrl: false, alt: false, shift: false } }, KeyStroke { code: KeyCode::Char('l'), modifiers: KeyModifiers { ctrl: false, alt: false, shift: false } }],
        ModalAction::CreateToggleMode => seq![KeyStroke { code: KeyCode::Char('t'), modifiers: KeyModifiers { ctrl: true, alt: false, shift: false } }],
        ModalAction::ConfirmConfirm => seq![KeyStroke { code: KeyCode::Char('y'), modifiers: KeyModifiers { ctrl: false, alt: false, shift: false } }],
        ModalAction::ConfirmActivate => seq![KeyStroke { code: KeyCode::Enter, modifiers: KeyModifiers { ctrl: false, alt: false, shift: false } }],
        ModalAction::ConfirmCancel => seq![KeyStroke { code: KeyCode::Char('n'), modifiers: KeyModifiers { ctrl: false, alt: false, shift: false } }, KeyStroke { code: KeyCode::Esc, modifiers: KeyModifiers { ctrl: false, alt: false, shift: false } }],
        ModalAction::ConfirmFocusConfirm => seq![KeyStroke { code: KeyCode::Left, modifiers: KeyModifiers { ctrl: false, alt: false, shift: false } }, KeyStroke { code: KeyCode::Char('h'), modifiers: KeyModifiers { ctrl: false, alt: false, shift: false } }],
        ModalAction::ConfirmFocusCancel => seq![KeyStroke { code: KeyCode::Right, modifiers: KeyModifiers { ctrl: false, alt: false, shift: false } }, KeyStroke { code: KeyCode::Char('l'), modifiers: KeyModifiers { ctrl: false, alt: false, shift: false } }],
        ModalAction::ConfirmToggleFocus => seq![KeyStroke { code: KeyCode::Tab, modifiers: KeyModifiers { ctrl: false, alt: false, shift: false } }],
        ModalAction::HelpClose => seq![KeyStroke { code: KeyCode::Esc, modifiers: KeyModifiers { ctrl: false, alt: false, shift: false } }, KeyStroke { code: KeyCode::Char('q'), modifiers: KeyModifiers { ctrl: false, alt: false, shift: false } }, KeyStroke { code: KeyCode::Char('?'), modifiers: KeyModifiers { ctrl: false, alt: false, shift: false } }],
        ModalAction::HelpScrollDown => seq![KeyStroke { code: KeyCode::Down, modifiers: KeyModifiers { ctrl: false, alt: false, shift: false } }, KeyStroke { code: KeyCode::Char('j'), modifiers: KeyModifiers { ctrl: false, alt: false, shift: false } }],
        ModalAction::HelpScrollUp => seq![KeyStroke { code: KeyCode::Up, modifiers: KeyModifiers { ctrl: false, alt: false, shift: false } }, KeyStroke { code: KeyCode::Char('k'), modifiers: KeyModifiers { ctrl: false, alt: false, shift: false } }],
        ModalAction::HelpScrollRight => seq![KeyStroke { code: KeyCode::Right, modifiers: KeyModifiers { ctrl: false, alt: false, shift: false } }, KeyStroke { code: KeyCode::Char('l'), modifiers: KeyModifiers { ctrl: false, alt: false, shift: false } }],
        ModalAction::HelpScrollLeft => seq![KeyStroke { code: KeyCode::Left, modifiers: KeyModifiers { ctrl: false, alt: false, shift: false } }, KeyStroke { code: KeyCode::Char('h'), modifiers: KeyModifiers { ctrl: false, alt: false, shift: false } }],
        ModalAction::HelpScrollTop => seq![KeyStroke { code: KeyCode::Home, modifiers: KeyModifiers { ctrl: false, alt: false, shift: false } }, KeyStroke { code: KeyCode::Char('g'), modifiers: KeyModifiers { ctrl: false, alt: false, shift: false } }],
        ModalAction::HelpScrollBottom => seq![KeyStroke { code: KeyCode::End, modifiers: KeyModifiers { ctrl: false, alt: false, shift: false } }, KeyStroke { code: KeyCode::Char('G'), modifiers: KeyModifiers { ctrl: false, alt: false, shift: false } }],
        ModalAction::DetailClose => seq![KeyStroke { code: KeyCode::Esc, modifiers: KeyModifiers { ctrl: false, alt: false, shift: false } }, KeyStroke { code: KeyCode::Char('q'), modifiers: KeyModifiers { ctrl: false, alt: false, shift: false } }],
        ModalAction::DetailSelectNext => seq![KeyStroke { code: KeyCode::Down, modifiers: KeyModifiers { ctrl: false, alt: false, shift: false } }, KeyStroke { code: KeyCode::Char('j'), modifiers: KeyModifiers { ctrl: false, alt: false, shift: false } }],
        ModalAction::DetailSelectPrev => seq![KeyStroke { code: KeyCode::Up, modifiers: KeyModifiers { ctrl: false, alt: false, shift: false } }, KeyStroke { code: KeyCode::Char('k'), modifiers: KeyModifiers { ctrl: false, alt: false, shift: false } }],
        ModalAction::DetailAttach => seq![KeyStroke { code: KeyCode::Char('a'), modifiers: KeyModifiers { ctrl: false, alt: false, shift: false } }],
        ModalAction::DetailDetach => seq![KeyStroke { code: KeyCode::Char('d'), modifiers: KeyModifiers { ctrl: false, alt: false, shift: false } }],
        ModalAction::DetailInput => seq![KeyStroke { code: KeyCode::Char('i'), modifiers: KeyModifiers { ctrl: false, alt: false, shift: false } }],
        ModalAction::CommandLogsClose => seq![KeyStroke { code: KeyCode::Esc, modifiers: KeyModifiers { ctrl: false, alt: false, shift: false } }, KeyStroke { code: KeyCode::Char('q'), modifiers: KeyModifiers { ctrl: false, alt: false, shift: false } }],
        ModalAction::CommandLogsCopy => seq![KeyStroke { code: KeyCode::Char('y'), modifiers: KeyModifiers { ctrl: false, alt: false, shift: false } }],
        ModalAction::CommandLogsScrollDown => seq![KeyStroke { code: KeyCode::Down, modifiers: KeyModifiers { ctrl: false, alt: false, shift: false } }, KeyStroke { code: KeyCode::Char('j'), modifiers: KeyModifiers { ctrl: false, alt: false, shift: false } }],
        ModalAction::CommandLogsScrollUp => seq![KeyStroke { code: KeyCode::Up, modifiers: KeyModifiers { ctrl: false, alt: false, shift: false } }, KeyStroke { code: KeyCode::Char('k'), modifiers: KeyModifiers { ctrl: false, alt: false, shift: false } }],
        ModalAction::CommandLogsScrollRight => seq![KeyStroke { code: KeyCode::Right, modifiers: KeyModifiers { ctrl: false, alt: false, shift: false } }, KeyStroke { code: KeyCode::Char('l'), modifiers: KeyModifiers { ctrl: false, alt: false, shift: false } }],
        ModalAction::CommandLogsScrollLeft => seq![KeyStroke { code: KeyCode::Left, modifiers: KeyModifiers { ctrl: false, alt: false, shift: false } }, KeyStroke { code: KeyCode::Char('h'), modifiers: KeyModifiers { ctrl: false, alt: false, shift: false } }],
        ModalAction::CommandLogsScrollTop => seq![KeyStroke { code: KeyCode::Home, modifiers: KeyModifiers { ctrl: false, alt: false, shift: false } }, KeyStroke { code: KeyCode::Char('g'), modifiers: KeyModifiers { ctrl: false, alt: false, shift: false } }],
        ModalAction::CommandLogsScrollBottom => seq![KeyStroke { code: KeyCode::End, modifiers: KeyModifiers { ctrl: false, alt: false, shift: false } }, KeyStroke { code: KeyCode::Char('G'), modifiers: KeyModifiers { ctrl: false, alt: false, shift: false } }],
        ModalAction::ConfigClose => seq![KeyStroke { code: KeyCode::Esc, modifiers: KeyModifiers { ctrl: false, alt: false, shift: false } }, KeyStroke { code: KeyCode::Char('q'), modifiers: KeyModifiers { ctrl: false, alt: false, shift: false } }],
        ModalAction::ConfigNextTab => seq![KeyStroke { code: KeyCode::Tab, modifiers: KeyModifiers { ctrl: false, alt: false, shift: false } }],
        ModalAction::ConfigPrevTab => seq![KeyStroke { code: KeyCode::BackTab, modifiers: KeyModifiers { ctrl: false, alt: false, shift: false } }],
        ModalAction::ConfigToggleLayer => seq![KeyStroke { code: KeyCode::Char('L'), modifiers: KeyModifiers { ctrl: false, alt: false, shift: false } }],
        ModalAction::ConfigActivate => seq![KeyStroke { code: KeyCode::Char(' '), modifiers: KeyModifiers { ctrl: false, alt: false, shift: false } }, KeyStroke { code: KeyCode::Enter, modifiers: KeyModifiers { ctrl: false, alt: false, shift: false } }],
        ModalAction::ConfigSelectNext => seq![KeyStroke { code: KeyCode::Down, modifiers: KeyModifiers { ctrl: false, alt: false, shift: false } }, KeyStroke { code: KeyCode::Char('j'), modifiers: KeyModifiers { ctrl: false, alt: false, shift: false } }],
        ModalAction::ConfigSelectPrev => seq![KeyStroke { code: KeyCode::Up, modifiers: KeyModifiers { ctrl: false, alt: false, shift: false } }, KeyStroke { code: KeyCode::Char('k'), modifiers: KeyModifiers { ctrl: false, alt: false, shift: false } }],
        ModalAction::ConfigScrollRight => seq![KeyStroke { code: KeyCode::Right, modifiers: KeyModifiers { ctrl: false, alt: false, shift: false } }, KeyStroke { code: KeyCode::Char('l'), modifiers: KeyModifiers { ctrl: false, alt: false, shift: false } }],
        ModalAction::ConfigScrollLeft => seq![KeyStroke { code: KeyCode::Left, modifiers: KeyModifiers { ctrl: false, alt: false, shift: false } }, KeyStroke { code: KeyCode::Char('h'), modifiers: KeyModifiers { ctrl: false, alt: false, shift: false } }],
        ModalAction::ConfigScrollTop => seq![KeyStroke { code: KeyCode::Home, modifiers: KeyModifiers { ctrl: false, alt: false, shift: false } }, KeyStroke { code: KeyCode::Char('g'), modifiers: KeyModifiers { ctrl: false, alt: false, shift: false } }],
        ModalAction::ConfigScrollBottom => seq![KeyStroke { code: KeyCode::End, modifiers: KeyModifiers { ctrl: false, alt: false, shift: false } }, KeyStroke { code: KeyCode::Char('G'), modifiers: KeyModifiers { ctrl: false, alt: false, shift: false } }],
        ModalAction::ConfigEditSubmit => seq![KeyStroke { code: KeyCode::Enter, modifiers: KeyModifiers { ctrl: false, alt: false, shift: false } }],
        ModalAction::ConfigEditCancel => seq![KeyStroke { code: KeyCode::Esc, modifiers: KeyModifiers { ctrl: false, alt: false, shift: false } }],
        ModalAction::ReportClose => seq![KeyStroke { code: KeyCode::Esc, modifiers: KeyModifiers { ctrl: false, alt: false, shift: false } }, KeyStroke { code: KeyCode::Char('q'), modifiers: KeyModifiers { ctrl: false, alt: false, shift: false } }, KeyStroke { code: KeyCode::Enter, modifiers: KeyModifiers { ctrl: false, alt: false, shift: false } }],
        ModalAction::OpenMenuClose => seq![KeyStroke { code: KeyCode::Esc, modifiers: KeyModifiers { ctrl: false, alt: false, shift: false } }, KeyStroke { code: KeyCode::Char('q'), modifiers: KeyModifiers { ctrl: false, alt: false, shift: false } }],
        ModalAction::OpenMenuToggle => seq![KeyStroke { code: KeyCode::Char('j'), modifiers: KeyModifiers { ctrl: false, alt: false, shift: false } }, KeyStroke { code: KeyCode::Char('k'), modifiers: KeyModifiers { ctrl: false, alt: false, shift: false } }, KeyStroke { code: KeyCode::Down, modifiers: KeyModifiers { ctrl: false, alt: false, shift: false } }, KeyStroke { code: KeyCode::Up, modifiers: KeyModifiers { ctrl: false, alt: false, shift: false } }],
        ModalAction::OpenMenuAccept => seq![KeyStroke { code: KeyCode::Enter, modifiers: KeyModifiers { ctrl: false, alt: false, shift: false } }],
        ModalAction::OpenMenuIssue => seq![KeyStroke { code: KeyCode::Char('i'), modifiers: KeyModifiers { ctrl: false, alt: false, shift: false } }],
        ModalAction::OpenMenuPr => seq![KeyStroke { code: KeyCode::Char('p'), modifiers: KeyModifiers { ctrl: false, alt: false, shift: false } }],
        ModalAction::CommandPaletteClose => seq![KeyStroke { code: KeyCode::Esc, modifiers: KeyModifiers { ctrl: false, alt: false, shift: false } }],
        ModalAction::CommandPaletteAccept => seq![KeyStroke { code: KeyCode::Enter, modifiers: KeyModifiers { ctrl: false, alt: false, shift: false } }],
        ModalAction::CommandPalettePrev => seq![KeyStroke { code: KeyCode::Up, modifiers: KeyModifiers { ctrl: false, alt: false, shift: false } }],
        ModalAction::CommandPaletteNext => seq![KeyStroke { code: KeyCode::Down, modifiers: KeyModifiers { ctrl: false, alt: false, shift: false } }, KeyStroke { code: KeyCode::Tab, modifiers: KeyModifiers { ctrl: false, alt: false, shift: false } }],
        ModalAction::LinkChooseNext => seq![KeyStroke { code: KeyCode::Char('j'), modifiers: KeyModifiers { ctrl: false, alt: false, shift: false } }, KeyStroke { code: KeyCode::Down, modifiers: KeyModifiers { ctrl: false, alt: false, shift: false } }],
        ModalAction::LinkChoosePrev => seq![KeyStroke { code: KeyCode::Char('k'), modifiers: KeyModifiers { ctrl: false, alt: false, shift: false } }, KeyStroke { code: KeyCode::Up, modifiers: KeyModifiers { ctrl: false, alt: false, shift: false } }],
        ModalAction::LinkChooseIssue => seq![KeyStroke { code: KeyCode::Char('i'), modifiers: KeyModifiers { ctrl: false, alt: false, shift: false } }],
        ModalAction::LinkChoosePr => seq![KeyStroke { code: KeyCode::Char('p'), modifiers: KeyModifiers { ctrl: false, alt: false, shift: false } }],
        ModalAction::LinkChooseAccept => seq![KeyStroke { code: KeyCode::Enter, modifiers: KeyModifiers { ctrl: false, alt: false, shift: false } }],
        ModalAction::LinkChooseCancel => seq![KeyStroke { code: KeyCode::Esc, modifiers: KeyModifiers { ctrl: false, alt: false, shift: false } }],
        ModalAction::LinkInputSubmit => seq![KeyStroke { code: KeyCode::Enter, modifiers: KeyModifiers { ctrl: false, alt: false, shift: false } }],
        ModalAction::LinkInputCancel => seq![KeyStroke { code: KeyCode::Esc, modifiers: KeyModifiers { ctrl: false, alt: false, shift: false } }],
        ModalAction::ExecPickerNext => seq![KeyStroke { code: KeyCode::Char('j'), modifiers: KeyModifiers { ctrl: false, alt: false, shift: false } }, KeyStroke { code: KeyCode::Down, modifiers: KeyModifiers { ctrl: false, alt: false, shift: false } }],
        ModalAction::ExecPickerPrev => seq![KeyStroke { code: KeyCode::Char('k'), modifiers: KeyModifiers { ctrl: false, alt: false, shift: false } }, KeyStroke { code: KeyCode::Up, modifiers: KeyModifiers { ctrl: false, alt: false, shift: false } }],
        ModalAction::ExecPickerAccept => seq![KeyStroke { code: KeyCode::Enter, modifiers: KeyModifiers { ctrl: false, alt: false, shift: false } }],
        ModalAction::ExecPickerCancel => seq![KeyStroke { code: KeyCode::Esc, modifiers: KeyModifiers { ctrl: false, alt: false, shift: false } }],
        ModalAction::CleanNext => seq![KeyStroke { code: KeyCode::Char('j'), modifiers: KeyModifiers { ctrl: false, alt: false, shift: false } }, KeyStroke { code: KeyCode::Down, modifiers: KeyModifiers { ctrl: false, alt: false, shift: false } }],
        ModalAction::CleanPrev => seq![KeyStroke { code: KeyCode::Char('k'), modifiers: KeyModifiers { ctrl: false, alt: false, shift: false } }, KeyStroke { code: KeyCode::Up, modifiers: KeyModifiers { ctrl: false, alt: false, shift: false } }],
        ModalAction::CleanConfirm => seq![KeyStroke { code: KeyCode::Char('y'), modifiers: KeyModifiers { ctrl: false, alt: false, shift: false } }, KeyStroke { code: KeyCode::Enter, modifiers: KeyModifiers { ctrl: false, alt: false, shift: false } }],
        ModalAction::CleanCancel => seq![KeyStroke { code: KeyCode::Char('n'), modifiers: KeyModifiers { ctrl: false, alt: false, shift: false } }, KeyStroke { code: KeyCode::Esc, modifiers: KeyModifiers { ctrl: false, alt: false, shift: false } }],
        ModalAction::CiChecksClose => seq![KeyStroke { code: KeyCode::Esc, modifiers: KeyModifiers { ctrl: false, alt: false, shift: false } }, KeyStroke { code: KeyCode::Char('q'), modifiers: KeyModifiers { ctrl: false, alt: false, shift: false } }],
        ModalAction::CiChecksNext => seq![KeyStroke { code: KeyCode::Char('j'), modifiers: KeyModifiers { ctrl: false, alt: false, shift: false } }, KeyStroke { code: KeyCode::Down, modifiers: KeyModifiers { ctrl: false, alt: false, shift: false } }],
        ModalAction::CiChecksPrev => seq![KeyStroke { code: KeyCode::Char('k'), modifiers: KeyModifiers { ctrl: false, alt: false, shift: false } }, KeyStroke { code: KeyCode::Up, modifiers: KeyModifiers { ctrl: false, alt: false, shift: false } }],
        ModalAction::CiChecksOpen => seq![KeyStroke { code: KeyCode::Enter, modifiers: KeyModifiers { ctrl: false, alt: false, shift: false } }],
        ModalAction::CiChecksFilter => seq![KeyStroke { code: KeyCode::Char('/'), modifiers: KeyModifiers { ctrl: false, alt: false, shift: false } }],
        ModalAction::CiChecksRefresh => seq![KeyStroke { code: KeyCode::Char('f'), modifiers: KeyModifiers { ctrl: false, alt: false, shift: false } }],
    }
}

/// The create-form verbs that must stay reachable from its text fields.
pub open spec fn create_text_verb(a: ModalAction) -> bool {
    a == ModalAction::CreateSubmit || a == ModalAction::CreateCancel || a == ModalAction::CreateNextField || a
        == ModalAction::CreatePrevField || a == ModalAction::CreateToggleMode
}

/// Binding `a` to `k` would leave it unreachable: the context's typing
/// takes the key, or `a` is a create verb and `k` an unmodified printable
/// or Backspace, which the text fields take.
pub open spec fn action_reserves(a: ModalAction, k: KeyStroke) -> bool {
    context_reserves(action_context(a), k) || (create_text_verb(a) && !(k.modifiers.ctrl || k.modifiers.alt) && (
    k.code is Char || k.code is Backspace))
}

impl ModalAction {
    pub fn context(self) -> (r: KeyContext)
        ensures
            r == action_context(self),
    {
        match self {
            ModalAction::CreateCancel => KeyContext::Create,
            ModalAction::CreateNextField => KeyContext::Create,
            ModalAction::CreatePrevField => KeyContext::Create,
            ModalAction::CreateSubmit => KeyContext::Create,
            ModalAction::CreatePrevType => KeyContext::Create,
            ModalAction::CreateNextType => KeyContext::Create,
            ModalAction::CreateToggleMode => KeyContext::Create,
            ModalAction::ConfirmConfirm => KeyContext::Confirm,
            ModalAction::ConfirmActivate => KeyContext::Confirm,
            ModalAction::ConfirmCancel => KeyContext::Confirm,
            ModalAction::ConfirmFocusConfirm => KeyContext::Confirm,
            ModalAction::ConfirmFocusCancel => KeyContext::Confirm,
            ModalAction::ConfirmToggleFocus => KeyContext::Confirm,
            ModalAction::HelpClose => KeyContext::Help,
            ModalAction::HelpScrollDown => KeyContext::Help,
            ModalAction::HelpScrollUp => KeyContext::Help,
            ModalAction::HelpScrollRight => KeyContext::Help,
            ModalAction::HelpScrollLeft => KeyContext::Help,
            ModalAction::HelpScrollTop => KeyContext::Help,
            ModalAction::HelpScrollBottom => KeyContext::Help,
            ModalAction::DetailClose => KeyContext::Detail,
            ModalAction::DetailSelectNext => KeyContext::Detail,
            ModalAction::DetailSelectPrev => KeyContext::Detail,
            ModalAction::DetailAttach => KeyContext::Detail,
            ModalAction::DetailDetach => KeyContext::Detail,
            ModalAction::DetailInput => KeyContext::Detail,
            ModalAction::CommandLogsClose => KeyContext::CommandLogs,
            ModalAction::CommandLogsCopy => KeyContext::CommandLogs,
            ModalAction::CommandLogsScrollDown => KeyContext::CommandLogs,
            ModalAction::CommandLogsScrollUp => KeyContext::CommandLogs,
            ModalAction::CommandLogsScrollRight => KeyContext::CommandLogs,
            ModalAction::CommandLogsScrollLeft => KeyContext::CommandLogs,
            ModalAction::CommandLogsScrollTop => KeyContext::CommandLogs,
            ModalAction::CommandLogsScrollBottom => KeyContext::CommandLogs,
            ModalAction::ConfigClose => KeyContext::Config,
            ModalAction::ConfigNextTab => KeyContext::Config,
            ModalAction::ConfigPrevTab => KeyContext::Config,
            ModalAction::ConfigToggleLayer => KeyContext::Config,
            ModalAction::ConfigActivate => KeyContext::Config,
            ModalAction::ConfigSelectNext => KeyContext::Config,
            ModalAction::ConfigSelectPrev => KeyContext::Config,
            ModalAction::ConfigScrollRight => KeyContext::Config,
            ModalAction::ConfigScrollLeft => KeyContext::Config,
            ModalAction::ConfigScrollTop => KeyContext::Config,
            ModalAction::ConfigScrollBottom => KeyContext::Config,
            ModalAction::ConfigEditSubmit => KeyContext::ConfigEdit,
            ModalAction::ConfigEditCancel => KeyContext::ConfigEdit,
            ModalAction::ReportClose => KeyContext::Report,
            ModalAction::OpenMenuClose => KeyContext::OpenMenu,
            ModalAction::OpenMenuToggle => KeyContext::OpenMenu,
            ModalAction::OpenMenuAccept => KeyContext::OpenMenu,
            ModalAction::OpenMenuIssue => KeyContext::OpenMenu,
            ModalAction::OpenMenuPr => KeyContext::OpenMenu,
            ModalAction::CommandPaletteClose => KeyContext::CommandPalette,
            ModalAction::CommandPaletteAccept => KeyContext::CommandPalette,
            ModalAction::CommandPalettePrev => KeyContext::CommandPalette,
            ModalAction::CommandPaletteNext => KeyContext::CommandPalette,
            ModalAction::LinkChooseNext => KeyContext::LinkChooseTarget,
            ModalAction::LinkChoosePrev => KeyContext::LinkChooseTarget,
            ModalAction::LinkChooseIssue => KeyContext::LinkChooseTarget,
            ModalAction::LinkChoosePr => KeyContext::LinkChooseTarget,
            ModalAction::LinkChooseAccept => KeyContext::LinkChooseTarget,
            ModalAction::LinkChooseCancel => KeyContext::LinkChooseTarget,
            ModalAction::LinkInputSubmit => KeyContext::LinkInputNumber,
            ModalAction::LinkInputCancel => KeyContext::LinkInputNumber,
            ModalAction::ExecPickerNext => KeyContext::ExecPicker,
            ModalAction::ExecPickerPrev => KeyContext::ExecPicker,
            ModalAction::ExecPickerAccept => KeyContext::ExecPicker,
            ModalAction::ExecPickerCancel => KeyContext::ExecPicker,
            ModalAction::CleanNext => KeyContext::Clean,
            ModalAction::CleanPrev => KeyContext::Clean,
            ModalAction::CleanConfirm => KeyContext::Clean,
            ModalAction::CleanCancel => KeyContext::Clean,
            ModalAction::CiChecksClose => KeyContext::CiChecks,
            ModalAction::CiChecksNext => KeyContext::CiChecks,
            ModalAction::CiChecksPrev => KeyContext::CiChecks,
            ModalAction::CiChecksOpen => KeyContext::CiChecks,
            ModalAction::CiChecksFilter => KeyContext::CiChecks,
            ModalAction::CiChecksRefresh => KeyContext::CiChecks,
        }
    }

    pub fn verb(self) -> (r: &'static str)
        ensures
            r@ == action_verb(self),
    {
        match self {
            ModalAction::CreateCancel => "cancel",
            ModalAction::CreateNextField => "next_field",
            ModalAction::CreatePrevField => "prev_field",
            ModalAction::CreateSubmit => "submit",
            ModalAction::CreatePrevType => "prev_type",
            ModalAction::CreateNextType => "next_type",
            ModalAction::CreateToggleMode => "toggle_mode",
            ModalAction::ConfirmConfirm => "confirm",
            ModalAction::ConfirmActivate => "activate",
            ModalAction::ConfirmCancel => "cancel",
            ModalAction::ConfirmFocusConfirm => "focus_confirm",
            ModalAction::ConfirmFocusCancel => "focus_cancel",
            ModalAction::ConfirmToggleFocus => "toggle_focus",
            ModalAction::HelpClose => "close",
            ModalAction::HelpScrollDown => "scroll_down",
            ModalAction::HelpScrollUp => "scroll_up",
            ModalAction::HelpScrollRight => "scroll_right",
            ModalAction::HelpScrollLeft => "scroll_left",
            ModalAction::HelpScrollTop => "scroll_top",
            ModalAction::HelpScrollBottom => "scroll_bottom",
            ModalAction::DetailClose => "close",
            ModalAction::DetailSelectNext => "select_next",
            ModalAction::DetailSelectPrev => "select_prev",
            ModalAction::DetailAttach => "attach",
            ModalAction::DetailDetach => "detach",
            ModalAction::DetailInput => "attach_by_id",
            ModalAction::CommandLogsClose => "close",
            ModalAction::CommandLogsCopy => "copy",
            ModalAction::CommandLogsScrollDown => "scroll_down",
            ModalAction::CommandLogsScrollUp => "scroll_up",
            ModalAction::CommandLogsScrollRight => "scroll_right",
            ModalAction::CommandLogsScrollLeft => "scroll_left",
            ModalAction::CommandLogsScrollTop => "scroll_top",
            ModalAction::CommandLogsScrollBottom => "scroll_bottom",
            ModalAction::ConfigClose => "close",
            ModalAction::ConfigNextTab => "next_tab",
            ModalAction::ConfigPrevTab => "prev_tab",
            ModalAction::ConfigToggleLayer => "toggle_layer",
            ModalAction::ConfigActivate => "activate",
            ModalAction::ConfigSelectNext => "select_next",
            ModalAction::ConfigSelectPrev => "select_prev",
            ModalAction::ConfigScrollRight => "scroll_right",
            ModalAction::ConfigScrollLeft => "scroll_left",
            ModalAction::ConfigScrollTop => "scroll_top",
            ModalAction::ConfigScrollBottom => "scroll_bottom",
            ModalAction::ConfigEditSubmit => "submit",
            ModalAction::ConfigEditCancel => "cancel",
            ModalAction::ReportClose => "close",
            ModalAction::OpenMenuClose => "close",
            ModalAction::OpenMenuToggle => "toggle",
            ModalAction::OpenMenuAccept => "accept",
            ModalAction::OpenMenuIssue => "issue",
            ModalAction::OpenMenuPr => "pr",
            ModalAction::CommandPaletteClose => "close",
            ModalAction::CommandPaletteAccept => "accept",
            ModalAction::CommandPalettePrev => "prev",
            ModalAction::CommandPaletteNext => "next",
            ModalAction::LinkChooseNext => "next",
            ModalAction::LinkChoosePrev => "prev",
            ModalAction::LinkChooseIssue => "issue",
            ModalAction::LinkChoosePr => "pr",
            ModalAction::LinkChooseAccept => "accept",
            ModalAction::LinkChooseCancel => "cancel",
            ModalAction::LinkInputSubmit => "submit",
            ModalAction::LinkInputCancel => "cancel",
            ModalAction::ExecPickerNext => "next",
            ModalAction::ExecPickerPrev => "prev",
            ModalAction::ExecPickerAccept => "accept",
            ModalAction::ExecPickerCancel => "cancel",
            ModalAction::CleanNext => "next",
            ModalAction::CleanPrev => "prev",
            ModalAction::CleanConfirm => "confirm",
            ModalAction::CleanCancel => "cancel",
            ModalAction::CiChecksClose => "close",
            ModalAction::CiChecksNext => "select_next",
            ModalAction::CiChecksPrev => "select_prev",
            ModalAction::CiChecksOpen => "open",
            ModalAction::CiChecksFilter => "filter",
            ModalAction::CiChecksRefresh => "refresh",
        }
    }

    /// The keys this verb ships bound to.
    fn default_key_list(self) -> (r: Vec<KeyStroke>)
        ensures
            r@ == default_keys(self),
    {
        let r = match self {
            ModalAction::CreateCancel => vec![KeyStroke { code: KeyCode::Esc, modifiers: KeyModifiers { ctrl: false, alt: false, shift: false } }],
            ModalAction::CreateNextField => vec![KeyStroke { code: KeyCode::Tab, modifiers: KeyModifiers { ctrl: false, alt: false, shift: false } }],
            ModalAction::CreatePrevField => vec![KeyStroke { code: KeyCode::BackTab, modifiers: KeyModifiers { ctrl: false, alt: false, shift: false } }],
            ModalAction::CreateSubmit => vec![KeyStroke { code: KeyCode::Enter, modifiers: KeyModifiers { ctrl: false, alt: false, shift: false } }],
            ModalAction::CreatePrevType => vec![KeyStroke { code: KeyCode::Up, modifiers: KeyModifiers { ctrl: false, alt: false, shift: false } }, KeyStroke { code: KeyCode::Left, modifiers: KeyModifiers { ctrl: false, alt: false, shift: false } }, KeyStroke { code: KeyCode::Char('h'), modifiers: KeyModifiers { ctrl: false, alt: false, shift: false } }],
            ModalAction::CreateNextType => vec![KeyStroke { code: KeyCode::Down, modifiers: KeyModifiers { ctrl: false, alt: false, shift: false } }, KeyStroke { code: KeyCode::Right, modifiers: KeyModifiers { ctrl: false, alt: false, shift: false } }, KeyStroke { code: KeyCode::Char('l'), modifiers: KeyModifiers { ctrl: false, alt: false, shift: false } }],
            ModalAction::CreateToggleMode => vec![KeyStroke { code: KeyCode::Char('t'), modifiers: KeyModifiers { ctrl: true, alt: false, shift: false } }],
            ModalAction::ConfirmConfirm => vec![KeyStroke { code: KeyCode::Char('y'), modifiers: KeyModifiers { ctrl: false, alt: false, shift: false } }],
            ModalAction::ConfirmActivate => vec![KeyStroke { code: KeyCode::Enter, modifiers: KeyModifiers { ctrl: false, alt: false, shift: false } }],
            ModalAction::ConfirmCancel => vec![KeyStroke { code: KeyCode::Char('n'), modifiers: KeyModifiers { ctrl: false, alt: false, shift: false } }, KeyStroke { code: KeyCode::Esc, modifiers: KeyModifiers { ctrl: false, alt: false, shift: false } }],
            ModalAction::ConfirmFocusConfirm => vec![KeyStroke { code: KeyCode::Left, modifiers: KeyModifiers { ctrl: false, alt: false, shift: false } }, KeyStroke { code: KeyCode::Char('h'), modifiers: KeyModifiers { ctrl: false, alt: false, shift: false } }],
            ModalAction::ConfirmFocusCancel => vec![KeyStroke { code: KeyCode::Right, modifiers: KeyModifiers { ctrl: false, alt: false, shift: false } }, KeyStroke { code: KeyCode::Char('l'), modifiers: KeyModifiers { ctrl: false, alt: false, shift: false } }],
            ModalAction::ConfirmToggleFocus => vec![KeyStroke { code: KeyCode::Tab, modifiers: KeyModifiers { ctrl: false, alt: false, shift: false } }],
            ModalAction::HelpClose => vec![KeyStroke { code: KeyCode::Esc, modifiers: KeyModifiers { ctrl: false, alt: false, shift: false } }, KeyStroke { code: KeyCode::Char('q'), modifiers: KeyModifiers { ctrl: false, alt: false, shift: false } }, KeyStroke { code: KeyCode::Char('?'), modifiers: KeyModifiers { ctrl: false, alt: false, shift: false } }],
            ModalAction::HelpScrollDown => vec![KeyStroke { code: KeyCode::Down, modifiers: KeyModifiers { ctrl: false, alt: false, shift: false } }, KeyStroke { code: KeyCode::Char('j'), modifiers: KeyModifiers { ctrl: false, alt: false, shift: false } }],
            ModalAction::HelpScrollUp => vec![KeyStroke { code: KeyCode::Up, modifiers: KeyModifiers { ctrl: false, alt: false, shift: false } }, KeyStroke { code: KeyCode::Char('k'), modifiers: KeyModifiers { ctrl: false, alt: false, shift: false } }],
            ModalAction::HelpScrollRight => vec![KeyStroke { code: KeyCode::Right, modifiers: KeyModifiers { ctrl: false, alt: false, shift: false } }, KeyStroke { code: KeyCode::Char('l'), modifiers: KeyModifiers { ctrl: false, alt: false, shift: false } }],
            ModalAction::HelpScrollLeft => vec![KeyStroke { code: KeyCode::Left, modifiers: KeyModifiers { ctrl: false, alt: false, shift: false } }, KeyStroke { code: KeyCode::Char('h'), modifiers: KeyModifiers { ctrl: false, alt: false, shift: false } }],
            ModalAction::HelpScrollTop => vec![KeyStroke { code: KeyCode::Home, modifiers: KeyModifiers { ctrl: false, alt: false, shift: false } }, KeyStroke { code: KeyCode::Char('g'), modifiers: KeyModifiers { ctrl: false, alt: false, shift: false } }],
            ModalAction::HelpScrollBottom => vec![KeyStroke { code: KeyCode::End, modifiers: KeyModifiers { ctrl: false, alt: false, shift: false } }, KeyStroke { code: KeyCode::Char('G'), modifiers: KeyModifiers { ctrl: false, alt: false, shift: false } }],
            ModalAction::DetailClose => vec![KeyStroke { code: KeyCode::Esc, modifiers: KeyModifiers { ctrl: false, alt: false, shift: false } }, KeyStroke { code: KeyCode::Char('q'), modifiers: KeyModifiers { ctrl: false, alt: false, shift: false } }],
            ModalAction::DetailSelectNext => vec![KeyStroke { code: KeyCode::Down, modifiers: KeyModifiers { ctrl: false, alt: false, shift: false } }, KeyStroke { code: KeyCode::Char('j'), modifiers: KeyModifiers { ctrl: false, alt: false, shift: false } }],
            ModalAction::DetailSelectPrev => vec![KeyStroke { code: KeyCode::Up, modifiers: KeyModifiers { ctrl: false, alt: false, shift: false } }, KeyStroke { code: KeyCode::Char('k'), modifiers: KeyModifiers { ctrl: false, alt: false, shift: false } }],
            ModalAction::DetailAttach => vec![KeyStroke { code: KeyCode::Char('a'), modifiers: KeyModifiers { ctrl: false, alt: false, shift: false } }],
            ModalAction::DetailDetach => vec![KeyStroke { code: KeyCode::Char('d'), modifiers: KeyModifiers { ctrl: false, alt: false, shift: false } }],
            ModalAction::DetailInput => vec![KeyStroke { code: KeyCode::Char('i'), modifiers: KeyModifiers { ctrl: false, alt: false, shift: false } }],
            ModalAction::CommandLogsClose => vec![KeyStroke { code: KeyCode::Esc, modifiers: KeyModifiers { ctrl: false, alt: false, shift: false } }, KeyStroke { code: KeyCode::Char('q'), modifiers: KeyModifiers { ctrl: false, alt: false, shift: false } }],
            ModalAction::CommandLogsCopy => vec![KeyStroke { code: KeyCode::Char('y'), modifiers: KeyModifiers { ctrl: false, alt: false, shift: false } }],
            ModalAction::CommandLogsScrollDown => vec![KeyStroke { code: KeyCode::Down, modifiers: KeyModifiers { ctrl: false, alt: false, shift: false } }, KeyStroke { code: KeyCode::Char('j'), modifiers: KeyModifiers { ctrl: false, alt: false, shift: false } }],
            ModalAction::CommandLogsScrollUp => vec![KeyStroke { code: KeyCode::Up, modifiers: KeyModifiers { ctrl: false, alt: false, shift: false } }, KeyStroke { code: KeyCode::Char('k'), modifiers: KeyModifiers { ctrl: false, alt: false, shift: false } }],
            ModalAction::CommandLogsScrollRight => vec![KeyStroke { code: KeyCode::Right, modifiers: KeyModifiers { ctrl: false, alt: false, shift: false } }, KeyStroke { code: KeyCode::Char('l'), modifiers: KeyModifiers { ctrl: false, alt: false, shift: false } }],
            ModalAction::CommandLogsScrollLeft => vec![KeyStroke { code: KeyCode::Left, modifiers: KeyModifiers { ctrl: false, alt: false, shift: false } }, KeyStroke { code: KeyCode::Char('h'), modifiers: KeyModifiers { ctrl: false, alt: false, shift: false } }],
            ModalAction::CommandLogsScrollTop => vec![KeyStroke { code: KeyCode::Home, modifiers: KeyModifiers { ctrl: false, alt: false, shift: false } }, KeyStroke { code: KeyCode::Char('g'), modifiers: KeyModifiers { ctrl: false, alt: false, shift: false } }],
            ModalAction::CommandLogsScrollBottom => vec![KeyStroke { code: KeyCode::End, modifiers: KeyModifiers { ctrl: false, alt: false, shift: false } }, KeyStroke { code: KeyCode::Char('G'), modifiers: KeyModifiers { ctrl: false, alt: false, shift: false } }],
            ModalAction::ConfigClose => vec![KeyStroke { code: KeyCode::Esc, modifiers: KeyModifiers { ctrl: false, alt: false, shift: false } }, KeyStroke { code: KeyCode::Char('q'), modifiers: KeyModifiers { ctrl: false, alt: false, shift: false } }],
            ModalAction::ConfigNextTab => vec![KeyStroke { code: KeyCode::Tab, modifiers: KeyModifiers { ctrl: false, alt: false, shift: false } }],
            ModalAction::ConfigPrevTab => vec![KeyStroke { code: KeyCode::BackTab, modifiers: KeyModifiers { ctrl: false, alt: false, shift: false } }],
            ModalAction::ConfigToggleLayer => vec![KeyStroke { code: KeyCode::Char('L'), modifiers: KeyModifiers { ctrl: false, alt: false, shift: false } }],
            ModalAction::ConfigActivate => vec![KeyStroke { code: KeyCode::Char(' '), modifiers: KeyModifiers { ctrl: false, alt: false, shift: false } }, KeyStroke { code: KeyCode::Enter, modifiers: KeyModifiers { ctrl: false, alt: false, shift: false } }],
            ModalAction::ConfigSelectNext => vec![KeyStroke { code: KeyCode::Down, modifiers: KeyModifiers { ctrl: false, alt: false, shift: false } }, KeyStroke { code: KeyCode::Char('j'), modifiers: KeyModifiers { ctrl: false, alt: false, shift: false } }],
            ModalAction::ConfigSelectPrev => vec![KeyStroke { code: KeyCode::Up, modifiers: KeyModifiers { ctrl: false, alt: false, shift: false } }, KeyStroke { code: KeyCode::Char('k'), modifiers: KeyModifiers { ctrl: false, alt: false, shift: false } }],
            ModalAction::ConfigScrollRight => vec![KeyStroke { code: KeyCode::Right, modifiers: KeyModifiers { ctrl: false, alt: false, shift: false } }, KeyStroke { code: KeyCode::Char('l'), modifiers: KeyModifiers { ctrl: false, alt: false, shift: false } }],
            ModalAction::ConfigScrollLeft => vec![KeyStroke { code: KeyCode::Left, modifiers: KeyModifiers { ctrl: false, alt: false, shift: false } }, KeyStroke { code: KeyCode::Char('h'), modifiers: KeyModifiers { ctrl: false, alt: false, shift: false } }],
            ModalAction::ConfigScrollTop => vec![KeyStroke { code: KeyCode::Home, modifiers: KeyModifiers { ctrl: false, alt: false, shift: false } }, KeyStroke { code: KeyCode::Char('g'), modifiers: KeyModifiers { ctrl: false, alt: false, shift: false } }],
            ModalAction::ConfigScrollBottom => vec![KeyStroke { code: KeyCode::End, modifiers: KeyModifiers { ctrl: false, alt: false, shift: false } }, KeyStroke { code: KeyCode::Char('G'), modifiers: KeyModifiers { ctrl: false, alt: false, shift: false } }],
            ModalAction::ConfigEditSubmit => vec![KeyStroke { code: KeyCode::Enter, modifiers: KeyModifiers { ctrl: false, alt: false, shift: false } }],
            ModalAction::ConfigEditCancel => vec![KeyStroke { code: KeyCode::Esc, modifiers: KeyModifiers { ctrl: false, alt: false, shift: false } }],
            ModalAction::ReportClose => vec![KeyStroke { code: KeyCode::Esc, modifiers: KeyModifiers { ctrl: false, alt: false, shift: false } }, KeyStroke { code: KeyCode::Char('q'), modifiers: KeyModifiers { ctrl: false, alt: false, shift: false } }, KeyStroke { code: KeyCode::Enter, modifiers: KeyModifiers { ctrl: false, alt: false, shift: false } }],
            ModalAction::OpenMenuClose => vec![KeyStroke { code: KeyCode::Esc, modifiers: KeyModifiers { ctrl: false, alt: false, shift: false } }, KeyStroke { code: KeyCode::Char('q'), modifiers: KeyModifiers { ctrl: false, alt: false, shift: false } }],
            ModalAction::OpenMenuToggle => vec![KeyStroke { code: KeyCode::Char('j'), modifiers: KeyModifiers { ctrl: false, alt: false, shift: false } }, KeyStroke { code: KeyCode::Char('k'), modifiers: KeyModifiers { ctrl: false, alt: false, shift: false } }, KeyStroke { code: KeyCode::Down, modifiers: KeyModifiers { ctrl: false, alt: false, shift: false } }, KeyStroke { code: KeyCode::Up, modifiers: KeyModifiers { ctrl: false, alt: false, shift: false } }],
            ModalAction::OpenMenuAccept => vec![KeyStroke { code: KeyCode::Enter, modifiers: KeyModifiers { ctrl: false, alt: false, shift: false } }],
            ModalAction::OpenMenuIssue => vec![KeyStroke { code: KeyCode::Char('i'), modifiers: KeyModifiers { ctrl: false, alt: false, shift: false } }],
            ModalAction::OpenMenuPr => vec![KeyStroke { code: KeyCode::Char('p'), modifiers: KeyModifiers { ctrl: false, alt: false, shift: false } }],
            ModalAction::CommandPaletteClose => vec![KeyStroke { code: KeyCode::Esc, modifiers: KeyModifiers { ctrl: false, alt: false, shift: false } }],
            ModalAction::CommandPaletteAccept => vec![KeyStroke { code: KeyCode::Enter, modifiers: KeyModifiers { ctrl: false, alt: false, shift: false } }],
            ModalAction::CommandPalettePrev => vec![KeyStroke { code: KeyCode::Up, modifiers: KeyModifiers { ctrl: false, alt: false, shift: false } }],
            ModalAction::CommandPaletteNext => vec![KeyStroke { code: KeyCode::Down, modifiers: KeyModifiers { ctrl: false, alt: false, shift: false } }, KeyStroke { code: KeyCode::Tab, modifiers: KeyModifiers { ctrl: false, alt: false, shift: false } }],
            ModalAction::LinkChooseNext => vec![KeyStroke { code: KeyCode::Char('j'), modifiers: KeyModifiers { ctrl: false, alt: false, shift: false } }, KeyStroke { code: KeyCode::Down, modifiers: KeyModifiers { ctrl: false, alt: false, shift: false } }],
            ModalAction::LinkChoosePrev => vec![KeyStroke { code: KeyCode::Char('k'), modifiers: KeyModifiers { ctrl: false, alt: false, shift: false } }, KeyStroke { code: KeyCode::Up, modifiers: KeyModifiers { ctrl: false, alt: false, shift: false } }],
            ModalAction::LinkChooseIssue => vec![KeyStroke { code: KeyCode::Char('i'), modifiers: KeyModifiers { ctrl: false, alt: false, shift: false } }],
            ModalAction::LinkChoosePr => vec![KeyStroke { code: KeyCode::Char('p'), modifiers: KeyModifiers { ctrl: false, alt: false, shift: false } }],
            ModalAction::LinkChooseAccept => vec![KeyStroke { code: KeyCode::Enter, modifiers: KeyModifiers { ctrl: false, alt: false, shift: false } }],
            ModalAction::LinkChooseCancel => vec![KeyStroke { code: KeyCode::Esc, modifiers: KeyModifiers { ctrl: false, alt: false, shift: false } }],
            ModalAction::LinkInputSubmit => vec![KeyStroke { code: KeyCode::Enter, modifiers: KeyModifiers { ctrl: false, alt: false, shift: false } }],
            ModalAction::LinkInputCancel => vec![KeyStroke { code: KeyCode::Esc, modifiers: KeyModifiers { ctrl: false, alt: false, shift: false } }],
            ModalAction::ExecPickerNext => vec![KeyStroke { code: KeyCode::Char('j'), modifiers: KeyModifiers { ctrl: false, alt: false, shift: false } }, KeyStroke { code: KeyCode::Down, modifiers: KeyModifiers { ctrl: false, alt: false, shift: false } }],
            ModalAction::ExecPickerPrev => vec![KeyStroke { code: KeyCode::Char('k'), modifiers: KeyModifiers { ctrl: false, alt: false, shift: false } }, KeyStroke { code: KeyCode::Up, modifiers: KeyModifiers { ctrl: false, alt: false, shift: false } }],
            ModalAction::ExecPickerAccept => vec![KeyStroke { code: KeyCode::Enter, modifiers: KeyModifiers { ctrl: false, alt: false, shift: false } }],
            ModalAction::ExecPickerCancel => vec![KeyStroke { code: KeyCode::Esc, modifiers: KeyModifiers { ctrl: false, alt: false, shift: false } }],
            ModalAction::CleanNext => vec![KeyStroke { code: KeyCode::Char('j'), modifiers: KeyModifiers { ctrl: false, alt: false, shift: false } }, KeyStroke { code: KeyCode::Down, modifiers: KeyModifiers { ctrl: false, alt: false, shift: false } }],
            ModalAction::CleanPrev => vec![KeyStroke { code: KeyCode::Char('k'), modifiers: KeyModifiers { ctrl: false, alt: false, shift: false } }, KeyStroke { code: KeyCode::Up, modifiers: KeyModifiers { ctrl: false, alt: false, shift: false } }],
            ModalAction::CleanConfirm => vec![KeyStroke { code: KeyCode::Char('y'), modifiers: KeyModifiers { ctrl: false, alt: false, shift: false } }, KeyStroke { code: KeyCode::Enter, modifiers: KeyModifiers { ctrl: false, alt: false, shift: false } }],
            ModalAction::CleanCancel => vec![KeyStroke { code: KeyCode::Char('n'), modifiers: KeyModifiers { ctrl: false, alt: false, shift: false } }, KeyStroke { code: KeyCode::Esc, modifiers: KeyModifiers { ctrl: false, alt: false, shift: false } }],
            ModalAction::CiChecksClose => vec![KeyStroke { code: KeyCode::Esc, modifiers: KeyModifiers { ctrl: false, alt: false, shift: false } }, KeyStroke { code: KeyCode::Char('q'), modifiers: KeyModifiers { ctrl: false, alt: false, shift: false } }],
            ModalAction::CiChecksNext => vec![KeyStroke { code: KeyCode::Char('j'), modifiers: KeyModifiers { ctrl: false, alt: false, shift: false } }, KeyStroke { code: KeyCode::Down, modifiers: KeyModifiers { ctrl: false, alt: false, shift: false } }],
            ModalAction::CiChecksPrev => vec![KeyStroke { code: KeyCode::Char('k'), modifiers: KeyModifiers { ctrl: false, alt: false, shift: false } }, KeyStroke { code: KeyCode::Up, modifiers: KeyModifiers { ctrl: false, alt: false, shift: false } }],
            ModalAction::CiChecksOpen => vec![KeyStroke { code: KeyCode::Enter, modifiers: KeyModifiers { ctrl: false, alt: false, shift: false } }],
            ModalAction::CiChecksFilter => vec![KeyStroke { code: KeyCode::Char('/'), modifiers: KeyModifiers { ctrl: false, alt: false, shift: false } }],
            ModalAction::CiChecksRefresh => vec![KeyStroke { code: KeyCode::Char('f'), modifiers: KeyModifiers { ctrl: false, alt: false, shift: false } }],
        };
        proof {
            assert(r@ =~= default_keys(self));
        }
        r
    }

    /// Every verb, in declaration order.
    pub fn all() -> (r: Vec<ModalAction>)
        ensures
            r@ == all_modal_actions(),
    {
        let r = vec![
            ModalAction::CreateCancel,
            ModalAction::CreateNextField,
            ModalAction::CreatePrevField,
            ModalAction::CreateSubmit,
            ModalAction::CreatePrevType,
            ModalAction::CreateNextType,
            ModalAction::CreateToggleMode,
            ModalAction::ConfirmConfirm,
            ModalAction::ConfirmActivate,
            ModalAction::ConfirmCancel,
            ModalAction::ConfirmFocusConfirm,
            ModalAction::ConfirmFocusCancel,
            ModalAction::ConfirmToggleFocus,
            ModalAction::HelpClose,
            ModalAction::HelpScrollDown,
            ModalAction::HelpScrollUp,
            ModalAction::HelpScrollRight,
            ModalAction::HelpScrollLeft,
            ModalAction::HelpScrollTop,
            ModalAction::HelpScrollBottom,
            ModalAction::DetailClose,
            ModalAction::DetailSelectNext,
            ModalAction::DetailSelectPrev,
            ModalAction::DetailAttach,
            ModalAction::DetailDetach,
            ModalAction::DetailInput,
            ModalAction::CommandLogsClose,
            ModalAction::CommandLogsCopy,
            ModalAction::CommandLogsScrollDown,
            ModalAction::CommandLogsScrollUp,
            ModalAction::CommandLogsScrollRight,
            ModalAction::CommandLogsScrollLeft,
            ModalAction::CommandLogsScrollTop,
            ModalAction::CommandLogsScrollBottom,
            ModalAction::ConfigClose,
            ModalAction::ConfigNextTab,
            ModalAction::ConfigPrevTab,
            ModalAction::ConfigToggleLayer,
            ModalAction::ConfigActivate,
            ModalAction::ConfigSelectNext,
            ModalAction::ConfigSelectPrev,
            ModalAction::ConfigScrollRight,
            ModalAction::ConfigScrollLeft,
            ModalAction::ConfigScrollTop,
            ModalAction::ConfigScrollBottom,
            ModalAction::ConfigEditSubmit,
            ModalAction::ConfigEditCancel,
            ModalAction::ReportClose,
            ModalAction::OpenMenuClose,
            ModalAction::OpenMenuToggle,
            ModalAction::OpenMenuAccept,
            ModalAction::OpenMenuIssue,
            ModalAction::OpenMenuPr,
            ModalAction::CommandPaletteClose,
            ModalAction::CommandPaletteAccept,
            ModalAction::CommandPalettePrev,
            ModalAction::CommandPaletteNext,
            ModalAction::LinkChooseNext,
            ModalAction::LinkChoosePrev,
            ModalAction::LinkChooseIssue,
            ModalAction::LinkChoosePr,
            ModalAction::LinkChooseAccept,
            ModalAction::LinkChooseCancel,
            ModalAction::LinkInputSubmit,
            ModalAction::LinkInputCancel,
            ModalAction::ExecPickerNext,
            ModalAction::ExecPickerPrev,
            ModalAction::ExecPickerAccept,
            ModalAction::ExecPickerCancel,
            ModalAction::CleanNext,
            ModalAction::CleanPrev,
            ModalAction::CleanConfirm,
            ModalAction::CleanCancel,
            ModalAction::CiChecksClose,
            ModalAction::CiChecksNext,
            ModalAction::CiChecksPrev,
            ModalAction::CiChecksOpen,
            ModalAction::CiChecksFilter,
            ModalAction::CiChecksRefresh,
        ];
        proof {
            assert(r@ =~= all_modal_actions());
        }
        r
    }

    /// The verb `verb` of context `ctx`, if there is one.
    pub fn from_context_verb(ctx: KeyContext, verb: &str) -> (r: Option<ModalAction>)
        ensures
            match r {
                Some(a) => action_context(a) == ctx && action_verb(a) == verb@ && exists|i: int|
                    0 <= i < all_modal_actions().len() && all_modal_actions()[i] == a && forall|j: int|
                        0 <= j < i ==> !(action_context(#[trigger] all_modal_actions()[j]) == ctx && action_verb(
                            all_modal_actions()[j],
                        ) == verb@),
                None => forall|i: int|
                    0 <= i < all_modal_actions().len() ==> !(action_context(#[trigger] all_modal_actions()[i]) == ctx
                        && action_verb(all_modal_actions()[i]) == verb@),
            },
    {
        let all = ModalAction::all();
        let mut i: usize = 0;
        while i < all.len()
            invariant
                all@ == all_modal_actions(),
                i <= all@.len(),
                forall|j: int|
                    0 <= j < i ==> !(action_context(#[trigger] all_modal_actions()[j]) == ctx && action_verb(
                        all_modal_actions()[j],
                    ) == verb@),
            decreases all.len() - i,
        {
            if all[i].context() == ctx && str_eq(all[i].verb(), verb) {
                return Some(all[i]);
            }
            i += 1;
        }
        None
    }

    /// Whether binding this verb to `stroke` would leave it unreachable.
    pub fn reserved_typing_stroke(self, stroke: &KeyStroke) -> (r: bool)
        ensures
            r == action_reserves(self, *stroke),
    {
        if self.context().reserved_typing_stroke(stroke) {
            return true;
        }
        let create_text = match self {
            ModalAction::CreateSubmit | ModalAction::CreateCancel | ModalAction::CreateNextField
            | ModalAction::CreatePrevField | ModalAction::CreateToggleMode => true,
            _ => false,
        };
        create_text && !(stroke.modifiers.ctrl || stroke.modifiers.alt) && match stroke.code {
            KeyCode::Char(_) | KeyCode::Backspace => true,
            _ => false,
        }
    }
}

/// Why a modal binding was refused.
#[derive(Debug, Clone, PartialEq, Eq)]
pub enum ModalKeymapError {
    /// The key string does not parse.
    Parse(KeymapError),
    /// A chord of several keystrokes: modals bind single keys only.
    NotSingle { text: String },
    /// `Ctrl+C`, the emergency quit, handled before any modal lookup.
    CtrlC { text: String },
    /// A key the context's typing takes first.
    Reserved { context: KeyContext, key: KeyStroke, action: ModalAction },
    /// A key another verb of the same context keeps.
    Conflict { context: KeyContext, key: KeyStroke, previous: ModalAction, action: ModalAction },
}

/// `Ctrl+C` in either case.
pub open spec fn is_ctrl_c(k: KeyStroke) -> bool {
    k.modifiers.ctrl && (k.code == KeyCode::Char('c') || k.code == KeyCode::Char('C'))
}

/// What parsing a modal binding gives: the single keystroke of `s`; the
/// chord's own error; a refusal of several keystrokes; or of `Ctrl+C`.
pub open spec fn single_outcome(s: Seq<char>, r: Result<KeyStroke, ModalKeymapError>) -> bool {
    match r {
        Ok(k) => exists|v: Vec<KeyStroke>| #[trigger] chord_outcome(s, Ok(v)) && v@.len() == 1 && v@[0] == k && !is_ctrl_c(k),
        Err(ModalKeymapError::Parse(e)) => chord_outcome(s, Err(e)),
        Err(ModalKeymapError::NotSingle { text }) => text@ == s && exists|v: Vec<KeyStroke>|
            #[trigger] chord_outcome(s, Ok(v)) && v@.len() != 1,
        Err(ModalKeymapError::CtrlC { text }) => text@ == s && exists|v: Vec<KeyStroke>|
            #[trigger] chord_outcome(s, Ok(v)) && v@.len() == 1 && is_ctrl_c(v@[0]),
        _ => false,
    }
}

/// Parse a modal binding, which must be exactly one keystroke.
pub fn parse_single(s: &str) -> (r: Result<KeyStroke, ModalKeymapError>)
    ensures
        single_outcome(s@, r),
{
    let strokes = match KeyStroke::parse_chord(s) {
        Ok(v) => v,
        Err(e) => return Err(ModalKeymapError::Parse(e)),
    };
    if strokes.len() != 1 {
        return Err(ModalKeymapError::NotSingle { text: string_of(chars_of(s).as_slice()) });
    }
    let stroke = strokes[0];
    if stroke.modifiers.ctrl && (stroke.code == KeyCode::Char('c') || stroke.code == KeyCode::Char('C')) {
        return Err(ModalKeymapError::CtrlC { text: string_of(chars_of(s).as_slice()) });
    }
    Ok(stroke)
}

/// One verb's keys.
#[derive(Debug, Clone)]
pub struct ModalBinding {
    pub action: ModalAction,
    /// Each key alone fires the verb.
    pub keys: Vec<KeyStroke>,
    pub source: Source,
}

/// A binding as the contracts see it.
pub struct ModalBindingView {
    pub action: ModalAction,
    pub keys: Seq<KeyStroke>,
    pub source: Source,
}

pub open spec fn modal_view(b: ModalBinding) -> ModalBindingView {
    ModalBindingView { action: b.action, keys: b.keys@, source: b.source }
}

/// Whether binding `b` in `ctx`, for a verb other than `a`, still keeps
/// key `k` once the override claims `claimed`: a shipped default gives up
/// any key the override claims.
pub open spec fn keeps(b: ModalBindingView, ctx: KeyContext, a: ModalAction, claimed: Seq<KeyStroke>, k: KeyStroke) -> bool {
    action_context(b.action) == ctx && b.action != a && b.keys.contains(k) && !(b.source == Source::Default
        && claimed.contains(k))
}

/// The verb that keeps `k` against an override of `a`: the last binding,
/// in order, that does.
pub open spec fn holder(es: Seq<ModalBindingView>, a: ModalAction, claimed: Seq<KeyStroke>, k: KeyStroke, i: int) -> bool {
    0 <= i < es.len() && keeps(es[i], action_context(a), a, claimed, k) && forall|j: int|
        i < j < es.len() ==> !keeps(#[trigger] es[j], action_context(a), a, claimed, k)
}

pub open spec fn kept_by_some(es: Seq<ModalBindingView>, a: ModalAction, claimed: Seq<KeyStroke>, k: KeyStroke) -> bool {
    exists|i: int| 0 <= i < es.len() && keeps(#[trigger] es[i], action_context(a), a, claimed, k)
}

/// The keymap after an accepted override of `a` with `keys`: same-context
/// defaults give up the claimed keys, and `a` takes `keys` as a user
/// binding (appended when it had no entry).
pub open spec fn modal_overridden(es: Seq<ModalBindingView>, a: ModalAction, keys: Seq<KeyStroke>) -> Seq<ModalBindingView> {
    let vacated = es.map_values(
        |b: ModalBindingView|
            if b.action == a {
                ModalBindingView { action: a, keys: keys, source: Source::UserConfig }
            } else if action_context(b.action) == action_context(a) && b.source == Source::Default {
                ModalBindingView { keys: b.keys.filter(|k: KeyStroke| !keys.contains(k)), ..b }
            } else {
                b
            },
    );
    if exists|i: int| 0 <= i < es.len() && #[trigger] es[i].action == a {
        vacated
    } else {
        vacated.push(ModalBindingView { action: a, keys: keys, source: Source::UserConfig })
    }
}

/// What overriding `a` with `keys` does: refuse the first key (in order)
/// that the typing of its context takes, else the first key another verb
/// of the context keeps (naming the verb that keeps it), else accept.
pub open spec fn override_outcome(
    es: Seq<ModalBindingView>,
    a: ModalAction,
    keys: Seq<KeyStroke>,
    r: Result<(), ModalKeymapError>,
) -> bool {
    match r {
        Ok(_) => (forall|q: int| 0 <= q < keys.len() ==> !action_reserves(a, #[trigger] keys[q])) && (forall|q: int|
            0 <= q < keys.len() ==> !kept_by_some(es, a, keys, #[trigger] keys[q])),
        Err(ModalKeymapError::Reserved { context, key, action }) => exists|q: int|
            0 <= q < keys.len() && action_reserves(a, #[trigger] keys[q]) && (forall|p: int| 0 <= p < q ==> !action_reserves(a, #[trigger] keys[p]))
                && context == action_context(a) && key == keys[q] && action == a,
        Err(ModalKeymapError::Conflict { context, key, previous, action }) => (forall|p: int|
            0 <= p < keys.len() ==> !action_reserves(a, #[trigger] keys[p])) && exists|q: int, i: int|
            0 <= q < keys.len() && #[trigger] holder(es, a, keys, keys[q], i) && (forall|p: int|
                0 <= p < q ==> !kept_by_some(es, a, keys, #[trigger] keys[p])) && context == action_context(a) && key
                == keys[q] && previous == es[i].action && action == a,
        _ => false,
    }
}

/// The contextual keymap: every modal verb with its keys.
#[derive(Debug, Clone)]
pub struct ModalKeymap {
    entries: Vec<ModalBinding>,
}

fn copy_keys(v: &Vec<KeyStroke>) -> (r: Vec<KeyStroke>)
    ensures
        r@ == v@,
{
    let mut out: Vec<KeyStroke> = Vec::new();
    let mut i: usize = 0;
    while i < v.len()
        invariant
            i <= v@.len(),
            out@ == v@.take(i as int),
        decreases v.len() - i,
    {
        out.push(v[i]);
        proof {
            assert(v@.take(i + 1) =~= v@.take(i as int).push(v@[i as int]));
        }
        i += 1;
    }
    proof {
        assert(v@.take(v@.len() as int) =~= v@);
    }
    out
}

fn has_key(v: &Vec<KeyStroke>, k: KeyStroke) -> (r: bool)
    ensures
        r == v@.contains(k),
{
    let mut i: usize = 0;
    while i < v.len()
        invariant
            i <= v@.len(),
            forall|j: int| 0 <= j < i ==> v@[j] != k,
        decreases v.len() - i,
    {
        if v[i] == k {
            return true;
        }
        i += 1;
    }
    false
}

/// `v` without the keys in `claimed`, order kept.
fn without(v: &Vec<KeyStroke>, claimed: &Vec<KeyStroke>) -> (r: Vec<KeyStroke>)
    ensures
        r@ == v@.filter(|k: KeyStroke| !claimed@.contains(k)),
{
    let mut out: Vec<KeyStroke> = Vec::new();
    let mut i: usize = 0;
    while i < v.len()
        invariant
            i <= v@.len(),
            out@ == v@.take(i as int).filter(|k: KeyStroke| !claimed@.contains(k)),
        decreases v.len() - i,
    {
        proof {
            assert(v@.take(i + 1) =~= v@.take(i as int).push(v@[i as int]));
            v@.take(i as int).lemma_filter_push(v@[i as int], |k: KeyStroke| !claimed@.contains(k));
        }
        if !has_key(claimed, v[i]) {
            out.push(v[i]);
        }
        i += 1;
    }
    proof {
        assert(v@.take(v@.len() as int) =~= v@);
    }
    out
}

impl ModalKeymap {
    pub closed spec fn view(&self) -> Seq<ModalBindingView> {
        self.entries@.map_values(|b: ModalBinding| modal_view(b))
    }

    /// No verb has two entries.
    pub open spec fn wf(&self) -> bool {
        forall|i: int, j: int| 0 <= i < j < self.view().len() ==> #[trigger] self.view()[i].action != #[trigger] self.view()[j].action
    }

    /// Every verb with its shipped keys, in declaration order.
    pub fn defaults() -> (r: ModalKeymap)
        ensures
            r.wf(),
            r.view().len() == all_modal_actions().len(),
            forall|i: int|
                0 <= i < r.view().len() ==> (#[trigger] r.view()[i]).action == all_modal_actions()[i] && r.view()[i].keys
                    == default_keys(all_modal_actions()[i]) && r.view()[i].source == Source::Default,
    {
        let all = ModalAction::all();
        let mut entries: Vec<ModalBinding> = Vec::new();
        let mut i: usize = 0;
        while i < all.len()
            invariant
                all@ == all_modal_actions(),
                i <= all@.len(),
                entries@.len() == i,
                forall|k: int|
                    0 <= k < i ==> (#[trigger] entries@[k]).action == all_modal_actions()[k] && entries@[k].keys@
                        == default_keys(all_modal_actions()[k]) && entries@[k].source == Source::Default,
            decreases all.len() - i,
        {
            let a = all[i];
            entries.push(ModalBinding { action: a, keys: a.default_key_list(), source: Source::Default });
            i += 1;
        }
        let r = ModalKeymap { entries };
        proof {
            assert forall|p: int, q: int| 0 <= p < q < r.view().len() implies #[trigger] r.view()[p].action != #[trigger] r.view()[q].action by {
                assert(r.view()[p].action == all_modal_actions()[p]);
                assert(r.view()[q].action == all_modal_actions()[q]);
            }
        }
        r
    }

    /// The verb of another binding that keeps `k` against an override of
    /// `action` claiming `claimed` (the last such binding).
    fn holder_of(&self, action: ModalAction, claimed: &Vec<KeyStroke>, k: KeyStroke) -> (r: Option<ModalAction>)
        ensures
            match r {
                Some(b) => exists|i: int| #[trigger] holder(self.view(), action, claimed@, k, i) && self.view()[i].action == b,
                None => !kept_by_some(self.view(), action, claimed@, k),
            },
    {
        let ghost es = self.view();
        let ctx = action.context();
        let mut found: Option<ModalAction> = None;
        let ghost mut at: int = -1;
        let mut i: usize = 0;
        while i < self.entries.len()
            invariant
                es == self.view(),
                ctx == action_context(action),
                i <= es.len(),
                found is None ==> forall|j: int| 0 <= j < i ==> !keeps(#[trigger] es[j], ctx, action, claimed@, k),
                found is Some ==> 0 <= at < i && keeps(es[at], ctx, action, claimed@, k) && es[at].action == found->0
                    && forall|j: int| at < j < i ==> !keeps(#[trigger] es[j], ctx, action, claimed@, k),
            decreases self.entries.len() - i,
        {
            let b = &self.entries[i];
            proof {
                assert(es[i as int] == modal_view(self.entries@[i as int]));
            }
            let hit = b.action.context() == ctx && b.action != action && has_key(&b.keys, k) && !(b.source
                == Source::Default && has_key(claimed, k));
            if hit {
                found = Some(b.action);
                proof {
                    at = i as int;
                }
            }
            i += 1;
        }
        proof {
            if found is Some {
                assert(holder(es, action, claimed@, k, at));
            } else {
                assert(!kept_by_some(es, action, claimed@, k)) by {
                    if kept_by_some(es, action, claimed@, k) {
                        let j = choose|j: int| 0 <= j < es.len() && keeps(#[trigger] es[j], action_context(action), action, claimed@, k);
                    }
                }
            }
        }
        found
    }

    /// Replace `action`'s keys with `keys` (an empty list unbinds it).
    /// Refused, with the keymap untouched, when the context's typing takes
    /// one of the keys, or another verb of the same context keeps one (a
    /// shipped default gives up a key the override claims; another user
    /// binding does not).
    pub fn apply_override(&mut self, action: ModalAction, keys: Vec<KeyStroke>) -> (r: Result<(), ModalKeymapError>)
        requires
            old(self).wf(),
        ensures
            final(self).wf(),
            override_outcome(old(self).view(), action, keys@, r),
            r is Ok ==> final(self).view() == modal_overridden(old(self).view(), action, keys@),
            r is Err ==> final(self).view() == old(self).view(),
    {
        let ghost es = self.view();
        let ctx = action.context();
        let mut q: usize = 0;
        while q < keys.len()
            invariant
                es == self.view(),
                self.wf(),
                ctx == action_context(action),
                q <= keys@.len(),
                forall|p: int| 0 <= p < q ==> !action_reserves(action, #[trigger] keys@[p]),
            decreases keys.len() - q,
        {
            if action.reserved_typing_stroke(&keys[q]) {
                proof {
                    assert(action_reserves(action, keys@[q as int]));
                }
                return Err(ModalKeymapError::Reserved { context: ctx, key: keys[q], action });
            }
            q += 1;
        }
        let mut q2: usize = 0;
        while q2 < keys.len()
            invariant
                es == self.view(),
                self.wf(),
                ctx == action_context(action),
                q2 <= keys@.len(),
                forall|p: int| 0 <= p < keys@.len() ==> !action_reserves(action, #[trigger] keys@[p]),
                forall|p: int| 0 <= p < q2 ==> !kept_by_some(es, action, keys@, #[trigger] keys@[p]),
            decreases keys.len() - q2,
        {
            match self.holder_of(action, &keys, keys[q2]) {
                Some(prev) => {
                    proof {
                        let i = choose|i: int| #[trigger] holder(es, action, keys@, keys@[q2 as int], i) && es[i].action == prev;
                        assert(holder(es, action, keys@, keys@[q2 as int], i));
                    }
                    return Err(ModalKeymapError::Conflict { context: ctx, key: keys[q2], previous: prev, action });
                },
                None => {},
            }
            q2 += 1;
        }
        let mut next: Vec<ModalBinding> = Vec::new();
        let mut found = false;
        let mut i: usize = 0;
        while i < self.entries.len()
            invariant
                es == self.view(),
                ctx == action_context(action),
                i <= es.len(),
                next@.len() == i,
                forall|k: int|
                    0 <= k < i ==> modal_view(#[trigger] next@[k]) == (if es[k].action == action {
                        ModalBindingView { action, keys: keys@, source: Source::UserConfig }
                    } else if action_context(es[k].action) == ctx && es[k].source == Source::Default {
                        ModalBindingView { keys: es[k].keys.filter(|x: KeyStroke| !keys@.contains(x)), ..es[k] }
                    } else {
                        es[k]
                    }),
                found == exists|k: int| 0 <= k < i && #[trigger] es[k].action == action,
            decreases self.entries.len() - i,
        {
            let b = &self.entries[i];
            proof {
                assert(es[i as int] == modal_view(self.entries@[i as int]));
            }
            if b.action == action {
                next.push(ModalBinding { action, keys: copy_keys(&keys), source: Source::UserConfig });
                found = true;
                proof {
                    assert(es[i as int].action == action);
                }
            } else if b.action.context() == ctx && b.source == Source::Default {
                next.push(ModalBinding { action: b.action, keys: without(&b.keys, &keys), source: b.source });
                proof {
                    assert(es[i as int].action != action);
                }
            } else {
                next.push(ModalBinding { action: b.action, keys: copy_keys(&b.keys), source: b.source });
                proof {
                    assert(es[i as int].action != action);
                }
            }
            i += 1;
        }
        if !found {
            next.push(ModalBinding { action, keys: copy_keys(&keys), source: Source::UserConfig });
        }
        self.entries = next;
        proof {
            let got = self.view();
            assert(got =~= modal_overridden(es, action, keys@));
            assert forall|p: int, r: int| 0 <= p < r < got.len() implies #[trigger] got[p].action != #[trigger] got[r].action by {
                if r < es.len() {
                    assert(got[p].action == es[p].action);
                    assert(got[r].action == es[r].action);
                } else {
                    assert(got[p].action == es[p].action);
                }
            }
        }
        Ok(())
    }

    /// The verb `stroke` fires in `ctx`: the first binding of the context
    /// that holds it.
    pub fn resolve(&self, ctx: KeyContext, stroke: &KeyStroke) -> (r: Option<ModalAction>)
        ensures
            match r {
                Some(a) => exists|i: int|
                    0 <= i < self.view().len() && action_context(self.view()[i].action) == ctx && self.view()[i].keys.contains(*stroke)
                        && self.view()[i].action == a && forall|j: int|
                        0 <= j < i ==> !(action_context(#[trigger] self.view()[j].action) == ctx && self.view()[j].keys.contains(*stroke)),
                None => forall|i: int|
                    0 <= i < self.view().len() ==> !(action_context(#[trigger] self.view()[i].action) == ctx && self.view()[i].keys.contains(*stroke)),
            },
    {
        let ghost es = self.view();
        let mut i: usize = 0;
        while i < self.entries.len()
            invariant
                es == self.view(),
                i <= es.len(),
                forall|j: int| 0 <= j < i ==> !(action_context(#[trigger] es[j].action) == ctx && es[j].keys.contains(*stroke)),
            decreases self.entries.len() - i,
        {
            let b = &self.entries[i];
            proof {
                assert(es[i as int] == modal_view(self.entries@[i as int]));
            }
            if b.action.context() == ctx && has_key(&b.keys, *stroke) {
                return Some(b.action);
            }
            i += 1;
        }
        None
    }

    /// The bindings of `ctx`, in declaration order.
    pub fn bindings_for(&self, ctx: KeyContext) -> (r: Vec<ModalBinding>)
        ensures
            r@.map_values(|b: ModalBinding| modal_view(b)) == self.view().filter(
                |b: ModalBindingView| action_context(b.action) == ctx,
            ),
    {
        let ghost es = self.view();
        let mut out: Vec<ModalBinding> = Vec::new();
        let mut i: usize = 0;
        while i < self.entries.len()
            invariant
                es == self.view(),
                i <= es.len(),
                out@.map_values(|b: ModalBinding| modal_view(b)) == es.take(i as int).filter(
                    |b: ModalBindingView| action_context(b.action) == ctx,
                ),
            decreases self.entries.len() - i,
        {
            let b = &self.entries[i];
            let ghost before = out@;
            proof {
                assert(es[i as int] == modal_view(self.entries@[i as int]));
                assert(es.take(i + 1) =~= es.take(i as int).push(es[i as int]));
                es.take(i as int).lemma_filter_push(es[i as int], |b: ModalBindingView| action_context(b.action) == ctx);
            }
            if b.action.context() == ctx {
                let c = ModalBinding { action: b.action, keys: copy_keys(&b.keys), source: b.source };
                out.push(c);
                proof {
                    assert(out@.map_values(|b: ModalBinding| modal_view(b)) =~= before.map_values(|b: ModalBinding| modal_view(b)).push(modal_view(c)));
                }
            }
            i += 1;
        }
        proof {
            assert(es.take(es.len() as int) =~= es);
        }
        out
    }

    /// Every binding, in declaration order.
    pub fn list(&self) -> (r: &[ModalBinding])
        ensures
            r@.map_values(|b: ModalBinding| modal_view(b)) == self.view(),
    {
        self.entries.as_slice()
    }

    /// The first key bound to `action`, written out; `None` when it is
    /// unbound.
    pub fn primary_key(&self, action: ModalAction) -> (r: Option<String>)
        ensures
            match r {
                Some(t) => exists|i: int|
                    0 <= i < self.view().len() && self.view()[i].action == action && self.view()[i].keys.len() > 0 && t@
                        == stroke_text(self.view()[i].keys[0]) && forall|j: int|
                        0 <= j < i ==> #[trigger] self.view()[j].action != action,
                None => forall|i: int|
                    0 <= i < self.view().len() && #[trigger] self.view()[i].action == action ==> (exists|j: int|
                        0 <= j < i && self.view()[j].action == action) || self.view()[i].keys.len() == 0,
            },
    {
        let ghost es = self.view();
        let mut i: usize = 0;
        while i < self.entries.len()
            invariant
                es == self.view(),
                i <= es.len(),
                forall|j: int| 0 <= j < i ==> #[trigger] es[j].action != action,
            decreases self.entries.len() - i,
        {
            proof {
                assert(es[i as int] == modal_view(self.entries@[i as int]));
            }
            if self.entries[i].action == action {
                if self.entries[i].keys.len() > 0 {
                    return Some(self.entries[i].keys[0].to_text());
                }
                return None;
            }
            i += 1;
        }
        None
    }

    /// Every key bound to `action`, comma-separated; empty when unbound.
    pub fn keys_display(&self, action: ModalAction) -> (r: String)
        ensures
            (exists|i: int| 0 <= i < self.view().len() && self.view()[i].action == action && r@ == keys_text(self.view()[i].keys)
                && forall|j: int| 0 <= j < i ==> #[trigger] self.view()[j].action != action) || (r@.len() == 0 && forall|i: int|
                0 <= i < self.view().len() ==> #[trigger] self.view()[i].action != action),
    {
        let ghost es = self.view();
        let mut i: usize = 0;
        while i < self.entries.len()
            invariant
                es == self.view(),
                i <= es.len(),
                forall|j: int| 0 <= j < i ==> #[trigger] es[j].action != action,
            decreases self.entries.len() - i,
        {
            proof {
                assert(es[i as int] == modal_view(self.entries@[i as int]));
            }
            if self.entries[i].action == action {
                return join_keys(&self.entries[i].keys);
            }
            i += 1;
        }
        String::new()
    }
}

/// Keys written out and separated by `", "`.
pub open spec fn keys_text(ks: Seq<KeyStroke>) -> Seq<char>
    decreases ks.len(),
{
    if ks.len() == 0 {
        Seq::empty()
    } else if ks.len() == 1 {
        stroke_text(ks[0])
    } else {
        keys_text(ks.drop_last()) + ", "@ + stroke_text(ks.last())
    }
}

fn join_keys(ks: &Vec<KeyStroke>) -> (r: String)
    ensures
        r@ == keys_text(ks@),
{
    let mut out: Vec<char> = Vec::new();
    let mut i: usize = 0;
    while i < ks.len()
        invariant
            i <= ks@.len(),
            out@ == keys_text(ks@.take(i as int)),
        decreases ks.len() - i,
    {
        proof {
            assert(ks@.take(i + 1).drop_last() =~= ks@.take(i as int));
        }
        let t = chars_of(ks[i].to_text().as_str());
        let ghost before = out@;
        if i > 0 {
            out.push(',');
            out.push(' ');
            proof {
                reveal_strlit(", ");
                assert(out@ =~= before + ", "@);
            }
        }
        let ghost mid = out@;
        let mut k: usize = 0;
        while k < t.len()
            invariant
                k <= t@.len(),
                out@ == mid + t@.take(k as int),
            decreases t.len() - k,
        {
            out.push(t[k]);
            proof {
                assert(t@.take(k + 1) =~= t@.take(k as int).push(t@[k as int]));
            }
            k += 1;
        }
        proof {
            assert(t@.take(t@.len() as int) =~= t@);
            if i == 0 {
                assert(out@ =~= stroke_text(ks@[0]));
            }
        }
        i += 1;
    }
    proof {
        assert(ks@.take(ks@.len() as int) =~= ks@);
    }
    string_of(out.as_slice())
}

impl Default for ModalKeymap {
    fn default() -> (r: ModalKeymap)
        ensures
            r.wf(),
            r.view().len() == all_modal_actions().len(),
    {
        ModalKeymap::defaults()
    }
}

/// In `es`, key `k` fires verb `a` in context `ctx`: some binding of the
/// context holds it, and every one that does is `a`'s.
pub open spec fn resolves_to(es: Seq<ModalBindingView>, ctx: KeyContext, k: KeyStroke, a: ModalAction) -> bool {
    &&& exists|i: int| 0 <= i < es.len() && action_context(#[trigger] es[i].action) == ctx && es[i].keys.contains(k)
    &&& forall|i: int|
        0 <= i < es.len() && action_context(#[trigger] es[i].action) == ctx && es[i].keys.contains(k) ==> es[i].action == a
}

/// After an accepted override, every key of the override fires the
/// overridden verb in its context.
pub proof fn law_override_then_resolve(es: Seq<ModalBindingView>, a: ModalAction, keys: Seq<KeyStroke>, q: int)
    requires
        override_outcome(es, a, keys, Ok(())),
        0 <= q < keys.len(),
    ensures
        resolves_to(modal_overridden(es, a, keys), action_context(a), keys[q], a),
{
    let e = modal_overridden(es, a, keys);
    let k = keys[q];
    let ctx = action_context(a);
    assert(!kept_by_some(es, a, keys, keys[q]));
    assert forall|i: int| 0 <= i < e.len() && action_context(#[trigger] e[i].action) == ctx && e[i].keys.contains(k) implies e[i].action == a by {
        if i < es.len() && es[i].action != a {
            if es[i].source == Source::Default {
                let f = es[i].keys.filter(|x: KeyStroke| !keys.contains(x));
                assert(e[i].keys == f);
                let w = choose|w: int| 0 <= w < f.len() && f[w] == k;
                es[i].keys.filter_lemma(|x: KeyStroke| !keys.contains(x));
                assert(!keys.contains(f[w]));
                assert(keys[q] == k);
            } else {
                assert(e[i] == es[i]);
                assert(keeps(es[i], ctx, a, keys, k));
            }
        }
    }
    if exists|i: int| 0 <= i < es.len() && #[trigger] es[i].action == a {
        let i = choose|i: int| 0 <= i < es.len() && #[trigger] es[i].action == a;
        assert(e[i].keys == keys);
        assert(e[i].keys[q] == k);
        assert(action_context(e[i].action) == ctx && e[i].keys.contains(k));
    } else {
        let i = es.len() as int;
        assert(e[i].keys == keys);
        assert(e[i].keys[q] == k);
        assert(action_context(e[i].action) == ctx && e[i].keys.contains(k));
    }
}

/// The context a config path names, if any.
pub open spec fn context_of_path(p: Seq<char>) -> Option<KeyContext> {
    if p == "create"@ {
        Some(KeyContext::Create)
    } else if p == "confirm"@ {
        Some(KeyContext::Confirm)
    } else if p == "help"@ {
        Some(KeyContext::Help)
    } else if p == "detail"@ {
        Some(KeyContext::Detail)
    } else if p == "command_logs"@ {
        Some(KeyContext::CommandLogs)
    } else if p == "config"@ {
        Some(KeyContext::Config)
    } else if p == "config.edit"@ {
        Some(KeyContext::ConfigEdit)
    } else if p == "report"@ {
        Some(KeyContext::Report)
    } else if p == "open_menu"@ {
        Some(KeyContext::OpenMenu)
    } else if p == "palette"@ {
        Some(KeyContext::CommandPalette)
    } else if p == "link.choose_target"@ {
        Some(KeyContext::LinkChooseTarget)
    } else if p == "link.input_number"@ {
        Some(KeyContext::LinkInputNumber)
    } else if p == "exec"@ {
        Some(KeyContext::ExecPicker)
    } else if p == "clean"@ {
        Some(KeyContext::Clean)
    } else if p == "ci_checks"@ {
        Some(KeyContext::CiChecks)
    } else {
        None
    }
}

/// Each context's config path names that context and no other:
/// `from_config_path` inverts `config_path`.
pub proof fn law_config_path_roundtrip(c: KeyContext)
    ensures
        context_of_path(context_path(c)) == Some(c),
        forall|d: KeyContext| context_path(d) == context_path(c) ==> d == c,
{
    lemma_context_path_inverse(c);
    assert forall|d: KeyContext| context_path(d) == context_path(c) implies d == c by {
        lemma_context_path_inverse(d);
    }
}

proof fn lemma_context_path_inverse(c: KeyContext)
    ensures
        context_of_path(context_path(c)) == Some(c),
{
    reveal_strlit("create");
    reveal_strlit("confirm");
    reveal_strlit("help");
    reveal_strlit("detail");
    reveal_strlit("command_logs");
    reveal_strlit("config");
    reveal_strlit("config.edit");
    reveal_strlit("report");
    reveal_strlit("open_menu");
    reveal_strlit("palette");
    reveal_strlit("link.choose_target");
    reveal_strlit("link.input_number");
    reveal_strlit("exec");
    reveal_strlit("clean");
    reveal_strlit("ci_checks");
    match c {
        KeyContext::Create => {
            assert(context_path(c) == "create"@);
            assert(context_of_path("create"@) == Some(KeyContext::Create));
        },
        KeyContext::Confirm => {
            assert(context_path(c) == "confirm"@);
        },
        KeyContext::Help => {
            assert(context_path(c) == "help"@);
        },
        KeyContext::Detail => {
            assert(context_path(c) == "detail"@);
            assert("detail"@[0] != "create"@[0]);
        },
        KeyContext::CommandLogs => {
            assert(context_path(c) == "command_logs"@);
        },
        KeyContext::Config => {
            assert(context_path(c) == "config"@);
            assert("config"@[1] != "create"@[1]);
            assert("config"@[0] != "detail"@[0]);
        },
        KeyContext::ConfigEdit => {
            assert(context_path(c) == "config.edit"@);
        },
        KeyContext::Report => {
            assert(context_path(c) == "report"@);
            assert("report"@[0] != "create"@[0]);
            assert("report"@[0] != "detail"@[0]);
            assert("report"@[0] != "config"@[0]);
        },
        KeyContext::OpenMenu => {
            assert(context_path(c) == "open_menu"@);
        },
        KeyContext::CommandPalette => {
            assert(context_path(c) == "palette"@);
            assert("palette"@[0] != "confirm"@[0]);
        },
        KeyContext::LinkChooseTarget => {
            assert(context_path(c) == "link.choose_target"@);
        },
        KeyContext::LinkInputNumber => {
            assert(context_path(c) == "link.input_number"@);
        },
        KeyContext::ExecPicker => {
            assert(context_path(c) == "exec"@);
            assert("exec"@[0] != "help"@[0]);
        },
        KeyContext::Clean => {
            assert(context_path(c) == "clean"@);
        },
        KeyContext::CiChecks => {
            assert(context_path(c) == "ci_checks"@);
            assert("ci_checks"@[0] != "open_menu"@[0]);
        },
    }
}

/// The verb of context `ctx` spelt `v`, if there is one.
pub open spec fn verb_in_context(ctx: KeyContext, v: Seq<char>) -> Option<ModalAction> {
    match ctx {
        KeyContext::Create => {
            if v == "cancel"@ {
                Some(ModalAction::CreateCancel)
            } else if v == "next_field"@ {
                Some(ModalAction::CreateNextField)
            } else if v == "prev_field"@ {
                Some(ModalAction::CreatePrevField)
            } else if v == "submit"@ {
                Some(ModalAction::CreateSubmit)
            } else if v == "prev_type"@ {
                Some(ModalAction::CreatePrevType)
            } else if v == "next_type"@ {
                Some(ModalAction::CreateNextType)
            } else if v == "toggle_mode"@ {
                Some(ModalAction::CreateToggleMode)
            } else {
                None
            }
        },
        KeyContext::Confirm => {
            if v == "confirm"@ {
                Some(ModalAction::ConfirmConfirm)
            } else if v == "activate"@ {
                Some(ModalAction::ConfirmActivate)
            } else if v == "cancel"@ {
                Some(ModalAction::ConfirmCancel)
            } else if v == "focus_confirm"@ {
                Some(ModalAction::ConfirmFocusConfirm)
            } else if v == "focus_cancel"@ {
                Some(ModalAction::ConfirmFocusCancel)
            } else if v == "toggle_focus"@ {
                Some(ModalAction::ConfirmToggleFocus)
            } else {
                None
            }
        },
        KeyContext::Help => {
            if v == "close"@ {
                Some(ModalAction::HelpClose)
            } else if v == "scroll_down"@ {
                Some(ModalAction::HelpScrollDown)
            } else if v == "scroll_up"@ {
                Some(ModalAction::HelpScrollUp)
            } else if v == "scroll_right"@ {
                Some(ModalAction::HelpScrollRight)
            } else if v == "scroll_left"@ {
                Some(ModalAction::HelpScrollLeft)
            } else if v == "scroll_top"@ {
                Some(ModalAction::HelpScrollTop)
            } else if v == "scroll_bottom"@ {
                Some(ModalAction::HelpScrollBottom)
            } else {
                None
            }
        },
        KeyContext::Detail => {
            if v == "close"@ {
                Some(ModalAction::DetailClose)
            } else if v == "select_next"@ {
                Some(ModalAction::DetailSelectNext)
            } else if v == "select_prev"@ {
                Some(ModalAction::DetailSelectPrev)
            } else if v == "attach"@ {
                Some(ModalAction::DetailAttach)
            } else if v == "detach"@ {
                Some(ModalAction::DetailDetach)
            } else if v == "attach_by_id"@ {
                Some(ModalAction::DetailInput)
            } else {
                None
            }
        },
        KeyContext::CommandLogs => {
            if v == "close"@ {
                Some(ModalAction::CommandLogsClose)
            } else if v == "copy"@ {
                Some(ModalAction::CommandLogsCopy)
            } else if v == "scroll_down"@ {
                Some(ModalAction::CommandLogsScrollDown)
            } else if v == "scroll_up"@ {
                Some(ModalAction::CommandLogsScrollUp)
            } else if v == "scroll_right"@ {
                Some(ModalAction::CommandLogsScrollRight)
            } else if v == "scroll_left"@ {
                Some(ModalAction::CommandLogsScrollLeft)
            } else if v == "scroll_top"@ {
                Some(ModalAction::CommandLogsScrollTop)
            } else if v == "scroll_bottom"@ {
                Some(ModalAction::CommandLogsScrollBottom)
            } else {
                None
            }
        },
        KeyContext::Config => {
            if v == "close"@ {
                Some(ModalAction::ConfigClose)
            } else if v == "next_tab"@ {
                Some(ModalAction::ConfigNextTab)
            } else if v == "prev_tab"@ {
                Some(ModalAction::ConfigPrevTab)
            } else if v == "toggle_layer"@ {
                Some(ModalAction::ConfigToggleLayer)
            } else if v == "activate"@ {
                Some(ModalAction::ConfigActivate)
            } else if v == "select_next"@ {
                Some(ModalAction::ConfigSelectNext)
            } else if v == "select_prev"@ {
                Some(ModalAction::ConfigSelectPrev)
            } else if v == "scroll_right"@ {
                Some(ModalAction::ConfigScrollRight)
            } else if v == "scroll_left"@ {
                Some(ModalAction::ConfigScrollLeft)
            } else if v == "scroll_top"@ {
                Some(ModalAction::ConfigScrollTop)
            } else if v == "scroll_bottom"@ {
                Some(ModalAction::ConfigScrollBottom)
            } else {
                None
            }
        },
        KeyContext::ConfigEdit => {
            if v == "submit"@ {
                Some(ModalAction::ConfigEditSubmit)
            } else if v == "cancel"@ {
                Some(ModalAction::ConfigEditCancel)
            } else {
                None
            }
        },
        KeyContext::Report => {
            if v == "close"@ {
                Some(ModalAction::ReportClose)
            } else {
                None
            }
        },
        KeyContext::OpenMenu => {
            if v == "close"@ {
                Some(ModalAction::OpenMenuClose)
            } else if v == "toggle"@ {
                Some(ModalAction::OpenMenuToggle)
            } else if v == "accept"@ {
                Some(ModalAction::OpenMenuAccept)
            } else if v == "issue"@ {
                Some(ModalAction::OpenMenuIssue)
            } else if v == "pr"@ {
                Some(ModalAction::OpenMenuPr)
            } else {
                None
            }
        },
        KeyContext::CommandPalette => {
            if v == "close"@ {
                Some(ModalAction::CommandPaletteClose)
            } else if v == "accept"@ {
                Some(ModalAction::CommandPaletteAccept)
            } else if v == "prev"@ {
                Some(ModalAction::CommandPalettePrev)
            } else if v == "next"@ {
                Some(ModalAction::CommandPaletteNext)
            } else {
                None
            }
        },
        KeyContext::LinkChooseTarget => {
            if v == "next"@ {
                Some(ModalAction::LinkChooseNext)
            } else if v == "prev"@ {
                Some(ModalAction::LinkChoosePrev)
            } else if v == "issue"@ {
                Some(ModalAction::LinkChooseIssue)
            } else if v == "pr"@ {
                Some(ModalAction::LinkChoosePr)
            } else if v == "accept"@ {
                Some(ModalAction::LinkChooseAccept)
            } else if v == "cancel"@ {
                Some(ModalAction::LinkChooseCancel)
            } else {
                None
            }
        },
        KeyContext::LinkInputNumber => {
            if v == "submit"@ {
                Some(ModalAction::LinkInputSubmit)
            } else if v == "cancel"@ {
                Some(ModalAction::LinkInputCancel)
            } else {
                None
            }
        },
        KeyContext::ExecPicker => {
            if v == "next"@ {
                Some(ModalAction::ExecPickerNext)
            } else if v == "prev"@ {
                Some(ModalAction::ExecPickerPrev)
            } else if v == "accept"@ {
                Some(ModalAction::ExecPickerAccept)
            } else if v == "cancel"@ {
                Some(ModalAction::ExecPickerCancel)
            } else {
                None
            }
        },
        KeyContext::Clean => {
            if v == "next"@ {
                Some(ModalAction::CleanNext)
            } else if v == "prev"@ {
                Some(ModalAction::CleanPrev)
            } else if v == "confirm"@ {
                Some(ModalAction::CleanConfirm)
            } else if v == "cancel"@ {
                Some(ModalAction::CleanCancel)
            } else {
                None
            }
        },
        KeyContext::CiChecks => {
            if v == "close"@ {
                Some(ModalAction::CiChecksClose)
            } else if v == "select_next"@ {
                Some(ModalAction::CiChecksNext)
            } else if v == "select_prev"@ {
                Some(ModalAction::CiChecksPrev)
            } else if v == "open"@ {
                Some(ModalAction::CiChecksOpen)
            } else if v == "filter"@ {
                Some(ModalAction::CiChecksFilter)
            } else if v == "refresh"@ {
                Some(ModalAction::CiChecksRefresh)
            } else {
                None
            }
        },
    }
}

/// Every verb is named by its context and its spelling alone: looking the
/// pair up gives the verb back, and no two verbs share a context and a
/// spelling.
pub proof fn law_context_verb_roundtrip(a: ModalAction)
    ensures
        verb_in_context(action_context(a), action_verb(a)) == Some(a),
        forall|b: ModalAction| action_context(b) == action_context(a) && action_verb(b) == action_verb(a) ==> b == a,
{
    lemma_verb_in_context_inverse(a);
    assert forall|b: ModalAction| action_context(b) == action_context(a) && action_verb(b) == action_verb(a) implies b == a by {
        lemma_verb_in_context_inverse(b);
    }
}

#[verifier::rlimit(50)]
proof fn lemma_verb_in_context_inverse(a: ModalAction)
    ensures
        verb_in_context(action_context(a), action_verb(a)) == Some(a),
{
    reveal_strlit("accept");
    reveal_strlit("activate");
    reveal_strlit("attach");
    reveal_strlit("attach_by_id");
    reveal_strlit("cancel");
    reveal_strlit("close");
    reveal_strlit("confirm");
    reveal_strlit("copy");
    reveal_strlit("detach");
    reveal_strlit("filter");
    reveal_strlit("focus_cancel");
    reveal_strlit("focus_confirm");
    reveal_strlit("issue");
    reveal_strlit("next");
    reveal_strlit("next_field");
    reveal_strlit("next_tab");
    reveal_strlit("next_type");
    reveal_strlit("open");
    reveal_strlit("pr");
    reveal_strlit("prev");
    reveal_strlit("prev_field");
    reveal_strlit("prev_tab");
    reveal_strlit("prev_type");
    reveal_strlit("refresh");
    reveal_strlit("scroll_bottom");
    reveal_strlit("scroll_down");
    reveal_strlit("scroll_left");
    reveal_strlit("scroll_right");
    reveal_strlit("scroll_top");
    reveal_strlit("scroll_up");
    reveal_strlit("select_next");
    reveal_strlit("select_prev");
    reveal_strlit("submit");
    reveal_strlit("toggle");
    reveal_strlit("toggle_focus");
    reveal_strlit("toggle_layer");
    reveal_strlit("toggle_mode");
    match a {
        ModalAction::CreateCancel => {
        },
        ModalAction::CreateNextField => {
            assert("next_field"@.len() != "cancel"@.len());
        },
        ModalAction::CreatePrevField => {
            assert("prev_field"@.len() != "cancel"@.len());
            assert("prev_field"@[0] != "next_field"@[0]);
        },
        ModalAction::CreateSubmit => {
            assert("submit"@[0] != "cancel"@[0]);
            assert("submit"@.len() != "next_field"@.len());
            assert("submit"@.len() != "prev_field"@.len());
        },
        ModalAction::CreatePrevType => {
            assert("prev_type"@.len() != "cancel"@.len());
            assert("prev_type"@.len() != "next_field"@.len());
            assert("prev_type"@.len() != "prev_field"@.len());
            assert("prev_type"@.len() != "submit"@.len());
        },
        ModalAction::CreateNextType => {
            assert("next_type"@.len() != "cancel"@.len());
            assert("next_type"@.len() != "next_field"@.len());
            assert("next_type"@.len() != "prev_field"@.len());
            assert("next_type"@.len() != "submit"@.len());
            assert("next_type"@[0] != "prev_type"@[0]);
        },
        ModalAction::CreateToggleMode => {
            assert("toggle_mode"@.len() != "cancel"@.len());
            assert("toggle_mode"@.len() != "next_field"@.len());
            assert("toggle_mode"@.len() != "prev_field"@.len());
            assert("toggle_mode"@.len() != "submit"@.len());
            assert("toggle_mode"@.len() != "prev_type"@.len());
            assert("toggle_mode"@.len() != "next_type"@.len());
        },
        ModalAction::ConfirmConfirm => {
        },
        ModalAction::ConfirmActivate => {
            assert("activate"@.len() != "confirm"@.len());
        },
        ModalAction::ConfirmCancel => {
            assert("cancel"@.len() != "confirm"@.len());
            assert("cancel"@.len() != "activate"@.len());
        },
        ModalAction::ConfirmFocusConfirm => {
            assert("focus_confirm"@.len() != "confirm"@.len());
            assert("focus_confirm"@.len() != "activate"@.len());
            assert("focus_confirm"@.len() != "cancel"@.len());
        },
        ModalAction::ConfirmFocusCancel => {
            assert("focus_cancel"@.len() != "confirm"@.len());
            assert("focus_cancel"@.len() != "activate"@.len());
            assert("focus_cancel"@.len() != "cancel"@.len());
            assert("focus_cancel"@.len() != "focus_confirm"@.len());
        },
        ModalAction::ConfirmToggleFocus => {
            assert("toggle_focus"@.len() != "confirm"@.len());
            assert("toggle_focus"@.len() != "activate"@.len());
            assert("toggle_focus"@.len() != "cancel"@.len());
            assert("toggle_focus"@.len() != "focus_confirm"@.len());
            assert("toggle_focus"@[0] != "focus_cancel"@[0]);
        },
        ModalAction::HelpClose => {
        },
        ModalAction::HelpScrollDown => {
            assert("scroll_down"@.len() != "close"@.len());
        },
        ModalAction::HelpScrollUp => {
            assert("scroll_up"@.len() != "close"@.len());
            assert("scroll_up"@.len() != "scroll_down"@.len());
        },
        ModalAction::HelpScrollRight => {
            assert("scroll_right"@.len() != "close"@.len());
            assert("scroll_right"@.len() != "scroll_down"@.len());
            assert("scroll_right"@.len() != "scroll_up"@.len());
        },
        ModalAction::HelpScrollLeft => {
            assert("scroll_left"@.len() != "close"@.len());
            assert("scroll_left"@[7] != "scroll_down"@[7]);
            assert("scroll_left"@.len() != "scroll_up"@.len());
            assert("scroll_left"@.len() != "scroll_right"@.len());
        },
        ModalAction::HelpScrollTop => {
            assert("scroll_top"@.len() != "close"@.len());
            assert("scroll_top"@.len() != "scroll_down"@.len());
            assert("scroll_top"@.len() != "scroll_up"@.len());
            assert("scroll_top"@.len() != "scroll_right"@.len());
            assert("scroll_top"@.len() != "scroll_left"@.len());
        },
        ModalAction::HelpScrollBottom => {
            assert("scroll_bottom"@.len() != "close"@.len());
            assert("scroll_bottom"@.len() != "scroll_down"@.len());
            assert("scroll_bottom"@.len() != "scroll_up"@.len());
            assert("scroll_bottom"@.len() != "scroll_right"@.len());
            assert("scroll_bottom"@.len() != "scroll_left"@.len());
            assert("scroll_bottom"@.len() != "scroll_top"@.len());
        },
        ModalAction::DetailClose => {
        },
        ModalAction::DetailSelectNext => {
            assert("select_next"@.len() != "close"@.len());
        },
        ModalAction::DetailSelectPrev => {
            assert("select_prev"@.len() != "close"@.len());
            assert("select_prev"@[7] != "select_next"@[7]);
        },
        ModalAction::DetailAttach => {
            assert("attach"@.len() != "close"@.len());
            assert("attach"@.len() != "select_next"@.len());
            assert("attach"@.len() != "select_prev"@.len());
        },
        ModalAction::DetailDetach => {
            assert("detach"@.len() != "close"@.len());
            assert("detach"@.len() != "select_next"@.len());
            assert("detach"@.len() != "select_prev"@.len());
            assert("detach"@[0] != "attach"@[0]);
        },
        ModalAction::DetailInput => {
            assert("attach_by_id"@.len() != "close"@.len());
            assert("attach_by_id"@.len() != "select_next"@.len());
            assert("attach_by_id"@.len() != "select_prev"@.len());
            assert("attach_by_id"@.len() != "attach"@.len());
            assert("attach_by_id"@.len() != "detach"@.len());
        },
        ModalAction::CommandLogsClose => {
        },
        ModalAction::CommandLogsCopy => {
            assert("copy"@.len() != "close"@.len());
        },
        ModalAction::CommandLogsScrollDown => {
            assert("scroll_down"@.len() != "close"@.len());
            assert("scroll_down"@.len() != "copy"@.len());
        },
        ModalAction::CommandLogsScrollUp => {
            assert("scroll_up"@.len() != "close"@.len());
            assert("scroll_up"@.len() != "copy"@.len());
            assert("scroll_up"@.len() != "scroll_down"@.len());
        },
        ModalAction::CommandLogsScrollRight => {
            assert("scroll_right"@.len() != "close"@.len());
            assert("scroll_right"@.len() != "copy"@.len());
            assert("scroll_right"@.len() != "scroll_down"@.len());
            assert("scroll_right"@.len() != "scroll_up"@.len());
        },
        ModalAction::CommandLogsScrollLeft => {
            assert("scroll_left"@.len() != "close"@.len());
            assert("scroll_left"@.len() != "copy"@.len());
            assert("scroll_left"@[7] != "scroll_down"@[7]);
            assert("scroll_left"@.len() != "scroll_up"@.len());
            assert("scroll_left"@.len() != "scroll_right"@.len());
        },
        ModalAction::CommandLogsScrollTop => {
            assert("scroll_top"@.len() != "close"@.len());
            assert("scroll_top"@.len() != "copy"@.len());
            assert("scroll_top"@.len() != "scroll_down"@.len());
            assert("scroll_top"@.len() != "scroll_up"@.len());
            assert("scroll_top"@.len() != "scroll_right"@.len());
            assert("scroll_top"@.len() != "scroll_left"@.len());
        },
        ModalAction::CommandLogsScrollBottom => {
            assert("scroll_bottom"@.len() != "close"@.len());
            assert("scroll_bottom"@.len() != "copy"@.len());
            assert("scroll_bottom"@.len() != "scroll_down"@.len());
            assert("scroll_bottom"@.len() != "scroll_up"@.len());
            assert("scroll_bottom"@.len() != "scroll_right"@.len());
            assert("scroll_bottom"@.len() != "scroll_left"@.len());
            assert("scroll_bottom"@.len() != "scroll_top"@.len());
        },
        ModalAction::ConfigClose => {
        },
        ModalAction::ConfigNextTab => {
            assert("next_tab"@.len() != "close"@.len());
        },
        ModalAction::ConfigPrevTab => {
            assert("prev_tab"@.len() != "close"@.len());
            assert("prev_tab"@[0] != "next_tab"@[0]);
        },
        ModalAction::ConfigToggleLayer => {
            assert("toggle_layer"@.len() != "close"@.len());
            assert("toggle_layer"@.len() != "next_tab"@.len());
            assert("toggle_layer"@.len() != "prev_tab"@.len());
        },
        ModalAction::ConfigActivate => {
            assert("activate"@.len() != "close"@.len());
            assert("activate"@[0] != "next_tab"@[0]);
            assert("activate"@[0] != "prev_tab"@[0]);
            assert("activate"@.len() != "toggle_layer"@.len());
        },
        ModalAction::ConfigSelectNext => {
            assert("select_next"@.len() != "close"@.len());
            assert("select_next"@.len() != "next_tab"@.len());
            assert("select_next"@.len() != "prev_tab"@.len());
            assert("select_next"@.len() != "toggle_layer"@.len());
            assert("select_next"@.len() != "activate"@.len());
        },
        ModalAction::ConfigSelectPrev => {
            assert("select_prev"@.len() != "close"@.len());
            assert("select_prev"@.len() != "next_tab"@.len());
            assert("select_prev"@.len() != "prev_tab"@.len());
            assert("select_prev"@.len() != "toggle_layer"@.len());
            assert("select_prev"@.len() != "activate"@.len());
            assert("select_prev"@[7] != "select_next"@[7]);
        },
        ModalAction::ConfigScrollRight => {
            assert("scroll_right"@.len() != "close"@.len());
            assert("scroll_right"@.len() != "next_tab"@.len());
            assert("scroll_right"@.len() != "prev_tab"@.len());
            assert("scroll_right"@[0] != "toggle_layer"@[0]);
            assert("scroll_right"@.len() != "activate"@.len());
            assert("scroll_right"@.len() != "select_next"@.len());
            assert("scroll_right"@.len() != "select_prev"@.len());
        },
        ModalAction::ConfigScrollLeft => {
            assert("scroll_left"@.len() != "close"@.len());
            assert("scroll_left"@.len() != "next_tab"@.len());
            assert("scroll_left"@.len() != "prev_tab"@.len());
            assert("scroll_left"@.len() != "toggle_layer"@.len());
            assert("scroll_left"@.len() != "activate"@.len());
            assert("scroll_left"@[1] != "select_next"@[1]);
            assert("scroll_left"@[1] != "select_prev"@[1]);
            assert("scroll_left"@.len() != "scroll_right"@.len());
        },
        ModalAction::ConfigScrollTop => {
            assert("scroll_top"@.len() != "close"@.len());
            assert("scroll_top"@.len() != "next_tab"@.len());
            assert("scroll_top"@.len() != "prev_tab"@.len());
            assert("scroll_top"@.len() != "toggle_layer"@.len());
            assert("scroll_top"@.len() != "activate"@.len());
            assert("scroll_top"@.len() != "select_next"@.len());
            assert("scroll_top"@.len() != "select_prev"@.len());
            assert("scroll_top"@.len() != "scroll_right"@.len());
            assert("scroll_top"@.len() != "scroll_left"@.len());
        },
        ModalAction::ConfigScrollBottom => {
            assert("scroll_bottom"@.len() != "close"@.len());
            assert("scroll_bottom"@.len() != "next_tab"@.len());
            assert("scroll_bottom"@.len() != "prev_tab"@.len());
            assert("scroll_bottom"@.len() != "toggle_layer"@.len());
            assert("scroll_bottom"@.len() != "activate"@.len());
            assert("scroll_bottom"@.len() != "select_next"@.len());
            assert("scroll_bottom"@.len() != "select_prev"@.len());
            assert("scroll_bottom"@.len() != "scroll_right"@.len());
            assert("scroll_bottom"@.len() != "scroll_left"@.len());
            assert("scroll_bottom"@.len() != "scroll_top"@.len());
        },
        ModalAction::ConfigEditSubmit => {
        },
        ModalAction::ConfigEditCancel => {
            assert("cancel"@[0] != "submit"@[0]);
        },
        ModalAction::ReportClose => {
        },
        ModalAction::OpenMenuClose => {
        },
        ModalAction::OpenMenuToggle => {
            assert("toggle"@.len() != "close"@.len());
        },
        ModalAction::OpenMenuAccept => {
            assert("accept"@.len() != "close"@.len());
            assert("accept"@[0] != "toggle"@[0]);
        },
        ModalAction::OpenMenuIssue => {
            assert("issue"@[0] != "close"@[0]);
            assert("issue"@.len() != "toggle"@.len());
            assert("issue"@.len() != "accept"@.len());
        },
        ModalAction::OpenMenuPr => {
            assert("pr"@.len() != "close"@.len());
            assert("pr"@.len() != "toggle"@.len());
            assert("pr"@.len() != "accept"@.len());
            assert("pr"@.len() != "issue"@.len());
        },
        ModalAction::CommandPaletteClose => {
        },
        ModalAction::CommandPaletteAccept => {
            assert("accept"@.len() != "close"@.len());
        },
        ModalAction::CommandPalettePrev => {
            assert("prev"@.len() != "close"@.len());
            assert("prev"@.len() != "accept"@.len());
        },
        ModalAction::CommandPaletteNext => {
            assert("next"@.len() != "close"@.len());
            assert("next"@.len() != "accept"@.len());
            assert("next"@[0] != "prev"@[0]);
        },
        ModalAction::LinkChooseNext => {
        },
        ModalAction::LinkChoosePrev => {
            assert("prev"@[0] != "next"@[0]);
        },
        ModalAction::LinkChooseIssue => {
            assert("issue"@.len() != "next"@.len());
            assert("issue"@.len() != "prev"@.len());
        },
        ModalAction::LinkChoosePr => {
            assert("pr"@.len() != "next"@.len());
            assert("pr"@.len() != "prev"@.len());
            assert("pr"@.len() != "issue"@.len());
        },
        ModalAction::LinkChooseAccept => {
            assert("accept"@.len() != "next"@.len());
            assert("accept"@.len() != "prev"@.len());
            assert("accept"@.len() != "issue"@.len());
            assert("accept"@.len() != "pr"@.len());
        },
        ModalAction::LinkChooseCancel => {
            assert("cancel"@.len() != "next"@.len());
            assert("cancel"@.len() != "prev"@.len());
            assert("cancel"@.len() != "issue"@.len());
            assert("cancel"@.len() != "pr"@.len());
            assert("cancel"@[0] != "accept"@[0]);
        },
        ModalAction::LinkInputSubmit => {
        },
        ModalAction::LinkInputCancel => {
            assert("cancel"@[0] != "submit"@[0]);
        },
        ModalAction::ExecPickerNext => {
        },
        ModalAction::ExecPickerPrev => {
            assert("prev"@[0] != "next"@[0]);
        },
        ModalAction::ExecPickerAccept => {
            assert("accept"@.len() != "next"@.len());
            assert("accept"@.len() != "prev"@.len());
        },
        ModalAction::ExecPickerCancel => {
            assert("cancel"@.len() != "next"@.len());
            assert("cancel"@.len() != "prev"@.len());
            assert("cancel"@[0] != "accept"@[0]);
        },
        ModalAction::CleanNext => {
        },
        ModalAction::CleanPrev => {
            assert("prev"@[0] != "next"@[0]);
        },
        ModalAction::CleanConfirm => {
            assert("confirm"@.len() != "next"@.len());
            assert("confirm"@.len() != "prev"@.len());
        },
        ModalAction::CleanCancel => {
            assert("cancel"@.len() != "next"@.len());
            assert("cancel"@.len() != "prev"@.len());
            assert("cancel"@.len() != "confirm"@.len());
        },
        ModalAction::CiChecksClose => {
        },
        ModalAction::CiChecksNext => {
            assert("select_next"@.len() != "close"@.len());
        },
        ModalAction::CiChecksPrev => {
            assert("select_prev"@.len() != "close"@.len());
            assert("select_prev"@[7] != "select_next"@[7]);
        },
        ModalAction::CiChecksOpen => {
            assert("open"@.len() != "close"@.len());
            assert("open"@.len() != "select_next"@.len());
            assert("open"@.len() != "select_prev"@.len());
        },
        ModalAction::CiChecksFilter => {
            assert("filter"@.len() != "close"@.len());
            assert("filter"@.len() != "select_next"@.len());
            assert("filter"@.len() != "select_prev"@.len());
            assert("filter"@.len() != "open"@.len());
        },
        ModalAction::CiChecksRefresh => {
            assert("refresh"@.len() != "close"@.len());
            assert("refresh"@.len() != "select_next"@.len());
            assert("refresh"@.len() != "select_prev"@.len());
            assert("refresh"@.len() != "open"@.len());
            assert("refresh"@.len() != "filter"@.len());
        },
    }
}

} // verus!
