//! The settings panel's vocabulary: its tabs, the editable settings with
//! their labels, config keys and kinds, the layer an edit is written to,
//! and how a choice setting steps to its next value.

use vstd::prelude::*;
use crate::text::{ascii_digit, chars_of, is_ascii_digit, is_control, str_eq, string_of, unicode_control};
use crate::keymap::{action_slug, chord_text, format_chord, Action, KeyStroke};
use crate::modal_keymap::{action_context, action_verb, context_path, ModalAction};
use crate::create_form::{utf8_len, utf8_width};

verus! {

/// One tab of the panel.
#[derive(Debug, Clone, Copy, PartialEq, Eq, Default, Structural)]
pub enum SettingsTab {
    #[default]
    Theme,
    Worktree,
    Tui,
    Keys,
    All,
}

/// The tabs, in the order `Tab` cycles through them.
pub open spec fn all_tabs() -> Seq<SettingsTab> {
    seq![SettingsTab::Theme, SettingsTab::Worktree, SettingsTab::Tui, SettingsTab::Keys, SettingsTab::All]
}

pub open spec fn tab_label(t: SettingsTab) -> Seq<char> {
    match t {
        SettingsTab::Theme => "Theme"@,
        SettingsTab::Worktree => "Worktree"@,
        SettingsTab::Tui => "TUI"@,
        SettingsTab::Keys => "Keys"@,
        SettingsTab::All => "All"@,
    }
}

/// The settings a tab edits, in display order.
pub open spec fn tab_fields(t: SettingsTab) -> Seq<SettingField> {
    match t {
        SettingsTab::Theme => seq![SettingField::ThemePreset],
        SettingsTab::Worktree => seq![SettingField::WorktreeBase, SettingField::WorktreePathPattern, SettingField::WorktreeBranchPattern],
        SettingsTab::Tui => seq![SettingField::Layout, SettingField::DimUnfocused, SettingField::StatusOneLine, SettingField::NoteVim, SettingField::MuxOpenIn, SettingField::MuxPaneDirection, SettingField::SidebarPosition, SettingField::SidebarOrientation, SettingField::Clipboard, SettingField::OpenMode, SettingField::ConfirmCountdown, SettingField::AutoRefreshSecs, SettingField::OpenShellCmd, SettingField::OpenEditorCmd],
        SettingsTab::Keys => seq![],
        SettingsTab::All => seq![],
    }
}

impl SettingsTab {
    /// Every tab, in cycling order.
    pub fn all() -> (r: Vec<SettingsTab>)
        ensures
            r@ == all_tabs(),
    {
        let r = vec![SettingsTab::Theme, SettingsTab::Worktree, SettingsTab::Tui, SettingsTab::Keys, SettingsTab::All];
        proof {
            assert(r@ =~= all_tabs());
        }
        r
    }

    pub fn label(self) -> (r: &'static str)
        ensures
            r@ == tab_label(self),
    {
        match self {
            SettingsTab::Theme => "Theme",
            SettingsTab::Worktree => "Worktree",
            SettingsTab::Tui => "TUI",
            SettingsTab::Keys => "Keys",
            SettingsTab::All => "All",
        }
    }

    /// The settings this tab edits (none on the key and all-settings tabs).
    pub fn fields(self) -> (r: Vec<SettingField>)
        ensures
            r@ == tab_fields(self),
    {
        let r = match self {
            SettingsTab::Theme => vec![SettingField::ThemePreset],
            SettingsTab::Worktree => vec![SettingField::WorktreeBase, SettingField::WorktreePathPattern, SettingField::WorktreeBranchPattern],
            SettingsTab::Tui => vec![SettingField::Layout, SettingField::DimUnfocused, SettingField::StatusOneLine, SettingField::NoteVim, SettingField::MuxOpenIn, SettingField::MuxPaneDirection, SettingField::SidebarPosition, SettingField::SidebarOrientation, SettingField::Clipboard, SettingField::OpenMode, SettingField::ConfirmCountdown, SettingField::AutoRefreshSecs, SettingField::OpenShellCmd, SettingField::OpenEditorCmd],
            SettingsTab::Keys => vec![],
            SettingsTab::All => vec![],
        };
        proof {
            assert(r@ =~= tab_fields(self));
        }
        r
    }
}

/// Which config file an edit is written to.
#[derive(Debug, Clone, Copy, PartialEq, Eq, Default, Structural)]
pub enum SettingsLayer {
    #[default]
    Project,
    Global,
}

impl SettingsLayer {
    pub fn label(self) -> (r: &'static str)
        ensures
            r@ == match self {
                SettingsLayer::Project => "project (.gwm.toml)"@,
                SettingsLayer::Global => "global (~/.config/gwm)"@,
            },
    {
        match self {
            SettingsLayer::Project => "project (.gwm.toml)",
            SettingsLayer::Global => "global (~/.config/gwm)",
        }
    }

    /// The other layer.
    pub fn toggled(self) -> (r: SettingsLayer)
        ensures
            r == match self {
                SettingsLayer::Project => SettingsLayer::Global,
                SettingsLayer::Global => SettingsLayer::Project,
            },
    {
        match self {
            SettingsLayer::Project => SettingsLayer::Global,
            SettingsLayer::Global => SettingsLayer::Project,
        }
    }
}

/// How a setting is edited.
#[derive(Debug, Clone, Copy, PartialEq, Eq, Structural)]
pub enum FieldKind {
    /// Cycles through a fixed list.
    Choice,
    /// Flips.
    Bool,
    /// Typed digits.
    Uint,
    /// Typed text.
    Text,
}

/// One editable setting.
#[derive(Debug, Clone, Copy, PartialEq, Eq, Structural)]
pub enum SettingField {
    ThemePreset,
    WorktreeBase,
    WorktreePathPattern,
    WorktreeBranchPattern,
    Layout,
    DimUnfocused,
    StatusOneLine,
    NoteVim,
    MuxOpenIn,
    MuxPaneDirection,
    SidebarPosition,
    SidebarOrientation,
    Clipboard,
    OpenMode,
    ConfirmCountdown,
    AutoRefreshSecs,
    OpenShellCmd,
    OpenEditorCmd,
}

pub open spec fn field_label(f: SettingField) -> Seq<char> {
    match f {
        SettingField::ThemePreset => "theme preset"@,
        SettingField::WorktreeBase => "base directory"@,
        SettingField::WorktreePathPattern => "path pattern"@,
        SettingField::WorktreeBranchPattern => "branch pattern"@,
        SettingField::Layout => "layout"@,
        SettingField::DimUnfocused => "dim unfocused pane"@,
        SettingField::StatusOneLine => "status on one line"@,
        SettingField::NoteVim => "note vim mode"@,
        SettingField::MuxOpenIn => "mux opens in"@,
        SettingField::MuxPaneDirection => "mux pane side"@,
        SettingField::SidebarPosition => "sidebar position"@,
        SettingField::SidebarOrientation => "sidebar layout"@,
        SettingField::Clipboard => "clipboard"@,
        SettingField::OpenMode => "open mode"@,
        SettingField::ConfirmCountdown => "confirm countdown (s)"@,
        SettingField::AutoRefreshSecs => "auto refresh (s)"@,
        SettingField::OpenShellCmd => "open shell cmd"@,
        SettingField::OpenEditorCmd => "open editor cmd"@,
    }
}

pub open spec fn field_key_path(f: SettingField) -> Seq<char> {
    match f {
        SettingField::ThemePreset => "theme.preset"@,
        SettingField::WorktreeBase => "worktree.base"@,
        SettingField::WorktreePathPattern => "worktree.path_pattern"@,
        SettingField::WorktreeBranchPattern => "worktree.branch_pattern"@,
        SettingField::Layout => "tui.layout"@,
        SettingField::DimUnfocused => "tui.dim_unfocused"@,
        SettingField::StatusOneLine => "tui.status_one_line"@,
        SettingField::NoteVim => "tui.note_vim"@,
        SettingField::MuxOpenIn => "tui.mux_open_in"@,
        SettingField::MuxPaneDirection => "tui.mux_pane_direction"@,
        SettingField::SidebarPosition => "tui.sidebar_position"@,
        SettingField::SidebarOrientation => "tui.sidebar_orientation"@,
        SettingField::Clipboard => "tui.clipboard"@,
        SettingField::OpenMode => "tui.open.mode"@,
        SettingField::ConfirmCountdown => "tui.confirm_countdown_secs"@,
        SettingField::AutoRefreshSecs => "tui.auto_refresh_secs"@,
        SettingField::OpenShellCmd => "tui.open.shell_cmd"@,
        SettingField::OpenEditorCmd => "tui.open.editor_cmd"@,
    }
}

pub open spec fn field_kind(f: SettingField) -> FieldKind {
    match f {
        SettingField::ThemePreset => FieldKind::Choice,
        SettingField::WorktreeBase => FieldKind::Text,
        SettingField::WorktreePathPattern => FieldKind::Text,
        SettingField::WorktreeBranchPattern => FieldKind::Text,
        SettingField::Layout => FieldKind::Choice,
        SettingField::DimUnfocused => FieldKind::Bool,
        SettingField::StatusOneLine => FieldKind::Bool,
        SettingField::NoteVim => FieldKind::Bool,
        SettingField::MuxOpenIn => FieldKind::Choice,
        SettingField::MuxPaneDirection => FieldKind::Choice,
        SettingField::SidebarPosition => FieldKind::Choice,
        SettingField::SidebarOrientation => FieldKind::Choice,
        SettingField::Clipboard => FieldKind::Choice,
        SettingField::OpenMode => FieldKind::Choice,
        SettingField::ConfirmCountdown => FieldKind::Uint,
        SettingField::AutoRefreshSecs => FieldKind::Uint,
        SettingField::OpenShellCmd => FieldKind::Text,
        SettingField::OpenEditorCmd => FieldKind::Text,
    }
}

/// Most characters a typed value may have.
pub open spec fn edit_limit(f: SettingField) -> usize {
    match f {
        SettingField::AutoRefreshSecs => 20,
        SettingField::ConfirmCountdown => 3,
        _ => 256,
    }
}

impl SettingField {
    pub fn label(self) -> (r: &'static str)
        ensures
            r@ == field_label(self),
    {
        match self {
            SettingField::ThemePreset => "theme preset",
            SettingField::WorktreeBase => "base directory",
            SettingField::WorktreePathPattern => "path pattern",
            SettingField::WorktreeBranchPattern => "branch pattern",
            SettingField::Layout => "layout",
            SettingField::DimUnfocused => "dim unfocused pane",
            SettingField::StatusOneLine => "status on one line",
            SettingField::NoteVim => "note vim mode",
            SettingField::MuxOpenIn => "mux opens in",
            SettingField::MuxPaneDirection => "mux pane side",
            SettingField::SidebarPosition => "sidebar position",
            SettingField::SidebarOrientation => "sidebar layout",
            SettingField::Clipboard => "clipboard",
            SettingField::OpenMode => "open mode",
            SettingField::ConfirmCountdown => "confirm countdown (s)",
            SettingField::AutoRefreshSecs => "auto refresh (s)",
            SettingField::OpenShellCmd => "open shell cmd",
            SettingField::OpenEditorCmd => "open editor cmd",
        }
    }

    /// Dotted config key the setting is written under.
    pub fn key_path(self) -> (r: &'static str)
        ensures
            r@ == field_key_path(self),
    {
        match self {
            SettingField::ThemePreset => "theme.preset",
            SettingField::WorktreeBase => "worktree.base",
            SettingField::WorktreePathPattern => "worktree.path_pattern",
            SettingField::WorktreeBranchPattern => "worktree.branch_pattern",
            SettingField::Layout => "tui.layout",
            SettingField::DimUnfocused => "tui.dim_unfocused",
            SettingField::StatusOneLine => "tui.status_one_line",
            SettingField::NoteVim => "tui.note_vim",
            SettingField::MuxOpenIn => "tui.mux_open_in",
            SettingField::MuxPaneDirection => "tui.mux_pane_direction",
            SettingField::SidebarPosition => "tui.sidebar_position",
            SettingField::SidebarOrientation => "tui.sidebar_orientation",
            SettingField::Clipboard => "tui.clipboard",
            SettingField::OpenMode => "tui.open.mode",
            SettingField::ConfirmCountdown => "tui.confirm_countdown_secs",
            SettingField::AutoRefreshSecs => "tui.auto_refresh_secs",
            SettingField::OpenShellCmd => "tui.open.shell_cmd",
            SettingField::OpenEditorCmd => "tui.open.editor_cmd",
        }
    }

    pub fn kind(self) -> (r: FieldKind)
        ensures
            r == field_kind(self),
    {
        match self {
            SettingField::ThemePreset => FieldKind::Choice,
            SettingField::WorktreeBase => FieldKind::Text,
            SettingField::WorktreePathPattern => FieldKind::Text,
            SettingField::WorktreeBranchPattern => FieldKind::Text,
            SettingField::Layout => FieldKind::Choice,
            SettingField::DimUnfocused => FieldKind::Bool,
            SettingField::StatusOneLine => FieldKind::Bool,
            SettingField::NoteVim => FieldKind::Bool,
            SettingField::MuxOpenIn => FieldKind::Choice,
            SettingField::MuxPaneDirection => FieldKind::Choice,
            SettingField::SidebarPosition => FieldKind::Choice,
            SettingField::SidebarOrientation => FieldKind::Choice,
            SettingField::Clipboard => FieldKind::Choice,
            SettingField::OpenMode => FieldKind::Choice,
            SettingField::ConfirmCountdown => FieldKind::Uint,
            SettingField::AutoRefreshSecs => FieldKind::Uint,
            SettingField::OpenShellCmd => FieldKind::Text,
            SettingField::OpenEditorCmd => FieldKind::Text,
        }
    }

    fn edit_char_limit(self) -> (r: usize)
        ensures
            r == edit_limit(self),
    {
        match self {
            SettingField::AutoRefreshSecs => 20,
            SettingField::ConfirmCountdown => 3,
            _ => 256,
        }
    }

    /// The value after `current` among `choices` (wrapping), the first
    /// choice when `current` is not one of them, `None` when there are no
    /// choices.
    pub fn next_choice(self, choices: &[&str], current: &str) -> (r: Option<String>)
        ensures
            match r {
                None => choices@.len() == 0,
                Some(v) => choices@.len() > 0 && v@ == next_choice_spec(choices@.map_values(|c: &str| c@), current@),
            },
    {
        next_choice_in(choices, current)
    }
}

/// First place of `x` in `s`, if any.
pub open spec fn first_index(s: Seq<Seq<char>>, x: Seq<char>) -> Option<int> {
    if exists|i: int| 0 <= i < s.len() && s[i] == x {
        Some(choose|i: int| 0 <= i < s.len() && s[i] == x && forall|j: int| 0 <= j < i ==> s[j] != x)
    } else {
        None
    }
}

pub open spec fn next_choice_spec(choices: Seq<Seq<char>>, current: Seq<char>) -> Seq<char> {
    match first_index(choices, current) {
        Some(i) => choices[(i + 1) % (choices.len() as int)],
        None => choices[0],
    }
}

/// The choice after `current` in `choices`, wrapping.
pub fn next_choice_in(choices: &[&str], current: &str) -> (r: Option<String>)
    ensures
        match r {
            None => choices@.len() == 0,
            Some(v) => choices@.len() > 0 && v@ == next_choice_spec(choices@.map_values(|c: &str| c@), current@),
        },
{
    let ghost cs = choices@.map_values(|c: &str| c@);
    if choices.len() == 0 {
        return None;
    }
    let n = choices.len();
    let mut i: usize = 0;
    while i < n
        invariant
            n == choices@.len(),
            cs == choices@.map_values(|c: &str| c@),
            i <= n,
            forall|j: int| 0 <= j < i ==> cs[j] != current@,
        decreases n - i,
    {
        if str_eq(choices[i], current) {
            proof {
                assert(cs[i as int] == current@);
                let k = choose|k: int| 0 <= k < cs.len() && cs[k] == current@ && forall|j: int| 0 <= j < k ==> cs[j] != current@;
                assert(k == i) by {
                    if k > i {
                        assert(cs[i as int] != current@);
                    }
                }
            }
            let next = if i + 1 < n { i + 1 } else { 0 };
            proof {
                let ii = i as int;
                let nn = n as int;
                assert((ii + 1) % nn == next as int) by (nonlinear_arith)
                    requires
                        0 <= ii < nn,
                        next as int == if ii + 1 < nn { ii + 1 } else { 0 },
                ;
            }
            return Some(string_of(chars_of(choices[next]).as_slice()));
        }
        i += 1;
    }
    Some(string_of(chars_of(choices[0]).as_slice()))
}

/// Stepping through a list of distinct choices visits them in order and
/// comes back to the start.
pub proof fn law_next_choice_cycles(choices: Seq<Seq<char>>, i: int)
    requires
        0 <= i < choices.len(),
        forall|a: int, b: int| 0 <= a < b < choices.len() ==> choices[a] != choices[b],
    ensures
        next_choice_spec(choices, choices[i]) == choices[(i + 1) % (choices.len() as int)],
{
    let k = choose|k: int| 0 <= k < choices.len() && choices[k] == choices[i] && forall|j: int| 0 <= j < k ==> choices[j] != choices[i];
    assert(first_index(choices, choices[i]) is Some);
    assert(k == i) by {
        if k < i {
        } else if k > i {
            assert(choices[i] != choices[i]);
        }
    }
}

/// What a key row rebinds.
#[derive(Debug, Clone, Copy, PartialEq, Eq, Structural)]
pub enum KeyTarget {
    Global(Action),
    Modal(ModalAction),
}

pub open spec fn target_key(t: KeyTarget) -> Seq<char> {
    match t {
        KeyTarget::Global(a) => "tui.keys."@ + action_slug(a),
        KeyTarget::Modal(m) => "tui.keys.modal."@ + context_path(action_context(m)) + "."@ + action_verb(m),
    }
}

fn push_str(out: &mut Vec<char>, s: &str)
    ensures
        final(out)@ == old(out)@ + s@,
{
    let v = chars_of(s);
    let ghost start = out@;
    let mut i: usize = 0;
    while i < v.len()
        invariant
            i <= v@.len(),
            out@ == start + v@.take(i as int),
        decreases v.len() - i,
    {
        out.push(v[i]);
        proof {
            assert(v@.take(i + 1) =~= v@.take(i as int).push(v@[i as int]));
        }
        i += 1;
    }
    proof {
        assert(v@.take(v@.len() as int) =~= v@);
    }
}

impl KeyTarget {
    /// The dotted config key the binding is written under.
    pub fn config_key(self) -> (r: String)
        ensures
            r@ == target_key(self),
    {
        let mut out: Vec<char> = Vec::new();
        match self {
            KeyTarget::Global(a) => {
                push_str(&mut out, "tui.keys.");
                push_str(&mut out, a.slug());
            },
            KeyTarget::Modal(m) => {
                push_str(&mut out, "tui.keys.modal.");
                push_str(&mut out, m.context().config_path());
                push_str(&mut out, ".");
                push_str(&mut out, m.verb());
            },
        }
        string_of(out.as_slice())
    }

    /// Modal bindings take one keystroke, global ones a chord.
    pub fn single_only(self) -> (r: bool)
        ensures
            r == (self is Modal),
    {
        match self {
            KeyTarget::Modal(_) => true,
            KeyTarget::Global(_) => false,
        }
    }
}

/// One row of the keys tab.
#[derive(Debug, Clone, PartialEq, Eq)]
pub struct KeyRow<S> {
    pub target: KeyTarget,
    /// `global` or `modal.<context>`.
    pub scope: String,
    pub label: String,
    /// The bound keys as shown.
    pub keys: String,
    /// Which layer the binding comes from.
    pub source: S,
}

/// A key capture in progress on the keys tab.
#[derive(Debug, Clone, PartialEq, Eq)]
pub struct KeyCapture {
    /// The key row being rebound.
    pub row: usize,
    /// Stop after one keystroke (a modal binding).
    pub single_only: bool,
    pub pending: Vec<KeyStroke>,
}

impl KeyCapture {
    /// The captured chord as config values: none when nothing was
    /// pressed, else the one chord written out.
    pub fn as_config_items(&self) -> (r: Vec<String>)
        ensures
            self.pending@.len() == 0 ==> r@.len() == 0,
            self.pending@.len() > 0 ==> r@.len() == 1 && r@[0]@ == chord_text(self.pending@),
    {
        if self.pending.len() == 0 {
            return Vec::new();
        }
        vec![format_chord(self.pending.as_slice())]
    }
}

/// The settings panel: tab, layer, selection, an edit buffer or a key
/// capture in progress, and the two-axis scroll.
#[derive(Debug, Default)]
pub struct ConfigPanel<R, S> {
    /// The resolved settings as listed on the all-settings tab.
    pub rows: Vec<R>,
    pub tab: SettingsTab,
    pub layer: SettingsLayer,
    pub selected: usize,
    /// The value being typed, while a numeric or text setting is edited.
    pub editing: Option<String>,
    pub key_rows: Vec<KeyRow<S>>,
    pub capture: Option<KeyCapture>,
    pub scroll: u16,
    pub max_scroll: u16,
    pub x_scroll: u16,
    pub max_x_scroll: u16,
}

pub open spec fn opt_text(o: Option<String>) -> Option<Seq<char>> {
    match o {
        Some(s) => Some(s@),
        None => None,
    }
}

/// Rows the selection moves over on a tab.
pub open spec fn selectable(tab: SettingsTab, key_rows: nat) -> nat {
    if tab == SettingsTab::Keys { key_rows } else { tab_fields(tab).len() }
}

/// Position of `t` in the cycling order.
pub open spec fn tab_index(t: SettingsTab) -> int {
    match t {
        SettingsTab::Theme => 0,
        SettingsTab::Worktree => 1,
        SettingsTab::Tui => 2,
        SettingsTab::Keys => 3,
        SettingsTab::All => 4,
    }
}

fn tab_position(t: SettingsTab) -> (r: usize)
    ensures
        r == tab_index(t),
{
    match t {
        SettingsTab::Theme => 0,
        SettingsTab::Worktree => 1,
        SettingsTab::Tui => 2,
        SettingsTab::Keys => 3,
        SettingsTab::All => 4,
    }
}

/// Whether `c` may be typed into the edit buffer of `f`.
pub open spec fn edit_accepts(f: Option<SettingField>, c: char) -> bool {
    if f matches Some(g) && field_kind(g) == FieldKind::Uint {
        ascii_digit(c)
    } else {
        !unicode_control(c)
    }
}

impl<R, S> ConfigPanel<R, S> {
    /// On the first tab, project layer, nothing selected or in progress.
    pub fn new() -> (r: ConfigPanel<R, S>)
        ensures
            r.rows@.len() == 0 && r.key_rows@.len() == 0,
            r.tab == SettingsTab::Theme && r.layer == SettingsLayer::Project && r.selected == 0,
            r.editing is None && r.capture is None,
            r.scroll == 0 && r.max_scroll == 0 && r.x_scroll == 0 && r.max_x_scroll == 0,
    {
        ConfigPanel {
            rows: Vec::new(),
            tab: SettingsTab::Theme,
            layer: SettingsLayer::Project,
            selected: 0,
            editing: None,
            key_rows: Vec::new(),
            capture: None,
            scroll: 0,
            max_scroll: 0,
            x_scroll: 0,
            max_x_scroll: 0,
        }
    }

    /// The settings the current tab edits.
    pub fn fields(&self) -> (r: Vec<SettingField>)
        ensures
            r@ == tab_fields(self.tab),
    {
        self.tab.fields()
    }

    /// The selected setting, if the tab has one there.
    pub fn selected_field(&self) -> (r: Option<SettingField>)
        ensures
            r == if self.selected < tab_fields(self.tab).len() {
                Some(tab_fields(self.tab)[self.selected as int])
            } else {
                None
            },
    {
        let f = self.fields();
        if self.selected < f.len() {
            Some(f[self.selected])
        } else {
            None
        }
    }

    /// The selected key row, on the keys tab.
    pub fn selected_key_row(&self) -> (r: Option<&KeyRow<S>>)
        ensures
            match r {
                Some(k) => self.tab == SettingsTab::Keys && self.selected < self.key_rows@.len() && *k == self.key_rows@[self.selected as int],
                None => self.tab != SettingsTab::Keys || self.selected >= self.key_rows@.len(),
            },
    {
        if self.tab == SettingsTab::Keys && self.selected < self.key_rows.len() {
            Some(&self.key_rows[self.selected])
        } else {
            None
        }
    }

    fn selectable_count(&self) -> (r: usize)
        ensures
            r == selectable(self.tab, self.key_rows@.len()),
    {
        if self.tab == SettingsTab::Keys {
            self.key_rows.len()
        } else {
            self.fields().len()
        }
    }

    /// Next tab, wrapping; the selection and any edit or capture are
    /// dropped and the view scrolls to the top.
    pub fn next_tab(&mut self)
        ensures
            final(self).tab == all_tabs()[(tab_index(old(self).tab) + 1) % 5],
            final(self).selected == 0 && final(self).editing is None && final(self).capture is None,
            final(self).scroll == 0,
            final(self).layer == old(self).layer,
    {
        let idx = tab_position(self.tab);
        let all = SettingsTab::all();
        self.tab = all[(idx + 1) % 5];
        self.selected = 0;
        self.editing = None;
        self.capture = None;
        self.scroll = 0;
    }

    /// Previous tab, wrapping; as [`ConfigPanel::next_tab`] otherwise.
    pub fn prev_tab(&mut self)
        ensures
            final(self).tab == all_tabs()[(tab_index(old(self).tab) + 4) % 5],
            final(self).selected == 0 && final(self).editing is None && final(self).capture is None,
            final(self).scroll == 0,
            final(self).layer == old(self).layer,
    {
        let idx = tab_position(self.tab);
        let all = SettingsTab::all();
        self.tab = all[(idx + 4) % 5];
        self.selected = 0;
        self.editing = None;
        self.capture = None;
        self.scroll = 0;
    }

    /// Write to the other layer.
    pub fn toggle_layer(&mut self)
        ensures
            final(self).layer != old(self).layer,
            final(self).tab == old(self).tab && final(self).selected == old(self).selected,
    {
        self.layer = self.layer.toggled();
    }

    /// One row up; frozen while editing or capturing.
    pub fn select_prev(&mut self)
        ensures
            final(self).selected == if old(self).editing is Some || old(self).capture is Some {
                old(self).selected
            } else if old(self).selected > 0 {
                (old(self).selected - 1) as usize
            } else {
                0
            },
            final(self).tab == old(self).tab,
    {
        if self.editing.is_some() || self.capture.is_some() {
            return;
        }
        self.selected = self.selected.saturating_sub(1);
    }

    /// One row down, stopping at the last; frozen while editing or
    /// capturing.
    pub fn select_next(&mut self)
        ensures
            final(self).selected == if old(self).editing is Some || old(self).capture is Some || selectable(
                old(self).tab,
                old(self).key_rows@.len(),
            ) == 0 {
                old(self).selected as int
            } else if old(self).selected + 1 < selectable(old(self).tab, old(self).key_rows@.len()) {
                old(self).selected + 1
            } else {
                selectable(old(self).tab, old(self).key_rows@.len()) - 1
            },
            final(self).tab == old(self).tab,
    {
        if self.editing.is_some() || self.capture.is_some() {
            return;
        }
        let count = self.selectable_count();
        if count > 0 {
            self.selected = if self.selected < count - 1 { self.selected + 1 } else { count - 1 };
        }
    }

    /// Start typing a new value, from `current`, when the selected
    /// setting is numeric or text.
    pub fn begin_edit(&mut self, current: &str)
        ensures
            opt_text(final(self).editing) == if old(self).selected < tab_fields(old(self).tab).len() && (field_kind(
                tab_fields(old(self).tab)[old(self).selected as int],
            ) == FieldKind::Uint || field_kind(tab_fields(old(self).tab)[old(self).selected as int]) == FieldKind::Text) {
                Some(current@)
            } else {
                match old(self).editing {
                    Some(s) => Some(s@),
                    None => None,
                }
            },
            final(self).selected == old(self).selected && final(self).tab == old(self).tab,
    {
        match self.selected_field() {
            Some(f) => match f.kind() {
                FieldKind::Uint | FieldKind::Text => {
                    self.editing = Some(string_of(chars_of(current).as_slice()));
                },
                _ => {},
            },
            None => {},
        }
    }

    /// Type `c` into the edit buffer: refused (false) when not editing, a
    /// non-digit into a number, or a control character into text; taken
    /// (true) otherwise, and appended while the buffer is under the
    /// setting's byte limit.
    pub fn push_edit_char(&mut self, c: char) -> (r: bool)
        ensures
            final(self).selected == old(self).selected && final(self).tab == old(self).tab,
            r == (old(self).editing is Some && edit_accepts(
                if old(self).selected < tab_fields(old(self).tab).len() {
                    Some(tab_fields(old(self).tab)[old(self).selected as int])
                } else {
                    None
                },
                c,
            )),
            !r ==> final(self).editing == old(self).editing,
            r ==> final(self).editing is Some && final(self).editing->0@ == if utf8_len(old(self).editing->0@) < (
            if old(self).selected < tab_fields(old(self).tab).len() {
                edit_limit(tab_fields(old(self).tab)[old(self).selected as int])
            } else {
                256
            }) {
                old(self).editing->0@.push(c)
            } else {
                old(self).editing->0@
            },
    {
        let field = self.selected_field();
        let uint = match field {
            Some(f) => f.kind() == FieldKind::Uint,
            None => false,
        };
        let limit = match field {
            Some(f) => f.edit_char_limit(),
            None => 256,
        };
        match &self.editing {
            None => false,
            Some(buf) => {
                if uint {
                    if !is_ascii_digit(c) {
                        return false;
                    }
                } else if is_control(c) {
                    return false;
                }
                let v = chars_of(buf.as_str());
                if under_bytes(&v, limit) {
                    let mut w = v;
                    w.push(c);
                    self.editing = Some(string_of(w.as_slice()));
                }
                true
            },
        }
    }

    /// Delete the edit buffer's last character.
    pub fn pop_edit_char(&mut self)
        ensures
            opt_text(final(self).editing) == match old(self).editing {
                Some(s) => Some(if s@.len() > 0 { s@.drop_last() } else { s@ }),
                None => None,
            },
    {
        match &self.editing {
            Some(buf) => {
                let mut v = chars_of(buf.as_str());
                if v.len() > 0 {
                    v.pop();
                }
                self.editing = Some(string_of(v.as_slice()));
            },
            None => {},
        }
    }

    pub fn cancel_edit(&mut self)
        ensures
            final(self).editing is None,
            final(self).selected == old(self).selected && final(self).tab == old(self).tab,
    {
        self.editing = None;
    }

    /// Hand over the typed value, ending the edit.
    pub fn take_edit(&mut self) -> (r: Option<String>)
        ensures
            r == old(self).editing,
            final(self).editing is None,
    {
        let r = self.editing.take();
        r
    }

    /// Start capturing keys for the selected row of the keys tab.
    pub fn begin_capture(&mut self)
        ensures
            (old(self).tab == SettingsTab::Keys && old(self).selected < old(self).key_rows@.len()) ==> final(self).capture
                is Some && final(self).capture->0.row == old(self).selected && final(self).capture->0.single_only == (old(
                self,
            ).key_rows@[old(self).selected as int].target is Modal) && final(self).capture->0.pending@.len() == 0,
            !(old(self).tab == SettingsTab::Keys && old(self).selected < old(self).key_rows@.len()) ==> final(self).capture
                == old(self).capture,
    {
        if self.tab != SettingsTab::Keys {
            return;
        }
        if self.selected < self.key_rows.len() {
            let single = self.key_rows[self.selected].target.single_only();
            self.capture = Some(KeyCapture { row: self.selected, single_only: single, pending: Vec::new() });
        }
    }

    /// Record a captured keystroke.
    pub fn capture_push(&mut self, stroke: KeyStroke)
        ensures
            match old(self).capture {
                Some(c) => final(self).capture is Some && final(self).capture->0.row == c.row
                    && final(self).capture->0.single_only == c.single_only && final(self).capture->0.pending@ == c.pending@.push(stroke),
                None => final(self).capture is None,
            },
    {
        match &mut self.capture {
            Some(cap) => {
                cap.pending.push(stroke);
            },
            None => {},
        }
    }

    /// Drop the last captured keystroke.
    pub fn capture_pop(&mut self)
        ensures
            match old(self).capture {
                Some(c) => final(self).capture is Some && final(self).capture->0.row == c.row
                    && final(self).capture->0.pending@ == if c.pending@.len() > 0 { c.pending@.drop_last() } else { c.pending@ },
                None => final(self).capture is None,
            },
    {
        match &mut self.capture {
            Some(cap) => {
                if cap.pending.len() > 0 {
                    cap.pending.pop();
                }
            },
            None => {},
        }
    }

    pub fn cancel_capture(&mut self)
        ensures
            final(self).capture is None,
    {
        self.capture = None;
    }

    /// Hand over the capture, ending it.
    pub fn take_capture(&mut self) -> (r: Option<KeyCapture>)
        ensures
            r == old(self).capture,
            final(self).capture is None,
    {
        let r = self.capture.take();
        r
    }

    pub fn scroll_down(&mut self)
        requires
            old(self).scroll < u16::MAX,
        ensures
            final(self).scroll == if old(self).scroll + 1 < old(self).max_scroll {
                old(self).scroll + 1
            } else {
                old(self).max_scroll as int
            },
    {
        let next = self.scroll + 1;
        self.scroll = if next < self.max_scroll { next } else { self.max_scroll };
    }

    pub fn scroll_up(&mut self)
        ensures
            final(self).scroll == if old(self).scroll > 0 { old(self).scroll - 1 } else { 0 },
    {
        self.scroll = self.scroll.saturating_sub(1);
    }

    pub fn scroll_right(&mut self)
        requires
            old(self).x_scroll < u16::MAX,
        ensures
            final(self).x_scroll == if old(self).x_scroll + 1 < old(self).max_x_scroll {
                old(self).x_scroll + 1
            } else {
                old(self).max_x_scroll as int
            },
    {
        let next = self.x_scroll + 1;
        self.x_scroll = if next < self.max_x_scroll { next } else { self.max_x_scroll };
    }

    pub fn scroll_left(&mut self)
        ensures
            final(self).x_scroll == if old(self).x_scroll > 0 { old(self).x_scroll - 1 } else { 0 },
    {
        self.x_scroll = self.x_scroll.saturating_sub(1);
    }

    pub fn scroll_to_top(&mut self)
        ensures
            final(self).scroll == 0,
    {
        self.scroll = 0;
    }

    pub fn scroll_to_bottom(&mut self)
        ensures
            final(self).scroll == old(self).max_scroll,
    {
        self.scroll = self.max_scroll;
    }

    /// Back to the top-left, first row, nothing in progress.
    pub fn reset(&mut self)
        ensures
            final(self).scroll == 0 && final(self).x_scroll == 0 && final(self).selected == 0,
            final(self).editing is None && final(self).capture is None,
            final(self).tab == old(self).tab && final(self).layer == old(self).layer,
    {
        self.scroll = 0;
        self.x_scroll = 0;
        self.selected = 0;
        self.editing = None;
        self.capture = None;
    }
}

/// Whether `v` takes fewer than `limit` bytes in UTF-8.
fn under_bytes(v: &Vec<char>, limit: usize) -> (r: bool)
    requires
        limit <= 256,
    ensures
        r == (utf8_len(v@) < limit),
{
    let mut total: usize = 0;
    let mut i: usize = 0;
    proof {
        assert(v@.take(0) =~= Seq::<char>::empty());
    }
    while i < v.len()
        invariant
            i <= v@.len(),
            total == utf8_len(v@.take(i as int)),
            total < limit + 4,
            limit <= 256,
        decreases v.len() - i,
    {
        if total >= limit {
            proof {
                lemma_utf8_monotone(v@, i as int);
            }
            return false;
        }
        proof {
            assert(v@.take(i + 1).drop_last() =~= v@.take(i as int));
        }
        let c = v[i];
        let n = c as u32;
        let w: usize = if n < 0x80 { 1 } else if n < 0x800 { 2 } else if n < 0x10000 { 3 } else { 4 };
        total = total + w;
        i += 1;
    }
    proof {
        assert(v@.take(v@.len() as int) =~= v@);
    }
    total < limit
}

proof fn lemma_utf8_monotone(s: Seq<char>, i: int)
    requires
        0 <= i <= s.len(),
    ensures
        utf8_len(s.take(i)) <= utf8_len(s),
    decreases s.len() - i,
{
    if i < s.len() {
        lemma_utf8_monotone(s, i + 1);
        assert(s.take(i + 1).drop_last() =~= s.take(i));
    } else {
        assert(s.take(i) =~= s);
    }
}

/// Stepping forward through the tabs and back returns to the same tab.
pub proof fn law_tab_round_trip(t: SettingsTab)
    ensures
        all_tabs()[(tab_index(all_tabs()[(tab_index(t) + 1) % 5]) + 4) % 5] == t,
{
}

} // verus!
