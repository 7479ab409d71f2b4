//! The global keymap: the rebindable list-view verbs, keystrokes and
//! chords, the key-string parser, and chord resolution with its
//! load-time conflict and prefix checks.
//!
//! Chords that are a strict prefix of another chord are refused when the
//! keymap is built, so resolution never has to wait on a timeout.

use vstd::prelude::*;
use crate::text::{is_lit, split_chars, split_words, split_on, ws_words, lemma_split_on_nonempty, is_ascii_digit, ascii_digit, chars_of, string_of};

verus! {

/// Every user-rebindable verb of the list view.
#[derive(Debug, Clone, Copy, PartialEq, Eq, Hash, Structural)]
pub enum Action {
    Down,
    Up,
    Top,
    Bottom,
    ToggleSidebar,
    ToggleSidebarMode,
    FocusSwap,
    Filter,
    Refresh,
    Create,
    DeleteConfirm,
    Bootstrap,
    ToggleDeleteBranch,
    GitTui,
    Review,
    Yank,
    Open,
    OpenMenu,
    LinkPrompt,
    FetchGithub,
    Help,
    Quit,
    CommandPalette,
}

/// The stable slug an action is configured by.
pub open spec fn action_slug(a: Action) -> Seq<char> {
    match a {
        Action::Down => "down"@,
        Action::Up => "up"@,
        Action::Top => "top"@,
        Action::Bottom => "bottom"@,
        Action::ToggleSidebar => "toggle_sidebar"@,
        Action::ToggleSidebarMode => "toggle_sidebar_mode"@,
        Action::FocusSwap => "focus_swap"@,
        Action::Filter => "filter"@,
        Action::Refresh => "refresh"@,
        Action::Create => "create"@,
        Action::DeleteConfirm => "delete"@,
        Action::Bootstrap => "bootstrap"@,
        Action::ToggleDeleteBranch => "delete_branch"@,
        Action::GitTui => "git_tui"@,
        Action::Review => "review"@,
        Action::Yank => "yank"@,
        Action::Open => "open"@,
        Action::OpenMenu => "open_menu"@,
        Action::LinkPrompt => "link"@,
        Action::FetchGithub => "fetch_github"@,
        Action::Help => "help"@,
        Action::Quit => "quit"@,
        Action::CommandPalette => "command_palette"@,
    }
}

/// Every action, in declaration order.
pub open spec fn all_actions() -> Seq<Action> {
    seq![
        Action::Down,
        Action::Up,
        Action::Top,
        Action::Bottom,
        Action::ToggleSidebar,
        Action::ToggleSidebarMode,
        Action::FocusSwap,
        Action::Filter,
        Action::Refresh,
        Action::Create,
        Action::DeleteConfirm,
        Action::Bootstrap,
        Action::ToggleDeleteBranch,
        Action::GitTui,
        Action::Review,
        Action::Yank,
        Action::Open,
        Action::OpenMenu,
        Action::LinkPrompt,
        Action::FetchGithub,
        Action::Help,
        Action::Quit,
        Action::CommandPalette,
    ]
}

/// The action configured by `s`, if any.
pub open spec fn action_from_slug(s: Seq<char>) -> Option<Action> {
    if s == "down"@ {
        Some(Action::Down)
    } else if s == "up"@ {
        Some(Action::Up)
    } else if s == "top"@ {
        Some(Action::Top)
    } else if s == "bottom"@ {
        Some(Action::Bottom)
    } else if s == "toggle_sidebar"@ {
        Some(Action::ToggleSidebar)
    } else if s == "toggle_sidebar_mode"@ {
        Some(Action::ToggleSidebarMode)
    } else if s == "focus_swap"@ {
        Some(Action::FocusSwap)
    } else if s == "filter"@ {
        Some(Action::Filter)
    } else if s == "refresh"@ {
        Some(Action::Refresh)
    } else if s == "create"@ {
        Some(Action::Create)
    } else if s == "delete"@ {
        Some(Action::DeleteConfirm)
    } else if s == "bootstrap"@ {
        Some(Action::Bootstrap)
    } else if s == "delete_branch"@ {
        Some(Action::ToggleDeleteBranch)
    } else if s == "git_tui"@ {
        Some(Action::GitTui)
    } else if s == "review"@ {
        Some(Action::Review)
    } else if s == "yank"@ {
        Some(Action::Yank)
    } else if s == "open"@ {
        Some(Action::Open)
    } else if s == "open_menu"@ {
        Some(Action::OpenMenu)
    } else if s == "link"@ {
        Some(Action::LinkPrompt)
    } else if s == "fetch_github"@ {
        Some(Action::FetchGithub)
    } else if s == "help"@ {
        Some(Action::Help)
    } else if s == "quit"@ {
        Some(Action::Quit)
    } else if s == "command_palette"@ {
        Some(Action::CommandPalette)
    } else {
        None
    }
}

impl Action {
    /// Stable slug used in `[tui.keys]`.
    pub fn slug(self) -> (r: &'static str)
        ensures
            r@ == action_slug(self),
    {
        match self {
            Action::Down => "down",
            Action::Up => "up",
            Action::Top => "top",
            Action::Bottom => "bottom",
            Action::ToggleSidebar => "toggle_sidebar",
            Action::ToggleSidebarMode => "toggle_sidebar_mode",
            Action::FocusSwap => "focus_swap",
            Action::Filter => "filter",
            Action::Refresh => "refresh",
            Action::Create => "create",
            Action::DeleteConfirm => "delete",
            Action::Bootstrap => "bootstrap",
            Action::ToggleDeleteBranch => "delete_branch",
            Action::GitTui => "git_tui",
            Action::Review => "review",
            Action::Yank => "yank",
            Action::Open => "open",
            Action::OpenMenu => "open_menu",
            Action::LinkPrompt => "link",
            Action::FetchGithub => "fetch_github",
            Action::Help => "help",
            Action::Quit => "quit",
            Action::CommandPalette => "command_palette",
        }
    }

    /// Inverse of [`Action::slug`].
    pub fn from_slug(s: &str) -> (r: Option<Action>)
        ensures
            r == action_from_slug(s@),
    {
        let v = chars_of(s);
        if is_lit(v.as_slice(), "down") {
            return Some(Action::Down);
        }
        if is_lit(v.as_slice(), "up") {
            return Some(Action::Up);
        }
        if is_lit(v.as_slice(), "top") {
            return Some(Action::Top);
        }
        if is_lit(v.as_slice(), "bottom") {
            return Some(Action::Bottom);
        }
        if is_lit(v.as_slice(), "toggle_sidebar") {
            return Some(Action::ToggleSidebar);
        }
        if is_lit(v.as_slice(), "toggle_sidebar_mode") {
            return Some(Action::ToggleSidebarMode);
        }
        if is_lit(v.as_slice(), "focus_swap") {
            return Some(Action::FocusSwap);
        }
        if is_lit(v.as_slice(), "filter") {
            return Some(Action::Filter);
        }
        if is_lit(v.as_slice(), "refresh") {
            return Some(Action::Refresh);
        }
        if is_lit(v.as_slice(), "create") {
            return Some(Action::Create);
        }
        if is_lit(v.as_slice(), "delete") {
            return Some(Action::DeleteConfirm);
        }
        if is_lit(v.as_slice(), "bootstrap") {
            return Some(Action::Bootstrap);
        }
        if is_lit(v.as_slice(), "delete_branch") {
            return Some(Action::ToggleDeleteBranch);
        }
        if is_lit(v.as_slice(), "git_tui") {
            return Some(Action::GitTui);
        }
        if is_lit(v.as_slice(), "review") {
            return Some(Action::Review);
        }
        if is_lit(v.as_slice(), "yank") {
            return Some(Action::Yank);
        }
        if is_lit(v.as_slice(), "open") {
            return Some(Action::Open);
        }
        if is_lit(v.as_slice(), "open_menu") {
            return Some(Action::OpenMenu);
        }
        if is_lit(v.as_slice(), "link") {
            return Some(Action::LinkPrompt);
        }
        if is_lit(v.as_slice(), "fetch_github") {
            return Some(Action::FetchGithub);
        }
        if is_lit(v.as_slice(), "help") {
            return Some(Action::Help);
        }
        if is_lit(v.as_slice(), "quit") {
            return Some(Action::Quit);
        }
        if is_lit(v.as_slice(), "command_palette") {
            return Some(Action::CommandPalette);
        }
        None
    }

    /// Every variant, in declaration order.
    pub fn all() -> (r: Vec<Action>)
        ensures
            r@ == all_actions(),
    {
        let r = vec![
            Action::Down,
            Action::Up,
            Action::Top,
            Action::Bottom,
            Action::ToggleSidebar,
            Action::ToggleSidebarMode,
            Action::FocusSwap,
            Action::Filter,
            Action::Refresh,
            Action::Create,
            Action::DeleteConfirm,
            Action::Bootstrap,
            Action::ToggleDeleteBranch,
            Action::GitTui,
            Action::Review,
            Action::Yank,
            Action::Open,
            Action::OpenMenu,
            Action::LinkPrompt,
            Action::FetchGithub,
            Action::Help,
            Action::Quit,
            Action::CommandPalette,
        ];
        proof {
            assert(r@ =~= all_actions());
        }
        r
    }
}

/// Every `(action, slug)` pair, in declaration order.
pub fn actions_table() -> (r: Vec<(Action, &'static str)>)
    ensures
        r@.len() == all_actions().len(),
        forall|i: int| 0 <= i < r@.len() ==> (#[trigger] r@[i]).0 == all_actions()[i] && r@[i].1@ == action_slug(r@[i].0),
{
    let all = Action::all();
    let mut out: Vec<(Action, &'static str)> = Vec::new();
    let mut i: usize = 0;
    while i < all.len()
        invariant
            all@ == all_actions(),
            i <= all@.len(),
            out@.len() == i,
            forall|k: int| 0 <= k < i ==> (#[trigger] out@[k]).0 == all_actions()[k] && out@[k].1@ == action_slug(out@[k].0),
        decreases all.len() - i,
    {
        out.push((all[i], all[i].slug()));
        i += 1;
    }
    out
}

/// Where a binding came from.
#[derive(Debug, Clone, Copy, PartialEq, Eq, Structural)]
pub enum Source {
    Default,
    UserConfig,
}

/// Outcome of resolving a pending-keys buffer against the keymap.
#[derive(Debug, Clone, Copy, PartialEq, Eq, Structural)]
pub enum ChordResolution {
    /// The buffer is exactly a bound chord.
    Matched(Action),
    /// The buffer is a strict prefix of at least one bound chord.
    PendingPrefix,
    /// Neither.
    NoMatch,
}

/// A key, as far as bindings can name one.
#[derive(Debug, Clone, Copy, PartialEq, Eq, Hash, Structural)]
pub enum KeyCode {
    Char(char),
    /// `F1` to `F12`.
    F(u8),
    Tab,
    Enter,
    Esc,
    Up,
    Down,
    Left,
    Right,
    Backspace,
    BackTab,
    Home,
    End,
    PageUp,
    PageDown,
    Insert,
    Delete,
    /// Any key no binding can name (media keys, lock keys, …).
    Other,
}

/// The modifier bits a binding can require.
#[derive(Debug, Clone, Copy, PartialEq, Eq, Hash, Default, Structural)]
pub struct KeyModifiers {
    pub ctrl: bool,
    pub alt: bool,
    pub shift: bool,
}

impl KeyModifiers {
    pub fn empty() -> (r: KeyModifiers)
        ensures
            !r.ctrl && !r.alt && !r.shift,
    {
        KeyModifiers { ctrl: false, alt: false, shift: false }
    }
}

/// One keystroke of a chord.
#[derive(Debug, Clone, Copy, PartialEq, Eq, Hash, Structural)]
pub struct KeyStroke {
    pub code: KeyCode,
    pub modifiers: KeyModifiers,
}

impl KeyStroke {
    pub fn new(code: KeyCode, modifiers: KeyModifiers) -> (r: KeyStroke)
        ensures
            r.code == code && r.modifiers == modifiers,
    {
        KeyStroke { code, modifiers }
    }
}

/// What was wrong with a key string.
#[derive(Debug, Clone, Copy, PartialEq, Eq, Structural)]
pub enum ParseFault {
    /// Nothing but whitespace.
    EmptyKeyString,
    /// An empty keystroke.
    EmptyToken,
    /// A `+` with nothing on one side.
    DanglingPlus,
    UnknownModifier,
    DuplicateModifier,
    /// `F` followed by something that is not a number.
    InvalidFunctionKey,
    /// A function key outside `F1`–`F12`.
    FunctionKeyOutOfRange,
    UnknownKey,
}

/// Why a key string or a keymap was refused.
#[derive(Debug, Clone, PartialEq, Eq)]
pub enum KeymapError {
    /// A key string that does not parse: what was wrong, the part at
    /// fault (a modifier or key name; empty where there is none), and the
    /// keystroke it sits in (the whole string for an empty one).
    Parse { fault: ParseFault, part: String, text: String },
    /// A chord with no keystrokes.
    EmptyChord { action: Action },
    /// One chord bound to two actions.
    Conflict { chord: Vec<KeyStroke>, first: Action, second: Action },
    /// A chord that is a strict prefix of another.
    Prefix { short: Vec<KeyStroke>, short_action: Action, long: Vec<KeyStroke>, long_action: Action },
}

/// A parse failure: what, the part at fault, and its keystroke.
pub struct Fault {
    pub fault: ParseFault,
    pub part: Seq<char>,
    pub text: Seq<char>,
}

pub open spec fn is_parse_error(e: KeymapError, f: Fault) -> bool {
    e matches KeymapError::Parse { fault, part, text } && fault == f.fault && part@ == f.part && text@ == f.text
}

/// The decimal value of the digits `d`.
pub open spec fn decimal_value(d: Seq<char>) -> nat
    decreases d.len(),
{
    if d.len() == 0 {
        0
    } else {
        decimal_value(d.drop_last()) * 10 + ((d.last() as u32) - ('0' as u32)) as nat
    }
}

/// `str::parse::<u8>`: an optional `+`, then one or more ASCII digits
/// whose value fits a `u8`.
pub open spec fn parse_u8(s: Seq<char>) -> Option<u8> {
    let d = unsigned_digits(s);
    if d.len() > 0 && all_digits(d) && decimal_value(d) <= 255 {
        Some(decimal_value(d) as u8)
    } else {
        None
    }
}

/// `s` without the `+` it may open with.
pub open spec fn unsigned_digits(s: Seq<char>) -> Seq<char> {
    if s.len() > 0 && s[0] == '+' { s.drop_first() } else { s }
}

pub open spec fn all_digits(d: Seq<char>) -> bool {
    forall|i: int| 0 <= i < d.len() ==> ascii_digit(#[trigger] d[i])
}

/// The key a key name denotes.
pub open spec fn keycode_spec(s: Seq<char>) -> Result<KeyCode, ParseFault> {
    if s == "Tab"@ {
        Ok(KeyCode::Tab)
    } else if s == "Enter"@ {
        Ok(KeyCode::Enter)
    } else if s == "Esc"@ {
        Ok(KeyCode::Esc)
    } else if s == "Up"@ {
        Ok(KeyCode::Up)
    } else if s == "Down"@ {
        Ok(KeyCode::Down)
    } else if s == "Left"@ {
        Ok(KeyCode::Left)
    } else if s == "Right"@ {
        Ok(KeyCode::Right)
    } else if s == "Backspace"@ {
        Ok(KeyCode::Backspace)
    } else if s == "BackTab"@ {
        Ok(KeyCode::BackTab)
    } else if s == "Home"@ {
        Ok(KeyCode::Home)
    } else if s == "End"@ {
        Ok(KeyCode::End)
    } else if s == "PageUp"@ {
        Ok(KeyCode::PageUp)
    } else if s == "PageDown"@ {
        Ok(KeyCode::PageDown)
    } else if s == "Insert"@ {
        Ok(KeyCode::Insert)
    } else if s == "Delete"@ {
        Ok(KeyCode::Delete)
    } else if s == "Space"@ {
        Ok(KeyCode::Char(' '))
    } else if s.len() > 1 && s[0] == 'F' {
        match parse_u8(s.drop_first()) {
            None => Err(ParseFault::InvalidFunctionKey),
            Some(n) => if 1 <= n <= 12 {
                Ok(KeyCode::F(n))
            } else {
                Err(ParseFault::FunctionKeyOutOfRange)
            },
        }
    } else if s.len() == 1 {
        Ok(KeyCode::Char(s[0]))
    } else {
        Err(ParseFault::UnknownKey)
    }
}

/// Which modifier a name sets.
#[derive(Debug, Clone, Copy, PartialEq, Eq, Structural)]
pub enum ModBit {
    Ctrl,
    Alt,
    Shift,
}

pub open spec fn mod_bit_spec(s: Seq<char>) -> Option<ModBit> {
    if s == "Ctrl"@ {
        Some(ModBit::Ctrl)
    } else if s == "Alt"@ {
        Some(ModBit::Alt)
    } else if s == "Shift"@ {
        Some(ModBit::Shift)
    } else {
        None
    }
}

pub open spec fn has_bit(m: KeyModifiers, b: ModBit) -> bool {
    match b {
        ModBit::Ctrl => m.ctrl,
        ModBit::Alt => m.alt,
        ModBit::Shift => m.shift,
    }
}

pub open spec fn with_bit(m: KeyModifiers, b: ModBit) -> KeyModifiers {
    match b {
        ModBit::Ctrl => KeyModifiers { ctrl: true, ..m },
        ModBit::Alt => KeyModifiers { alt: true, ..m },
        ModBit::Shift => KeyModifiers { shift: true, ..m },
    }
}

/// The modifiers named by `ps`, left to right: an unknown or repeated name
/// is refused, the first one found.
pub open spec fn mods_spec(ps: Seq<Seq<char>>) -> Result<KeyModifiers, (ParseFault, Seq<char>)>
    decreases ps.len(),
{
    if ps.len() == 0 {
        Ok(KeyModifiers { ctrl: false, alt: false, shift: false })
    } else {
        match mods_spec(ps.drop_last()) {
            Err(e) => Err(e),
            Ok(m) => match mod_bit_spec(ps.last()) {
                None => Err((ParseFault::UnknownModifier, ps.last())),
                Some(b) => if has_bit(m, b) {
                    Err((ParseFault::DuplicateModifier, ps.last()))
                } else {
                    Ok(with_bit(m, b))
                },
            },
        }
    }
}

/// One keystroke, `Mod+Mod+Key`.
pub open spec fn stroke_spec(tok: Seq<char>) -> Result<KeyStroke, (ParseFault, Seq<char>)> {
    let parts = split_on(tok, '+');
    if tok.len() == 0 {
        Err((ParseFault::EmptyToken, Seq::empty()))
    } else if exists|i: int| 0 <= i < parts.len() && #[trigger] parts[i].len() == 0 {
        Err((ParseFault::DanglingPlus, Seq::empty()))
    } else {
        match mods_spec(parts.drop_last()) {
            Err(e) => Err(e),
            Ok(m) => match keycode_spec(parts.last()) {
                Err(f) => Err((f, parts.last())),
                Ok(c) => Ok(KeyStroke { code: c, modifiers: m }),
            },
        }
    }
}

/// The keystrokes of the words `toks`, or the first failure with its
/// keystroke.
pub open spec fn strokes_spec(toks: Seq<Seq<char>>) -> Result<Seq<KeyStroke>, Fault>
    decreases toks.len(),
{
    if toks.len() == 0 {
        Ok(Seq::empty())
    } else {
        match strokes_spec(toks.drop_last()) {
            Err(e) => Err(e),
            Ok(ks) => match stroke_spec(toks.last()) {
                Err((f, p)) => Err(Fault { fault: f, part: p, text: toks.last() }),
                Ok(k) => Ok(ks.push(k)),
            },
        }
    }
}

/// A chord string: whitespace-separated keystrokes.
pub open spec fn chord_spec(s: Seq<char>) -> Result<Seq<KeyStroke>, Fault> {
    if ws_words(s).len() == 0 {
        Err(Fault { fault: ParseFault::EmptyKeyString, part: Seq::empty(), text: s })
    } else {
        strokes_spec(ws_words(s))
    }
}

pub open spec fn chord_outcome(s: Seq<char>, r: Result<Vec<KeyStroke>, KeymapError>) -> bool {
    match (r, chord_spec(s)) {
        (Ok(v), Ok(ks)) => v@ == ks,
        (Err(e), Err(f)) => is_parse_error(e, f),
        _ => false,
    }
}

fn parse_u8_exec(s: &[char]) -> (r: Option<u8>)
    ensures
        r == parse_u8(s@),
{
    let start: usize = if s.len() > 0 && s[0] == '+' { 1 } else { 0 };
    let ghost d = unsigned_digits(s@);
    proof {
        assert(d =~= s@.skip(start as int));
    }
    if start >= s.len() {
        return None;
    }
    let mut acc: u32 = 0;
    let mut i = start;
    proof {
        assert(d.take(0) =~= Seq::<char>::empty());
    }
    while i < s.len()
        invariant
            start <= i <= s@.len(),
            d == unsigned_digits(s@),
            d =~= s@.skip(start as int),
            forall|k: int| 0 <= k < i - start ==> ascii_digit(#[trigger] d[k]),
            acc as nat == if decimal_value(d.take(i - start)) <= 256 { decimal_value(d.take(i - start)) } else { 256 },
        decreases s.len() - i,
    {
        if !is_ascii_digit(s[i]) {
            proof {
                assert(d[i - start] == s@[i as int]);
                assert(!ascii_digit(d[i - start]));
                assert(!all_digits(d));
            }
            return None;
        }
        let digit = (s[i] as u32) - ('0' as u32);
        proof {
            assert(d[i - start] == s@[i as int]);
            assert(d.take(i + 1 - start).drop_last() =~= d.take(i - start));
            assert(d.take(i + 1 - start).last() == s@[i as int]);
        }
        let next = acc * 10 + digit;
        acc = if next > 256 { 256 } else { next };
        i += 1;
    }
    proof {
        assert(d.take(d.len() as int) =~= d);
    }
    if acc <= 255 {
        Some(acc as u8)
    } else {
        None
    }
}

fn keycode_exec(s: &[char]) -> (r: Result<KeyCode, ParseFault>)
    ensures
        r == keycode_spec(s@),
{
    if is_lit(s, "Tab") {
        Ok(KeyCode::Tab)
    } else if is_lit(s, "Enter") {
        Ok(KeyCode::Enter)
    } else if is_lit(s, "Esc") {
        Ok(KeyCode::Esc)
    } else if is_lit(s, "Up") {
        Ok(KeyCode::Up)
    } else if is_lit(s, "Down") {
        Ok(KeyCode::Down)
    } else if is_lit(s, "Left") {
        Ok(KeyCode::Left)
    } else if is_lit(s, "Right") {
        Ok(KeyCode::Right)
    } else if is_lit(s, "Backspace") {
        Ok(KeyCode::Backspace)
    } else if is_lit(s, "BackTab") {
        Ok(KeyCode::BackTab)
    } else if is_lit(s, "Home") {
        Ok(KeyCode::Home)
    } else if is_lit(s, "End") {
        Ok(KeyCode::End)
    } else if is_lit(s, "PageUp") {
        Ok(KeyCode::PageUp)
    } else if is_lit(s, "PageDown") {
        Ok(KeyCode::PageDown)
    } else if is_lit(s, "Insert") {
        Ok(KeyCode::Insert)
    } else if is_lit(s, "Delete") {
        Ok(KeyCode::Delete)
    } else if is_lit(s, "Space") {
        Ok(KeyCode::Char(' '))
    } else if s.len() > 1 && s[0] == 'F' {
        let mut rest: Vec<char> = Vec::new();
        let mut i: usize = 1;
        while i < s.len()
            invariant
                1 <= i <= s@.len(),
                rest@ == s@.subrange(1, i as int),
            decreases s.len() - i,
        {
            rest.push(s[i]);
            proof {
                assert(s@.subrange(1, i + 1) =~= s@.subrange(1, i as int).push(s@[i as int]));
            }
            i += 1;
        }
        proof {
            assert(rest@ =~= s@.drop_first());
        }
        match parse_u8_exec(rest.as_slice()) {
            None => Err(ParseFault::InvalidFunctionKey),
            Some(n) => if 1 <= n && n <= 12 {
                Ok(KeyCode::F(n))
            } else {
                Err(ParseFault::FunctionKeyOutOfRange)
            },
        }
    } else if s.len() == 1 {
        Ok(KeyCode::Char(s[0]))
    } else {
        Err(ParseFault::UnknownKey)
    }
}

fn mod_bit(s: &[char]) -> (r: Option<ModBit>)
    ensures
        r == mod_bit_spec(s@),
{
    if is_lit(s, "Ctrl") {
        Some(ModBit::Ctrl)
    } else if is_lit(s, "Alt") {
        Some(ModBit::Alt)
    } else if is_lit(s, "Shift") {
        Some(ModBit::Shift)
    } else {
        None
    }
}

fn copy_chars(v: &[char]) -> (r: Vec<char>)
    ensures
        r@ == v@,
{
    let mut out: Vec<char> = Vec::new();
    let mut i: usize = 0;
    while i < v.len()
        invariant
            i <= v@.len(),
            out@ == v@.take(i as int),
        decreases v.len() - i,
    {
        out.push(v[i]);
        proof {
            assert(v@.take(i + 1) =~= v@.take(i as int).push(v@[i as int]));
        }
        i += 1;
    }
    proof {
        assert(v@.take(v@.len() as int) =~= v@);
    }
    out
}

/// One keystroke, or what was wrong with it and the part at fault.
fn parse_stroke(tok: &[char]) -> (r: Result<KeyStroke, (ParseFault, Vec<char>)>)
    ensures
        match (r, stroke_spec(tok@)) {
            (Ok(k), Ok(k2)) => k == k2,
            (Err((f, p)), Err((f2, p2))) => f == f2 && p@ == p2,
            _ => false,
        },
{
    if tok.len() == 0 {
        return Err((ParseFault::EmptyToken, Vec::new()));
    }
    let parts = split_chars(tok, '+');
    let ghost pv = parts@.map_values(|p: Vec<char>| p@);
    proof {
        lemma_split_on_nonempty(tok@, '+');
    }
    let mut i: usize = 0;
    while i < parts.len()
        invariant
            pv == parts@.map_values(|p: Vec<char>| p@),
            pv == split_on(tok@, '+'),
            i <= parts@.len(),
            tok@.len() > 0,
            forall|k: int| 0 <= k < i ==> (#[trigger] pv[k]).len() != 0,
        decreases parts.len() - i,
    {
        if parts[i].len() == 0 {
            proof {
                assert(pv[i as int].len() == 0);
                assert(exists|q: int| 0 <= q < pv.len() && #[trigger] pv[q].len() == 0);
            }
            let e: Vec<char> = Vec::new();
            proof {
                assert(e@ =~= Seq::<char>::empty());
                assert(tok@.len() != 0);
                assert(stroke_spec(tok@) == Err::<KeyStroke, (ParseFault, Seq<char>)>((ParseFault::DanglingPlus, Seq::<char>::empty())));
            }
            return Err((ParseFault::DanglingPlus, e));
        }
        i += 1;
    }
    let last = parts.len() - 1;
    let mut m = KeyModifiers::empty();
    let mut j: usize = 0;
    proof {
        assert(pv.drop_last().take(0) =~= Seq::<Seq<char>>::empty());
    }
    while j < last
        invariant
            pv == parts@.map_values(|p: Vec<char>| p@),
            pv == split_on(tok@, '+'),
            last + 1 == parts@.len(),
            j <= last,
            tok@.len() > 0,
            forall|k: int| 0 <= k < pv.len() ==> (#[trigger] pv[k]).len() != 0,
            mods_spec(pv.drop_last().take(j as int)) == Ok::<KeyModifiers, (ParseFault, Seq<char>)>(m),
        decreases last - j,
    {
        proof {
            assert(pv.drop_last().take(j + 1).drop_last() =~= pv.drop_last().take(j as int));
            assert(pv.drop_last().take(j + 1).last() == parts@[j as int]@);
        }
        match mod_bit(parts[j].as_slice()) {
            None => {
                proof {
                    lemma_mods_err_extends(pv.drop_last(), j + 1);
                    assert(!exists|q: int| 0 <= q < pv.len() && #[trigger] pv[q].len() == 0);
                }
                return Err((ParseFault::UnknownModifier, copy_chars(parts[j].as_slice())));
            },
            Some(b) => {
                let present = match b {
                    ModBit::Ctrl => m.ctrl,
                    ModBit::Alt => m.alt,
                    ModBit::Shift => m.shift,
                };
                if present {
                    proof {
                        lemma_mods_err_extends(pv.drop_last(), j + 1);
                        assert(!exists|q: int| 0 <= q < pv.len() && #[trigger] pv[q].len() == 0);
                    }
                    return Err((ParseFault::DuplicateModifier, copy_chars(parts[j].as_slice())));
                }
                match b {
                    ModBit::Ctrl => m.ctrl = true,
                    ModBit::Alt => m.alt = true,
                    ModBit::Shift => m.shift = true,
                }
            },
        }
        j += 1;
    }
    proof {
        assert(pv.drop_last().take(last as int) =~= pv.drop_last());
        assert(!exists|q: int| 0 <= q < pv.len() && #[trigger] pv[q].len() == 0);
    }
    match keycode_exec(parts[last].as_slice()) {
        Err(f) => Err((f, copy_chars(parts[last].as_slice()))),
        Ok(c) => Ok(KeyStroke { code: c, modifiers: m }),
    }
}

proof fn lemma_mods_err_extends(ps: Seq<Seq<char>>, k: int)
    requires
        0 < k <= ps.len(),
        mods_spec(ps.take(k)) is Err,
    ensures
        mods_spec(ps) == mods_spec(ps.take(k)),
    decreases ps.len() - k,
{
    if k < ps.len() {
        assert(ps.take(k + 1).drop_last() =~= ps.take(k));
        lemma_mods_err_extends(ps, k + 1);
    } else {
        assert(ps.take(k) =~= ps);
    }
}

impl KeyStroke {
    /// Parse a chord string (`"j"`, `"g g"`, `"Ctrl+x Ctrl+s"`):
    /// whitespace separates keystrokes, `+` separates modifiers from the
    /// key, `Space` names the space bar.
    pub fn parse_chord(s: &str) -> (r: Result<Vec<KeyStroke>, KeymapError>)
        ensures
            chord_outcome(s@, r),
    {
        let chars = chars_of(s);
        let words = split_words(chars.as_slice());
        let ghost wv = words@.map_values(|p: Vec<char>| p@);
        if words.len() == 0 {
            return Err(KeymapError::Parse { fault: ParseFault::EmptyKeyString, part: String::new(), text: string_of(chars.as_slice()) });
        }
        let mut out: Vec<KeyStroke> = Vec::new();
        let mut i: usize = 0;
        proof {
            assert(wv.take(0) =~= Seq::<Seq<char>>::empty());
        }
        while i < words.len()
            invariant
                wv == words@.map_values(|p: Vec<char>| p@),
                wv == ws_words(s@),
                i <= words@.len(),
                strokes_spec(wv.take(i as int)) == Ok::<Seq<KeyStroke>, Fault>(out@),
            decreases words.len() - i,
        {
            proof {
                assert(wv.take(i + 1).drop_last() =~= wv.take(i as int));
                assert(wv.take(i + 1).last() == words@[i as int]@);
            }
            match parse_stroke(words[i].as_slice()) {
                Err((f, p)) => {
                    proof {
                        lemma_strokes_prefix_err(wv, i as int);
                    }
                    return Err(KeymapError::Parse { fault: f, part: string_of(p.as_slice()), text: string_of(words[i].as_slice()) });
                },
                Ok(k) => out.push(k),
            }
            i += 1;
        }
        proof {
            assert(wv.take(words@.len() as int) =~= wv);
        }
        Ok(out)
    }
}

proof fn lemma_strokes_prefix_err(ws: Seq<Seq<char>>, j: int)
    requires
        0 <= j < ws.len(),
        strokes_spec(ws.take(j)) is Ok,
        stroke_spec(ws[j]) is Err,
    ensures
        strokes_spec(ws) == Err::<Seq<KeyStroke>, Fault>(Fault { fault: stroke_spec(ws[j])->Err_0.0, part: stroke_spec(ws[j])->Err_0.1, text: ws[j] }),
    decreases ws.len() - j,
{
    assert(ws.take(j + 1).drop_last() =~= ws.take(j));
    if j + 1 < ws.len() {
        lemma_strokes_err_extends(ws, j + 1);
    } else {
        assert(ws.take(j + 1) =~= ws);
    }
}

proof fn lemma_strokes_err_extends(ws: Seq<Seq<char>>, k: int)
    requires
        0 < k <= ws.len(),
        strokes_spec(ws.take(k)) is Err,
    ensures
        strokes_spec(ws) == strokes_spec(ws.take(k)),
    decreases ws.len() - k,
{
    if k < ws.len() {
        assert(ws.take(k + 1).drop_last() =~= ws.take(k));
        lemma_strokes_err_extends(ws, k + 1);
    } else {
        assert(ws.take(k) =~= ws);
    }
}

/// The name a key is shown by.
pub open spec fn code_name(c: KeyCode) -> Seq<char> {
    match c {
        KeyCode::Char(ch) => if ch == ' ' { "Space"@ } else { seq![ch] },
        KeyCode::F(n) => seq!['F'] + small_decimal(n as nat),
        KeyCode::Tab => "Tab"@,
        KeyCode::Enter => "Enter"@,
        KeyCode::Esc => "Esc"@,
        KeyCode::Up => "Up"@,
        KeyCode::Down => "Down"@,
        KeyCode::Left => "Left"@,
        KeyCode::Right => "Right"@,
        KeyCode::Backspace => "Backspace"@,
        KeyCode::BackTab => "BackTab"@,
        KeyCode::Home => "Home"@,
        KeyCode::End => "End"@,
        KeyCode::PageUp => "PageUp"@,
        KeyCode::PageDown => "PageDown"@,
        KeyCode::Insert => "Insert"@,
        KeyCode::Delete => "Delete"@,
        KeyCode::Other => "Other"@,
    }
}

/// The decimal digits of `n < 1000`.
pub open spec fn small_decimal(n: nat) -> Seq<char> {
    if n < 10 {
        seq![(n + 48) as char]
    } else if n < 100 {
        seq![((n / 10) + 48) as char, ((n % 10) + 48) as char]
    } else {
        seq![((n / 100) + 48) as char, (((n / 10) % 10) + 48) as char, ((n % 10) + 48) as char]
    }
}

/// How a keystroke is written: modifiers always in `Ctrl+Alt+Shift+`
/// order, so two equal strokes are written alike.
pub open spec fn stroke_text(k: KeyStroke) -> Seq<char> {
    (if k.modifiers.ctrl { "Ctrl+"@ } else { Seq::empty() }) + (if k.modifiers.alt { "Alt+"@ } else { Seq::empty() })
        + (if k.modifiers.shift { "Shift+"@ } else { Seq::empty() }) + code_name(k.code)
}

/// A chord written out, its keystrokes separated by single spaces.
pub open spec fn chord_text(ks: Seq<KeyStroke>) -> Seq<char>
    decreases ks.len(),
{
    if ks.len() == 0 {
        Seq::empty()
    } else if ks.len() == 1 {
        stroke_text(ks[0])
    } else {
        chord_text(ks.drop_last()) + seq![' '] + stroke_text(ks.last())
    }
}

pub(crate) fn push_lit(out: &mut Vec<char>, lit: &str)
    ensures
        final(out)@ == old(out)@ + lit@,
{
    let v = chars_of(lit);
    let ghost start = out@;
    let mut i: usize = 0;
    while i < v.len()
        invariant
            i <= v@.len(),
            out@ == start + v@.take(i as int),
        decreases v.len() - i,
    {
        out.push(v[i]);
        proof {
            assert(v@.take(i + 1) =~= v@.take(i as int).push(v@[i as int]));
        }
        i += 1;
    }
    proof {
        assert(v@.take(v@.len() as int) =~= v@);
    }
}

fn push_code(out: &mut Vec<char>, c: KeyCode)
    ensures
        final(out)@ == old(out)@ + code_name(c),
{
    match c {
        KeyCode::Char(ch) => {
            if ch == ' ' {
                push_lit(out, "Space");
            } else {
                out.push(ch);
            }
        },
        KeyCode::F(n) => {
            out.push('F');
            if n < 10 {
                out.push(((n + 48) as u8) as char);
            } else if n < 100 {
                out.push(((n / 10 + 48) as u8) as char);
                out.push(((n % 10 + 48) as u8) as char);
            } else {
                out.push(((n / 100 + 48) as u8) as char);
                out.push((((n / 10) % 10 + 48) as u8) as char);
                out.push(((n % 10 + 48) as u8) as char);
            }
        },
        KeyCode::Tab => push_lit(out, "Tab"),
        KeyCode::Enter => push_lit(out, "Enter"),
        KeyCode::Esc => push_lit(out, "Esc"),
        KeyCode::Up => push_lit(out, "Up"),
        KeyCode::Down => push_lit(out, "Down"),
        KeyCode::Left => push_lit(out, "Left"),
        KeyCode::Right => push_lit(out, "Right"),
        KeyCode::Backspace => push_lit(out, "Backspace"),
        KeyCode::BackTab => push_lit(out, "BackTab"),
        KeyCode::Home => push_lit(out, "Home"),
        KeyCode::End => push_lit(out, "End"),
        KeyCode::PageUp => push_lit(out, "PageUp"),
        KeyCode::PageDown => push_lit(out, "PageDown"),
        KeyCode::Insert => push_lit(out, "Insert"),
        KeyCode::Delete => push_lit(out, "Delete"),
        KeyCode::Other => push_lit(out, "Other"),
    }
}

fn push_stroke(out: &mut Vec<char>, k: KeyStroke)
    ensures
        final(out)@ == old(out)@ + stroke_text(k),
{
    let ghost start = out@;
    if k.modifiers.ctrl {
        push_lit(out, "Ctrl+");
    }
    if k.modifiers.alt {
        push_lit(out, "Alt+");
    }
    if k.modifiers.shift {
        push_lit(out, "Shift+");
    }
    push_code(out, k.code);
    proof {
        assert(out@ =~= start + stroke_text(k));
    }
}

impl KeyStroke {
    /// The keystroke as written in config and shown in help.
    pub fn to_text(&self) -> (r: String)
        ensures
            r@ == stroke_text(*self),
    {
        let mut out: Vec<char> = Vec::new();
        push_stroke(&mut out, *self);
        proof {
            assert(out@ =~= stroke_text(*self));
        }
        string_of(out.as_slice())
    }
}

/// A chord as written in config: keystrokes separated by spaces.
pub fn format_chord(strokes: &[KeyStroke]) -> (r: String)
    ensures
        r@ == chord_text(strokes@),
{
    let mut out: Vec<char> = Vec::new();
    let mut i: usize = 0;
    while i < strokes.len()
        invariant
            i <= strokes@.len(),
            out@ == chord_text(strokes@.take(i as int)),
        decreases strokes.len() - i,
    {
        proof {
            assert(strokes@.take(i + 1).drop_last() =~= strokes@.take(i as int));
        }
        if i > 0 {
            out.push(' ');
        }
        push_stroke(&mut out, strokes[i]);
        proof {
            if i == 0 {
                assert(out@ =~= stroke_text(strokes@[0]));
            }
        }
        i += 1;
    }
    proof {
        assert(strokes@.take(strokes@.len() as int) =~= strokes@);
    }
    string_of(out.as_slice())
}

/// One action's resolved binding.
#[derive(Debug, Clone)]
pub struct Binding {
    pub action: Action,
    /// Each chord alone fires the action.
    pub chords: Vec<Vec<KeyStroke>>,
    pub source: Source,
}

/// A binding as the contracts see it.
pub struct BindingView {
    pub action: Action,
    pub chords: Seq<Seq<KeyStroke>>,
    pub source: Source,
}

pub open spec fn chords_view(cs: Seq<Vec<KeyStroke>>) -> Seq<Seq<KeyStroke>> {
    cs.map_values(|c: Vec<KeyStroke>| c@)
}

pub open spec fn binding_view(b: Binding) -> BindingView {
    BindingView { action: b.action, chords: chords_view(b.chords@), source: b.source }
}

/// Every chord of `es` with its action, entry by entry.
pub open spec fn flat(es: Seq<(Action, Seq<Seq<KeyStroke>>)>) -> Seq<(Seq<KeyStroke>, Action)>
    decreases es.len(),
{
    if es.len() == 0 {
        Seq::empty()
    } else {
        flat(es.drop_last()) + es.last().1.map_values(|c: Seq<KeyStroke>| (c, es.last().0))
    }
}

pub open spec fn pairs_of(es: Seq<BindingView>) -> Seq<(Action, Seq<Seq<KeyStroke>>)> {
    es.map_values(|b: BindingView| (b.action, b.chords))
}

/// `a` is a strict prefix of `b`.
pub open spec fn strict_prefix(a: Seq<KeyStroke>, b: Seq<KeyStroke>) -> bool {
    a.len() < b.len() && b.take(a.len() as int) == a
}

/// Chords `i` and `j` cannot both be bound: the same chord for two
/// different actions, or one a strict prefix of the other.
pub open spec fn clash(all: Seq<(Seq<KeyStroke>, Action)>, i: int, j: int) -> bool {
    if all[i].0 == all[j].0 {
        all[i].1 != all[j].1
    } else {
        strict_prefix(all[i].0, all[j].0) || strict_prefix(all[j].0, all[i].0)
    }
}

pub open spec fn no_empty(all: Seq<(Seq<KeyStroke>, Action)>) -> bool {
    forall|k: int| 0 <= k < all.len() ==> (#[trigger] all[k]).0.len() > 0
}

pub open spec fn no_clash_before(all: Seq<(Seq<KeyStroke>, Action)>, i: int, j: int) -> bool {
    forall|a: int, b: int| 0 <= a < b < all.len() && (a < i || (a == i && b < j)) ==> !#[trigger] clash(all, a, b)
}

pub open spec fn no_clash(all: Seq<(Seq<KeyStroke>, Action)>) -> bool {
    forall|a: int, b: int| 0 <= a < b < all.len() ==> !#[trigger] clash(all, a, b)
}

/// The error reported for the clashing pair `(i, j)`.
pub open spec fn pair_error(all: Seq<(Seq<KeyStroke>, Action)>, i: int, j: int, e: KeymapError) -> bool {
    if all[i].0 == all[j].0 {
        e matches KeymapError::Conflict { chord, first, second } && chord@ == all[i].0 && first == all[i].1
            && second == all[j].1
    } else {
        let (s, l) = if all[i].0.len() < all[j].0.len() { (i, j) } else { (j, i) };
        e matches KeymapError::Prefix { short, short_action, long, long_action } && short@ == all[s].0
            && short_action == all[s].1 && long@ == all[l].0 && long_action == all[l].1
    }
}

/// What validating the chords `all` gives: the first empty chord, else the
/// first clashing pair (in reading order), else success.
pub open spec fn validate_outcome(all: Seq<(Seq<KeyStroke>, Action)>, r: Result<(), KeymapError>) -> bool {
    match r {
        Ok(_) => no_empty(all) && no_clash(all),
        Err(e) => (exists|k: int|
            0 <= k < all.len() && (#[trigger] all[k]).0.len() == 0 && (forall|q: int| 0 <= q < k ==> (#[trigger] all[q]).0.len() > 0)
                && (e matches KeymapError::EmptyChord { action } && action == all[k].1)) || (no_empty(all) && exists|i: int, j: int|
            0 <= i < j < all.len() && #[trigger] clash(all, i, j) && no_clash_before(all, i, j) && pair_error(all, i, j, e)),
    }
}

fn copy_chord(v: &Vec<KeyStroke>) -> (r: Vec<KeyStroke>)
    ensures
        r@ == v@,
{
    let mut out: Vec<KeyStroke> = Vec::new();
    let mut i: usize = 0;
    while i < v.len()
        invariant
            i <= v@.len(),
            out@ == v@.take(i as int),
        decreases v.len() - i,
    {
        out.push(v[i]);
        proof {
            assert(v@.take(i + 1) =~= v@.take(i as int).push(v@[i as int]));
        }
        i += 1;
    }
    proof {
        assert(v@.take(v@.len() as int) =~= v@);
    }
    out
}

fn copy_chords(v: &Vec<Vec<KeyStroke>>) -> (r: Vec<Vec<KeyStroke>>)
    ensures
        chords_view(r@) == chords_view(v@),
{
    let mut out: Vec<Vec<KeyStroke>> = Vec::new();
    let mut i: usize = 0;
    while i < v.len()
        invariant
            i <= v@.len(),
            chords_view(out@) == chords_view(v@.take(i as int)),
        decreases v.len() - i,
    {
        let c = copy_chord(&v[i]);
        let ghost before = out@;
        out.push(c);
        proof {
            assert(chords_view(out@) =~= chords_view(before).push(c@));
            assert(chords_view(v@.take(i + 1)) =~= chords_view(v@.take(i as int)).push(v@[i as int]@));
        }
        i += 1;
    }
    proof {
        assert(v@.take(v@.len() as int) =~= v@);
    }
    out
}

fn same_chord(a: &Vec<KeyStroke>, b: &Vec<KeyStroke>) -> (r: bool)
    ensures
        r == (a@ == b@),
{
    if a.len() != b.len() {
        return false;
    }
    let mut k: usize = 0;
    while k < a.len()
        invariant
            a@.len() == b@.len(),
            k <= a@.len(),
            forall|j: int| 0 <= j < k ==> a@[j] == b@[j],
        decreases a.len() - k,
    {
        if a[k] != b[k] {
            return false;
        }
        k += 1;
    }
    proof {
        assert(a@ =~= b@);
    }
    true
}

/// Whether `short` is a strict prefix of `long`.
fn is_strict_prefix(short: &Vec<KeyStroke>, long: &Vec<KeyStroke>) -> (r: bool)
    ensures
        r == strict_prefix(short@, long@),
{
    if short.len() >= long.len() {
        return false;
    }
    let mut k: usize = 0;
    while k < short.len()
        invariant
            short@.len() < long@.len(),
            k <= short@.len(),
            forall|j: int| 0 <= j < k ==> short@[j] == long@[j],
        decreases short.len() - k,
    {
        if short[k] != long[k] {
            proof {
                assert(long@.take(short@.len() as int)[k as int] != short@[k as int]);
            }
            return false;
        }
        k += 1;
    }
    proof {
        assert(long@.take(short@.len() as int) =~= short@);
    }
    true
}

proof fn lemma_flat_push(es: Seq<(Action, Seq<Seq<KeyStroke>>)>, i: int, j: int)
    requires
        0 <= i < es.len(),
        0 <= j < es[i].1.len(),
    ensures
        flat(es.take(i)) + es[i].1.take(j + 1).map_values(|c: Seq<KeyStroke>| (c, es[i].0)) == (flat(es.take(i))
            + es[i].1.take(j).map_values(|c: Seq<KeyStroke>| (c, es[i].0))).push((es[i].1[j], es[i].0)),
{
    assert(es[i].1.take(j + 1).map_values(|c: Seq<KeyStroke>| (c, es[i].0)) =~= es[i].1.take(j).map_values(
        |c: Seq<KeyStroke>| (c, es[i].0),
    ).push((es[i].1[j], es[i].0)));
}

proof fn lemma_flat_step(es: Seq<(Action, Seq<Seq<KeyStroke>>)>, i: int)
    requires
        0 <= i < es.len(),
    ensures
        flat(es.take(i + 1)) == flat(es.take(i)) + es[i].1.take(es[i].1.len() as int).map_values(
            |c: Seq<KeyStroke>| (c, es[i].0),
        ),
{
    assert(es.take(i + 1).drop_last() =~= es.take(i));
    assert(es[i].1.take(es[i].1.len() as int) =~= es[i].1);
}

/// Check a candidate keymap: no empty chord, no chord bound to two
/// actions, no chord a strict prefix of another.
fn validate(entries: &Vec<(Action, Vec<Vec<KeyStroke>>)>) -> (r: Result<(), KeymapError>)
    ensures
        validate_outcome(flat(entries@.map_values(|e: (Action, Vec<Vec<KeyStroke>>)| (e.0, chords_view(e.1@)))), r),
{
    let ghost es = entries@.map_values(|e: (Action, Vec<Vec<KeyStroke>>)| (e.0, chords_view(e.1@)));
    let mut all: Vec<(Vec<KeyStroke>, Action)> = Vec::new();
    let mut i: usize = 0;
    proof {
        assert(es.take(0) =~= Seq::<(Action, Seq<Seq<KeyStroke>>)>::empty());
        assert(all@.map_values(|p: (Vec<KeyStroke>, Action)| (p.0@, p.1)) =~= flat(es.take(0)));
    }
    while i < entries.len()
        invariant
            es == entries@.map_values(|e: (Action, Vec<Vec<KeyStroke>>)| (e.0, chords_view(e.1@))),
            i <= entries@.len(),
            all@.map_values(|p: (Vec<KeyStroke>, Action)| (p.0@, p.1)) == flat(es.take(i as int)),
            no_empty(flat(es.take(i as int))),
        decreases entries.len() - i,
    {
        let action = entries[i].0;
        let chords = &entries[i].1;
        let mut j: usize = 0;
        proof {
            assert(es[i as int].1.take(0).map_values(|c: Seq<KeyStroke>| (c, es[i as int].0)) =~= Seq::<(Seq<KeyStroke>, Action)>::empty());
            assert(flat(es.take(i as int)) + Seq::<(Seq<KeyStroke>, Action)>::empty() =~= flat(es.take(i as int)));
        }
        while j < chords.len()
            invariant
                es == entries@.map_values(|e: (Action, Vec<Vec<KeyStroke>>)| (e.0, chords_view(e.1@))),
                i < entries@.len(),
                action == entries@[i as int].0,
                *chords == entries@[i as int].1,
                j <= chords@.len(),
                all@.map_values(|p: (Vec<KeyStroke>, Action)| (p.0@, p.1)) == flat(es.take(i as int)) + es[i as int].1.take(
                    j as int,
                ).map_values(|c: Seq<KeyStroke>| (c, es[i as int].0)),
                no_empty(all@.map_values(|p: (Vec<KeyStroke>, Action)| (p.0@, p.1))),
            decreases chords.len() - j,
        {
            let ghost av = all@.map_values(|p: (Vec<KeyStroke>, Action)| (p.0@, p.1));
            proof {
                assert(es[i as int].1[j as int] == chords@[j as int]@);
                lemma_flat_push(es, i as int, j as int);
            }
            if chords[j].len() == 0 {
                proof {
                    let k = av.len() as int;
                    let full = flat(es);
                    lemma_flat_prefix(es, i as int, j as int);
                    assert(full[k] == (es[i as int].1[j as int], action));
                    assert forall|q: int| 0 <= q < k implies (#[trigger] full[q]).0.len() > 0 by {
                        assert(full[q] == av[q]);
                    }
                }
                return Err(KeymapError::EmptyChord { action });
            }
            all.push((copy_chord(&chords[j]), action));
            proof {
                assert(all@.map_values(|p: (Vec<KeyStroke>, Action)| (p.0@, p.1)) =~= av.push((es[i as int].1[j as int], es[i as int].0)));
            }
            j += 1;
        }
        proof {
            lemma_flat_step(es, i as int);
        }
        i += 1;
    }
    proof {
        assert(es.take(entries@.len() as int) =~= es);
    }
    let ghost av = all@.map_values(|p: (Vec<KeyStroke>, Action)| (p.0@, p.1));
    let n = all.len();
    let mut a: usize = 0;
    while a < n
        invariant
            n == all@.len(),
            av == all@.map_values(|p: (Vec<KeyStroke>, Action)| (p.0@, p.1)),
            av == flat(es),
            es == entries@.map_values(|e: (Action, Vec<Vec<KeyStroke>>)| (e.0, chords_view(e.1@))),
            no_empty(av),
            a <= n,
            no_clash_before(av, a as int, a as int + 1),
        decreases n - a,
    {
        let mut b: usize = a + 1;
        while b < n
            invariant
                n == all@.len(),
                av == all@.map_values(|p: (Vec<KeyStroke>, Action)| (p.0@, p.1)),
                av == flat(es),
                es == entries@.map_values(|e: (Action, Vec<Vec<KeyStroke>>)| (e.0, chords_view(e.1@))),
                no_empty(av),
                a < n,
                a < b <= n,
                no_clash_before(av, a as int, b as int),
            decreases n - b,
        {
            proof {
                assert(av[a as int] == (all@[a as int].0@, all@[a as int].1));
                assert(av[b as int] == (all@[b as int].0@, all@[b as int].1));
            }
            if same_chord(&all[a].0, &all[b].0) {
                if all[a].1 != all[b].1 {
                    let e = KeymapError::Conflict { chord: copy_chord(&all[a].0), first: all[a].1, second: all[b].1 };
                    proof {
                        assert(clash(av, a as int, b as int));
                        assert(pair_error(av, a as int, b as int, e));
                    }
                    return Err(e);
                }
            } else {
                let (s, l) = if all[a].0.len() < all[b].0.len() { (a, b) } else { (b, a) };
                if is_strict_prefix(&all[s].0, &all[l].0) {
                    let e = KeymapError::Prefix {
                        short: copy_chord(&all[s].0),
                        short_action: all[s].1,
                        long: copy_chord(&all[l].0),
                        long_action: all[l].1,
                    };
                    proof {
                        assert(av[s as int] == (all@[s as int].0@, all@[s as int].1));
                        assert(av[l as int] == (all@[l as int].0@, all@[l as int].1));
                        assert(clash(av, a as int, b as int));
                        assert(pair_error(av, a as int, b as int, e));
                    }
                    return Err(e);
                }
                proof {
                    if strict_prefix(av[l as int].0, av[s as int].0) {
                        assert(av[l as int].0.len() < av[s as int].0.len());
                    }
                }
            }
            proof {
                assert(!clash(av, a as int, b as int));
            }
            b += 1;
        }
        a += 1;
    }
    Ok(())
}

proof fn lemma_flat_prefix(es: Seq<(Action, Seq<Seq<KeyStroke>>)>, i: int, j: int)
    requires
        0 <= i < es.len(),
        0 <= j < es[i].1.len(),
    ensures
        flat(es).len() > flat(es.take(i)).len() + j,
        flat(es)[flat(es.take(i)).len() + j] == (es[i].1[j], es[i].0),
        forall|q: int| 0 <= q < flat(es.take(i)).len() + j ==> #[trigger] flat(es)[q] == (flat(es.take(i)) + es[i].1.take(j).map_values(
            |c: Seq<KeyStroke>| (c, es[i].0),
        ))[q],
    decreases es.len() - i,
{
    lemma_flat_extends(es, i + 1);
    lemma_flat_step(es, i);
    assert(es[i].1.take(es[i].1.len() as int) =~= es[i].1);
}

proof fn lemma_flat_extends(es: Seq<(Action, Seq<Seq<KeyStroke>>)>, k: int)
    requires
        0 <= k <= es.len(),
    ensures
        flat(es).len() >= flat(es.take(k)).len(),
        forall|q: int| 0 <= q < flat(es.take(k)).len() ==> #[trigger] flat(es)[q] == flat(es.take(k))[q],
    decreases es.len() - k,
{
    if k < es.len() {
        lemma_flat_extends(es, k + 1);
        assert(es.take(k + 1).drop_last() =~= es.take(k));
    } else {
        assert(es.take(k) =~= es);
    }
}

/// A keystroke with no modifiers.
pub open spec fn plain(c: KeyCode) -> KeyStroke {
    KeyStroke { code: c, modifiers: KeyModifiers { ctrl: false, alt: false, shift: false } }
}

fn key(c: KeyCode) -> (r: KeyStroke)
    ensures
        r == plain(c),
{
    KeyStroke { code: c, modifiers: KeyModifiers::empty() }
}

/// The chords an action ships bound to.
pub open spec fn default_chords(a: Action) -> Seq<Seq<KeyStroke>> {
    match a {
        Action::Down => seq![seq![plain(KeyCode::Char('j'))], seq![plain(KeyCode::Down)]],
        Action::Up => seq![seq![plain(KeyCode::Char('k'))], seq![plain(KeyCode::Up)]],
        Action::Top => seq![seq![plain(KeyCode::Char('g')), plain(KeyCode::Char('g'))]],
        Action::Bottom => seq![seq![plain(KeyCode::Char('G'))], seq![plain(KeyCode::End)]],
        Action::ToggleSidebar => seq![seq![plain(KeyCode::Char('v'))]],
        Action::ToggleSidebarMode => seq![seq![plain(KeyCode::Char('s'))]],
        Action::FocusSwap => seq![seq![plain(KeyCode::Tab)]],
        Action::Filter => seq![seq![plain(KeyCode::Char('/'))]],
        Action::Refresh => seq![seq![plain(KeyCode::Char('f'))], seq![plain(KeyCode::Char('r'))]],
        Action::Create => seq![seq![plain(KeyCode::Char('n'))]],
        Action::DeleteConfirm => seq![seq![plain(KeyCode::Char('d'))]],
        Action::Bootstrap => seq![seq![plain(KeyCode::Char('b'))]],
        Action::ToggleDeleteBranch => seq![seq![plain(KeyCode::Char('p'))]],
        Action::GitTui => seq![seq![plain(KeyCode::Char('l'))]],
        Action::Review => seq![seq![plain(KeyCode::Char('R'))]],
        Action::Yank => seq![seq![plain(KeyCode::Char('y'))]],
        Action::Open => seq![seq![plain(KeyCode::Char('o'))]],
        Action::OpenMenu => seq![seq![plain(KeyCode::Char('O'))]],
        Action::LinkPrompt => seq![seq![plain(KeyCode::Char('L'))]],
        Action::FetchGithub => seq![seq![plain(KeyCode::Char('F'))]],
        Action::Help => seq![seq![plain(KeyCode::Char('?'))]],
        Action::Quit => seq![seq![plain(KeyCode::Char('q'))]],
        Action::CommandPalette => seq![seq![plain(KeyCode::Char(':'))]],
    }
}

fn default_chords_exec(a: Action) -> (r: Vec<Vec<KeyStroke>>)
    ensures
        chords_view(r@) == default_chords(a),
{
    let r = match a {
        Action::Down => vec![vec![key(KeyCode::Char('j'))], vec![key(KeyCode::Down)]],
        Action::Up => vec![vec![key(KeyCode::Char('k'))], vec![key(KeyCode::Up)]],
        Action::Top => vec![vec![key(KeyCode::Char('g')), key(KeyCode::Char('g'))]],
        Action::Bottom => vec![vec![key(KeyCode::Char('G'))], vec![key(KeyCode::End)]],
        Action::ToggleSidebar => vec![vec![key(KeyCode::Char('v'))]],
        Action::ToggleSidebarMode => vec![vec![key(KeyCode::Char('s'))]],
        Action::FocusSwap => vec![vec![key(KeyCode::Tab)]],
        Action::Filter => vec![vec![key(KeyCode::Char('/'))]],
        Action::Refresh => vec![vec![key(KeyCode::Char('f'))], vec![key(KeyCode::Char('r'))]],
        Action::Create => vec![vec![key(KeyCode::Char('n'))]],
        Action::DeleteConfirm => vec![vec![key(KeyCode::Char('d'))]],
        Action::Bootstrap => vec![vec![key(KeyCode::Char('b'))]],
        Action::ToggleDeleteBranch => vec![vec![key(KeyCode::Char('p'))]],
        Action::GitTui => vec![vec![key(KeyCode::Char('l'))]],
        Action::Review => vec![vec![key(KeyCode::Char('R'))]],
        Action::Yank => vec![vec![key(KeyCode::Char('y'))]],
        Action::Open => vec![vec![key(KeyCode::Char('o'))]],
        Action::OpenMenu => vec![vec![key(KeyCode::Char('O'))]],
        Action::LinkPrompt => vec![vec![key(KeyCode::Char('L'))]],
        Action::FetchGithub => vec![vec![key(KeyCode::Char('F'))]],
        Action::Help => vec![vec![key(KeyCode::Char('?'))]],
        Action::Quit => vec![vec![key(KeyCode::Char('q'))]],
        Action::CommandPalette => vec![vec![key(KeyCode::Char(':'))]],
    };
    proof {
        assert(chords_view(r@) =~~= default_chords(a));
    }
    r
}

/// The keymap the binary ships: every action, in declaration order, with
/// its default chords.
pub open spec fn is_default_keymap(es: Seq<BindingView>) -> bool {
    &&& es.len() == all_actions().len()
    &&& forall|i: int|
        0 <= i < es.len() ==> (#[trigger] es[i]).action == all_actions()[i] && es[i].chords == default_chords(
            all_actions()[i],
        ) && es[i].source == Source::Default
}

/// The chords of `es` with `a`'s replaced by `cs` (appended when `a` has
/// no entry yet): what an override is validated against.
pub open spec fn candidate(es: Seq<BindingView>, a: Action, cs: Seq<Seq<KeyStroke>>) -> Seq<(Action, Seq<Seq<KeyStroke>>)> {
    let replaced = es.map_values(|b: BindingView| (b.action, if b.action == a { cs } else { b.chords }));
    if exists|i: int| 0 <= i < es.len() && #[trigger] es[i].action == a {
        replaced
    } else {
        replaced.push((a, cs))
    }
}

/// The keymap after a successful override of `a` with `cs`.
pub open spec fn overridden(es: Seq<BindingView>, a: Action, cs: Seq<Seq<KeyStroke>>) -> Seq<BindingView> {
    let replaced = es.map_values(
        |b: BindingView|
            if b.action == a {
                BindingView { action: a, chords: cs, source: Source::UserConfig }
            } else {
                b
            },
    );
    if exists|i: int| 0 <= i < es.len() && #[trigger] es[i].action == a {
        replaced
    } else {
        replaced.push(BindingView { action: a, chords: cs, source: Source::UserConfig })
    }
}

/// `keys` is exactly one of the chords of entry `i`.
pub open spec fn binds(es: Seq<BindingView>, i: int, keys: Seq<KeyStroke>) -> bool {
    exists|j: int| 0 <= j < es[i].chords.len() && #[trigger] es[i].chords[j] == keys
}

/// `keys` is a strict prefix of a chord of entry `i`.
pub open spec fn awaits(es: Seq<BindingView>, i: int, keys: Seq<KeyStroke>) -> bool {
    exists|j: int| 0 <= j < es[i].chords.len() && strict_prefix(keys, #[trigger] es[i].chords[j])
}

/// Resolving a pending-keys buffer: the first entry with a chord equal to
/// it, else pending when it is the strict prefix of some chord, else no
/// match.
pub open spec fn lookup_spec(es: Seq<BindingView>, keys: Seq<KeyStroke>) -> ChordResolution {
    if exists|i: int| 0 <= i < es.len() && #[trigger] binds(es, i, keys) {
        let i = choose|i: int| 0 <= i < es.len() && #[trigger] binds(es, i, keys) && forall|q: int| 0 <= q < i ==> !binds(es, q, keys);
        ChordResolution::Matched(es[i].action)
    } else if exists|i: int| 0 <= i < es.len() && #[trigger] awaits(es, i, keys) {
        ChordResolution::PendingPrefix
    } else {
        ChordResolution::NoMatch
    }
}

/// The resolved global keymap.
#[derive(Debug, Clone)]
pub struct Keymap {
    entries: Vec<Binding>,
}

impl Keymap {
    pub closed spec fn view(&self) -> Seq<BindingView> {
        self.entries@.map_values(|b: Binding| binding_view(b))
    }

    /// No action has two entries.
    pub open spec fn wf(&self) -> bool {
        forall|i: int, j: int| 0 <= i < j < self.view().len() ==> #[trigger] self.view()[i].action != #[trigger] self.view()[j].action
    }

    /// The shipped bindings.
    pub fn defaults() -> (r: Keymap)
        ensures
            r.wf(),
            is_default_keymap(r.view()),
    {
        let all = Action::all();
        let mut entries: Vec<Binding> = Vec::new();
        let mut i: usize = 0;
        while i < all.len()
            invariant
                all@ == all_actions(),
                i <= all@.len(),
                entries@.len() == i,
                forall|k: int|
                    0 <= k < i ==> (#[trigger] entries@[k]).action == all_actions()[k] && chords_view(entries@[k].chords@)
                        == default_chords(all_actions()[k]) && entries@[k].source == Source::Default,
            decreases all.len() - i,
        {
            let a = all[i];
            entries.push(Binding { action: a, chords: default_chords_exec(a), source: Source::Default });
            i += 1;
        }
        let r = Keymap { entries };
        proof {
            assert forall|p: int, q: int| 0 <= p < q < r.view().len() implies #[trigger] r.view()[p].action != #[trigger] r.view()[q].action by {
                assert(r.view()[p].action == all_actions()[p]);
                assert(r.view()[q].action == all_actions()[q]);
            }
        }
        r
    }

    /// Replace the chords bound to `action` with `chords` (an empty list
    /// unbinds it), refusing the whole change, with the keymap untouched,
    /// when the result would hold an empty chord, a chord bound to two
    /// actions, or a chord that is a strict prefix of another.
    pub fn apply_override(&mut self, action: Action, chords: Vec<Vec<KeyStroke>>) -> (r: Result<(), KeymapError>)
        requires
            old(self).wf(),
        ensures
            final(self).wf(),
            validate_outcome(flat(candidate(old(self).view(), action, chords_view(chords@))), r),
            r is Ok ==> final(self).view() == overridden(old(self).view(), action, chords_view(chords@)),
            r is Err ==> final(self).view() == old(self).view(),
    {
        let ghost es = self.view();
        let ghost cs = chords_view(chords@);
        let mut cand: Vec<(Action, Vec<Vec<KeyStroke>>)> = Vec::new();
        let mut next: Vec<Binding> = Vec::new();
        let mut found = false;
        let mut i: usize = 0;
        while i < self.entries.len()
            invariant
                es == self.view(),
                cs == chords_view(chords@),
                i <= self.entries@.len(),
                cand@.len() == i,
                next@.len() == i,
                forall|k: int|
                    0 <= k < i ==> (#[trigger] cand@[k]).0 == es[k].action && chords_view(cand@[k].1@) == (if es[k].action
                        == action {
                        cs
                    } else {
                        es[k].chords
                    }),
                forall|k: int|
                    0 <= k < i ==> binding_view(#[trigger] next@[k]) == (if es[k].action == action {
                        BindingView { action, chords: cs, source: Source::UserConfig }
                    } else {
                        es[k]
                    }),
                found == exists|k: int| 0 <= k < i && #[trigger] es[k].action == action,
            decreases self.entries.len() - i,
        {
            let b = &self.entries[i];
            proof {
                assert(es[i as int] == binding_view(self.entries@[i as int]));
            }
            if b.action == action {
                cand.push((b.action, copy_chords(&chords)));
                next.push(Binding { action, chords: copy_chords(&chords), source: Source::UserConfig });
                found = true;
                proof {
                    assert(es[i as int].action == action);
                }
            } else {
                cand.push((b.action, copy_chords(&b.chords)));
                next.push(Binding { action: b.action, chords: copy_chords(&b.chords), source: b.source });
                proof {
                    assert(es[i as int].action != action);
                    assert(found == exists|k: int| 0 <= k < i + 1 && #[trigger] es[k].action == action);
                }
            }
            i += 1;
        }
        if !found {
            cand.push((action, copy_chords(&chords)));
            next.push(Binding { action, chords: copy_chords(&chords), source: Source::UserConfig });
        }
        proof {
            let cv = cand@.map_values(|e: (Action, Vec<Vec<KeyStroke>>)| (e.0, chords_view(e.1@)));
            assert(cv =~= candidate(es, action, cs));
            let nv = next@.map_values(|b: Binding| binding_view(b));
            assert(nv =~= overridden(es, action, cs));
        }
        match validate(&cand) {
            Err(e) => return Err(e),
            Ok(()) => {},
        }
        self.entries = next;
        proof {
            let got = self.view();
            assert forall|p: int, q: int| 0 <= p < q < got.len() implies #[trigger] got[p].action != #[trigger] got[q].action by {
                if q < es.len() {
                    assert(got[p].action == es[p].action);
                    assert(got[q].action == es[q].action);
                } else {
                    assert(got[p].action == es[p].action);
                }
            }
        }
        Ok(())
    }

    /// Resolve a pending-keys buffer.
    pub fn lookup(&self, keys: &[KeyStroke]) -> (r: ChordResolution)
        ensures
            r == lookup_spec(self.view(), keys@),
    {
        let ghost es = self.view();
        let kv = copy_chord_slice(keys);
        let mut pending = false;
        let mut i: usize = 0;
        while i < self.entries.len()
            invariant
                es == self.view(),
                kv@ == keys@,
                i <= es.len(),
                forall|q: int| 0 <= q < i ==> !#[trigger] binds(es, q, keys@),
                pending == exists|q: int| 0 <= q < i && #[trigger] awaits(es, q, keys@),
            decreases self.entries.len() - i,
        {
            proof {
                assert(es[i as int] == binding_view(self.entries@[i as int]));
            }
            let (hit, here) = scan_chords(&self.entries[i].chords, &kv);
            proof {
                let cv = chords_view(self.entries@[i as int].chords@);
                assert(es[i as int].chords == cv);
                if hit {
                    let j = choose|j: int| 0 <= j < self.entries@[i as int].chords@.len() && #[trigger] cv[j] == keys@;
                    assert(es[i as int].chords[j] == keys@);
                } else {
                    assert(!binds(es, i as int, keys@)) by {
                        if binds(es, i as int, keys@) {
                            let j = choose|j: int| 0 <= j < es[i as int].chords.len() && #[trigger] es[i as int].chords[j] == keys@;
                            assert(cv[j] == keys@);
                        }
                    }
                }
                if here {
                    let j = choose|j: int| 0 <= j < self.entries@[i as int].chords@.len() && strict_prefix(keys@, #[trigger] cv[j]);
                    assert(strict_prefix(keys@, es[i as int].chords[j]));
                    assert(awaits(es, i as int, keys@));
                } else {
                    assert(!awaits(es, i as int, keys@)) by {
                        if awaits(es, i as int, keys@) {
                            let j = choose|j: int| 0 <= j < es[i as int].chords.len() && strict_prefix(keys@, #[trigger] es[i as int].chords[j]);
                            assert(strict_prefix(keys@, cv[j]));
                        }
                    }
                }
            }
            if hit {
                let a = self.entries[i].action;
                proof {
                    assert(binds(es, i as int, keys@));
                    let w = choose|w: int| 0 <= w < es.len() && #[trigger] binds(es, w, keys@) && forall|q: int| 0 <= q < w ==> !binds(es, q, keys@);
                    assert(w == i) by {
                        if w < i {
                        } else if w > i {
                            assert(!binds(es, i as int, keys@));
                        }
                    }
                }
                return ChordResolution::Matched(a);
            }
            if here {
                pending = true;
            }
            i += 1;
        }
        if pending {
            ChordResolution::PendingPrefix
        } else {
            ChordResolution::NoMatch
        }
    }

    /// Every binding, in declaration order.
    pub fn list(&self) -> (r: Vec<Binding>)
        ensures
            r@.map_values(|b: Binding| binding_view(b)) == self.view(),
    {
        let mut out: Vec<Binding> = Vec::new();
        let mut i: usize = 0;
        while i < self.entries.len()
            invariant
                i <= self.entries@.len(),
                out@.map_values(|b: Binding| binding_view(b)) == self.view().take(i as int),
            decreases self.entries.len() - i,
        {
            let b = &self.entries[i];
            let c = Binding { action: b.action, chords: copy_chords(&b.chords), source: b.source };
            let ghost before = out@;
            out.push(c);
            proof {
                assert(out@.map_values(|b: Binding| binding_view(b)) =~= before.map_values(|b: Binding| binding_view(b)).push(binding_view(c)));
                assert(self.view().take(i + 1) =~= self.view().take(i as int).push(self.view()[i as int]));
            }
            i += 1;
        }
        proof {
            assert(self.view().take(self.view().len() as int) =~= self.view());
        }
        out
    }
}

/// Whether one of `chords` is exactly `keys`, and whether `keys` is a
/// strict prefix of one of them.
fn scan_chords(chords: &Vec<Vec<KeyStroke>>, keys: &Vec<KeyStroke>) -> (r: (bool, bool))
    ensures
        r.0 == exists|j: int| 0 <= j < chords@.len() && #[trigger] chords_view(chords@)[j] == keys@,
        r.1 == exists|j: int| 0 <= j < chords@.len() && strict_prefix(keys@, #[trigger] chords_view(chords@)[j]),
{
    let ghost cv = chords_view(chords@);
    let mut here = false;
    let mut j: usize = 0;
    while j < chords.len()
        invariant
            cv == chords_view(chords@),
            j <= chords@.len(),
            forall|q: int| 0 <= q < j ==> #[trigger] cv[q] != keys@,
            here == exists|q: int| 0 <= q < j && strict_prefix(keys@, #[trigger] cv[q]),
        decreases chords.len() - j,
    {
        proof {
            assert(cv[j as int] == chords@[j as int]@);
        }
        if same_chord(&chords[j], keys) {
            return (true, here || is_strict_prefix(keys, &chords[j]) || {
                let mut rest = false;
                let mut k = j + 1;
                while k < chords.len()
                    invariant
                        cv == chords_view(chords@),
                        j < k <= chords@.len(),
                        rest == exists|q: int| j < q < k && strict_prefix(keys@, #[trigger] cv[q]),
                    decreases chords.len() - k,
                {
                    proof {
                        assert(cv[k as int] == chords@[k as int]@);
                    }
                    if is_strict_prefix(keys, &chords[k]) {
                        rest = true;
                    }
                    k += 1;
                }
                rest
            });
        }
        if is_strict_prefix(keys, &chords[j]) {
            here = true;
        }
        j += 1;
    }
    (false, here)
}

fn copy_chord_slice(v: &[KeyStroke]) -> (r: Vec<KeyStroke>)
    ensures
        r@ == v@,
{
    let mut out: Vec<KeyStroke> = Vec::new();
    let mut i: usize = 0;
    while i < v.len()
        invariant
            i <= v@.len(),
            out@ == v@.take(i as int),
        decreases v.len() - i,
    {
        out.push(v[i]);
        proof {
            assert(v@.take(i + 1) =~= v@.take(i as int).push(v@[i as int]));
        }
        i += 1;
    }
    proof {
        assert(v@.take(v@.len() as int) =~= v@);
    }
    out
}

/// A slug reads back as the action it names: `from_slug` inverts `slug`.
pub proof fn law_slug_roundtrip(a: Action)
    ensures
        action_from_slug(action_slug(a)) == Some(a),
{
    match a {
        Action::Down => {
            reveal_strlit("down");
            assert(action_slug(a) == "down"@);
            assert(action_from_slug("down"@) == Some(Action::Down));
        },
        Action::Up => {
            reveal_strlit("down");
            reveal_strlit("up");
            assert(action_slug(a) == "up"@);
            assert(action_from_slug("up"@) == Some(Action::Up));
        },
        Action::Top => {
            reveal_strlit("down");
            reveal_strlit("up");
            reveal_strlit("top");
            assert(action_slug(a) == "top"@);
            assert(action_from_slug("top"@) == Some(Action::Top));
        },
        Action::Bottom => {
            reveal_strlit("down");
            reveal_strlit("up");
            reveal_strlit("top");
            reveal_strlit("bottom");
            assert(action_slug(a) == "bottom"@);
            assert(action_from_slug("bottom"@) == Some(Action::Bottom));
        },
        Action::ToggleSidebar => {
            reveal_strlit("down");
            reveal_strlit("up");
            reveal_strlit("top");
            reveal_strlit("bottom");
            reveal_strlit("toggle_sidebar");
            assert(action_slug(a) == "toggle_sidebar"@);
            assert(action_from_slug("toggle_sidebar"@) == Some(Action::ToggleSidebar));
        },
        Action::ToggleSidebarMode => {
            reveal_strlit("down");
            reveal_strlit("up");
            reveal_strlit("top");
            reveal_strlit("bottom");
            reveal_strlit("toggle_sidebar");
            reveal_strlit("toggle_sidebar_mode");
            assert(action_slug(a) == "toggle_sidebar_mode"@);
            assert(action_from_slug("toggle_sidebar_mode"@) == Some(Action::ToggleSidebarMode));
        },
        Action::FocusSwap => {
            reveal_strlit("down");
            reveal_strlit("up");
            reveal_strlit("top");
            reveal_strlit("bottom");
            reveal_strlit("toggle_sidebar");
            reveal_strlit("toggle_sidebar_mode");
            reveal_strlit("focus_swap");
            assert(action_slug(a) == "focus_swap"@);
            assert(action_from_slug("focus_swap"@) == Some(Action::FocusSwap));
        },
        Action::Filter => {
            reveal_strlit("down");
            reveal_strlit("up");
            reveal_strlit("top");
            reveal_strlit("bottom");
            reveal_strlit("toggle_sidebar");
            reveal_strlit("toggle_sidebar_mode");
            reveal_strlit("focus_swap");
            reveal_strlit("filter");
            assert("bottom"@[0] != "filter"@[0]);
            assert(action_slug(a) == "filter"@);
            assert(action_from_slug("filter"@) == Some(Action::Filter));
        },
        Action::Refresh => {
            reveal_strlit("down");
            reveal_strlit("up");
            reveal_strlit("top");
            reveal_strlit("bottom");
            reveal_strlit("toggle_sidebar");
            reveal_strlit("toggle_sidebar_mode");
            reveal_strlit("focus_swap");
            reveal_strlit("filter");
            reveal_strlit("refresh");
            assert(action_slug(a) == "refresh"@);
            assert(action_from_slug("refresh"@) == Some(Action::Refresh));
        },
        Action::Create => {
            reveal_strlit("down");
            reveal_strlit("up");
            reveal_strlit("top");
            reveal_strlit("bottom");
            reveal_strlit("toggle_sidebar");
            reveal_strlit("toggle_sidebar_mode");
            reveal_strlit("focus_swap");
            reveal_strlit("filter");
            reveal_strlit("refresh");
            reveal_strlit("create");
            assert("bottom"@[0] != "create"@[0]);
            assert("filter"@[0] != "create"@[0]);
            assert(action_slug(a) == "create"@);
            assert(action_from_slug("create"@) == Some(Action::Create));
        },
        Action::DeleteConfirm => {
            reveal_strlit("down");
            reveal_strlit("up");
            reveal_strlit("top");
            reveal_strlit("bottom");
            reveal_strlit("toggle_sidebar");
            reveal_strlit("toggle_sidebar_mode");
            reveal_strlit("focus_swap");
            reveal_strlit("filter");
            reveal_strlit("refresh");
            reveal_strlit("create");
            reveal_strlit("delete");
            assert("bottom"@[0] != "delete"@[0]);
            assert("filter"@[0] != "delete"@[0]);
            assert("create"@[0] != "delete"@[0]);
            assert(action_slug(a) == "delete"@);
            assert(action_from_slug("delete"@) == Some(Action::DeleteConfirm));
        },
        Action::Bootstrap => {
            reveal_strlit("down");
            reveal_strlit("up");
            reveal_strlit("top");
            reveal_strlit("bottom");
            reveal_strlit("toggle_sidebar");
            reveal_strlit("toggle_sidebar_mode");
            reveal_strlit("focus_swap");
            reveal_strlit("filter");
            reveal_strlit("refresh");
            reveal_strlit("create");
            reveal_strlit("delete");
            reveal_strlit("bootstrap");
            assert(action_slug(a) == "bootstrap"@);
            assert(action_from_slug("bootstrap"@) == Some(Action::Bootstrap));
        },
        Action::ToggleDeleteBranch => {
            reveal_strlit("down");
            reveal_strlit("up");
            reveal_strlit("top");
            reveal_strlit("bottom");
            reveal_strlit("toggle_sidebar");
            reveal_strlit("toggle_sidebar_mode");
            reveal_strlit("focus_swap");
            reveal_strlit("filter");
            reveal_strlit("refresh");
            reveal_strlit("create");
            reveal_strlit("delete");
            reveal_strlit("bootstrap");
            reveal_strlit("delete_branch");
            assert(action_slug(a) == "delete_branch"@);
            assert(action_from_slug("delete_branch"@) == Some(Action::ToggleDeleteBranch));
        },
        Action::GitTui => {
            reveal_strlit("down");
            reveal_strlit("up");
            reveal_strlit("top");
            reveal_strlit("bottom");
            reveal_strlit("toggle_sidebar");
            reveal_strlit("toggle_sidebar_mode");
            reveal_strlit("focus_swap");
            reveal_strlit("filter");
            reveal_strlit("refresh");
            reveal_strlit("create");
            reveal_strlit("delete");
            reveal_strlit("bootstrap");
            reveal_strlit("delete_branch");
            reveal_strlit("git_tui");
            assert("refresh"@[0] != "git_tui"@[0]);
            assert(action_slug(a) == "git_tui"@);
            assert(action_from_slug("git_tui"@) == Some(Action::GitTui));
        },
        Action::Review => {
            reveal_strlit("down");
            reveal_strlit("up");
            reveal_strlit("top");
            reveal_strlit("bottom");
            reveal_strlit("toggle_sidebar");
            reveal_strlit("toggle_sidebar_mode");
            reveal_strlit("focus_swap");
            reveal_strlit("filter");
            reveal_strlit("refresh");
            reveal_strlit("create");
            reveal_strlit("delete");
            reveal_strlit("bootstrap");
            reveal_strlit("delete_branch");
            reveal_strlit("git_tui");
            reveal_strlit("review");
            assert("bottom"@[0] != "review"@[0]);
            assert("filter"@[0] != "review"@[0]);
            assert("create"@[0] != "review"@[0]);
            assert("delete"@[0] != "review"@[0]);
            assert(action_slug(a) == "review"@);
            assert(action_from_slug("review"@) == Some(Action::Review));
        },
        Action::Yank => {
            reveal_strlit("down");
            reveal_strlit("up");
            reveal_strlit("top");
            reveal_strlit("bottom");
            reveal_strlit("toggle_sidebar");
            reveal_strlit("toggle_sidebar_mode");
            reveal_strlit("focus_swap");
            reveal_strlit("filter");
            reveal_strlit("refresh");
            reveal_strlit("create");
            reveal_strlit("delete");
            reveal_strlit("bootstrap");
            reveal_strlit("delete_branch");
            reveal_strlit("git_tui");
            reveal_strlit("review");
            reveal_strlit("yank");
            assert("down"@[0] != "yank"@[0]);
            assert(action_slug(a) == "yank"@);
            assert(action_from_slug("yank"@) == Some(Action::Yank));
        },
        Action::Open => {
            reveal_strlit("down");
            reveal_strlit("up");
            reveal_strlit("top");
            reveal_strlit("bottom");
            reveal_strlit("toggle_sidebar");
            reveal_strlit("toggle_sidebar_mode");
            reveal_strlit("focus_swap");
            reveal_strlit("filter");
            reveal_strlit("refresh");
            reveal_strlit("create");
            reveal_strlit("delete");
            reveal_strlit("bootstrap");
            reveal_strlit("delete_branch");
            reveal_strlit("git_tui");
            reveal_strlit("review");
            reveal_strlit("yank");
            reveal_strlit("open");
            assert("down"@[0] != "open"@[0]);
            assert("yank"@[0] != "open"@[0]);
            assert(action_slug(a) == "open"@);
            assert(action_from_slug("open"@) == Some(Action::Open));
        },
        Action::OpenMenu => {
            reveal_strlit("down");
            reveal_strlit("up");
            reveal_strlit("top");
            reveal_strlit("bottom");
            reveal_strlit("toggle_sidebar");
            reveal_strlit("toggle_sidebar_mode");
            reveal_strlit("focus_swap");
            reveal_strlit("filter");
            reveal_strlit("refresh");
            reveal_strlit("create");
            reveal_strlit("delete");
            reveal_strlit("bootstrap");
            reveal_strlit("delete_branch");
            reveal_strlit("git_tui");
            reveal_strlit("review");
            reveal_strlit("yank");
            reveal_strlit("open");
            reveal_strlit("open_menu");
            assert("bootstrap"@[0] != "open_menu"@[0]);
            assert(action_slug(a) == "open_menu"@);
            assert(action_from_slug("open_menu"@) == Some(Action::OpenMenu));
        },
        Action::LinkPrompt => {
            reveal_strlit("down");
            reveal_strlit("up");
            reveal_strlit("top");
            reveal_strlit("bottom");
            reveal_strlit("toggle_sidebar");
            reveal_strlit("toggle_sidebar_mode");
            reveal_strlit("focus_swap");
            reveal_strlit("filter");
            reveal_strlit("refresh");
            reveal_strlit("create");
            reveal_strlit("delete");
            reveal_strlit("bootstrap");
            reveal_strlit("delete_branch");
            reveal_strlit("git_tui");
            reveal_strlit("review");
            reveal_strlit("yank");
            reveal_strlit("open");
            reveal_strlit("open_menu");
            reveal_strlit("link");
            assert("down"@[0] != "link"@[0]);
            assert("yank"@[0] != "link"@[0]);
            assert("open"@[0] != "link"@[0]);
            assert(action_slug(a) == "link"@);
            assert(action_from_slug("link"@) == Some(Action::LinkPrompt));
        },
        Action::FetchGithub => {
            reveal_strlit("down");
            reveal_strlit("up");
            reveal_strlit("top");
            reveal_strlit("bottom");
            reveal_strlit("toggle_sidebar");
            reveal_strlit("toggle_sidebar_mode");
            reveal_strlit("focus_swap");
            reveal_strlit("filter");
            reveal_strlit("refresh");
            reveal_strlit("create");
            reveal_strlit("delete");
            reveal_strlit("bootstrap");
            reveal_strlit("delete_branch");
            reveal_strlit("git_tui");
            reveal_strlit("review");
            reveal_strlit("yank");
            reveal_strlit("open");
            reveal_strlit("open_menu");
            reveal_strlit("link");
            reveal_strlit("fetch_github");
            assert(action_slug(a) == "fetch_github"@);
            assert(action_from_slug("fetch_github"@) == Some(Action::FetchGithub));
        },
        Action::Help => {
            reveal_strlit("down");
            reveal_strlit("up");
            reveal_strlit("top");
            reveal_strlit("bottom");
            reveal_strlit("toggle_sidebar");
            reveal_strlit("toggle_sidebar_mode");
            reveal_strlit("focus_swap");
            reveal_strlit("filter");
            reveal_strlit("refresh");
            reveal_strlit("create");
            reveal_strlit("delete");
            reveal_strlit("bootstrap");
            reveal_strlit("delete_branch");
            reveal_strlit("git_tui");
            reveal_strlit("review");
            reveal_strlit("yank");
            reveal_strlit("open");
            reveal_strlit("open_menu");
            reveal_strlit("link");
            reveal_strlit("fetch_github");
            reveal_strlit("help");
            assert("down"@[0] != "help"@[0]);
            assert("yank"@[0] != "help"@[0]);
            assert("open"@[0] != "help"@[0]);
            assert("link"@[0] != "help"@[0]);
            assert(action_slug(a) == "help"@);
            assert(action_from_slug("help"@) == Some(Action::Help));
        },
        Action::Quit => {
            reveal_strlit("down");
            reveal_strlit("up");
            reveal_strlit("top");
            reveal_strlit("bottom");
            reveal_strlit("toggle_sidebar");
            reveal_strlit("toggle_sidebar_mode");
            reveal_strlit("focus_swap");
            reveal_strlit("filter");
            reveal_strlit("refresh");
            reveal_strlit("create");
            reveal_strlit("delete");
            reveal_strlit("bootstrap");
            reveal_strlit("delete_branch");
            reveal_strlit("git_tui");
            reveal_strlit("review");
            reveal_strlit("yank");
            reveal_strlit("open");
            reveal_strlit("open_menu");
            reveal_strlit("link");
            reveal_strlit("fetch_github");
            reveal_strlit("help");
            reveal_strlit("quit");
            assert("down"@[0] != "quit"@[0]);
            assert("yank"@[0] != "quit"@[0]);
            assert("open"@[0] != "quit"@[0]);
            assert("link"@[0] != "quit"@[0]);
            assert("help"@[0] != "quit"@[0]);
            assert(action_slug(a) == "quit"@);
            assert(action_from_slug("quit"@) == Some(Action::Quit));
        },
        Action::CommandPalette => {
            reveal_strlit("down");
            reveal_strlit("up");
            reveal_strlit("top");
            reveal_strlit("bottom");
            reveal_strlit("toggle_sidebar");
            reveal_strlit("toggle_sidebar_mode");
            reveal_strlit("focus_swap");
            reveal_strlit("filter");
            reveal_strlit("refresh");
            reveal_strlit("create");
            reveal_strlit("delete");
            reveal_strlit("bootstrap");
            reveal_strlit("delete_branch");
            reveal_strlit("git_tui");
            reveal_strlit("review");
            reveal_strlit("yank");
            reveal_strlit("open");
            reveal_strlit("open_menu");
            reveal_strlit("link");
            reveal_strlit("fetch_github");
            reveal_strlit("help");
            reveal_strlit("quit");
            reveal_strlit("command_palette");
            assert(action_slug(a) == "command_palette"@);
            assert(action_from_slug("command_palette"@) == Some(Action::CommandPalette));
        },
    }
}

/// The keymap a successful override leaves behind has exactly the chords
/// that were validated.
pub proof fn lemma_overridden_pairs(es: Seq<BindingView>, a: Action, cs: Seq<Seq<KeyStroke>>)
    ensures
        pairs_of(overridden(es, a, cs)) == candidate(es, a, cs),
{
    assert(pairs_of(overridden(es, a, cs)) =~= candidate(es, a, cs));
}

/// An accepted override leaves no chord bound to two actions and no chord
/// a strict prefix of another, so resolution never has to wait on a
/// timeout.
pub proof fn law_override_leaves_no_clash(es: Seq<BindingView>, a: Action, cs: Seq<Seq<KeyStroke>>)
    requires
        validate_outcome(flat(candidate(es, a, cs)), Ok(())),
    ensures
        no_empty(flat(pairs_of(overridden(es, a, cs)))),
        no_clash(flat(pairs_of(overridden(es, a, cs)))),
{
    lemma_overridden_pairs(es, a, cs);
}

proof fn lemma_flat_has(es: Seq<(Action, Seq<Seq<KeyStroke>>)>, q: int, r: int)
    requires
        0 <= q < es.len(),
        0 <= r < es[q].1.len(),
    ensures
        exists|k: int| 0 <= k < flat(es).len() && #[trigger] flat(es)[k] == (es[q].1[r], es[q].0),
{
    lemma_flat_prefix(es, q, r);
    let k = flat(es.take(q)).len() + r;
    assert(flat(es)[k] == (es[q].1[r], es[q].0));
}

proof fn lemma_binder_is_overridden(e: Seq<BindingView>, a: Action, c: Seq<KeyStroke>, idx: int, j: int, q: int)
    requires
        no_clash(flat(pairs_of(e))),
        0 <= idx < e.len(),
        e[idx].action == a,
        0 <= j < e[idx].chords.len(),
        e[idx].chords[j] == c,
        0 <= q < e.len(),
        binds(e, q, c),
    ensures
        e[q].action == a,
{
    let all = flat(pairs_of(e));
    let r = choose|r: int| 0 <= r < e[q].chords.len() && #[trigger] e[q].chords[r] == c;
    assert(pairs_of(e)[q] == (e[q].action, e[q].chords));
    assert(pairs_of(e)[idx] == (e[idx].action, e[idx].chords));
    lemma_flat_has(pairs_of(e), q, r);
    lemma_flat_has(pairs_of(e), idx, j);
    let k1 = choose|k: int| 0 <= k < all.len() && #[trigger] all[k] == (e[q].chords[r], e[q].action);
    let k2 = choose|k: int| 0 <= k < all.len() && #[trigger] all[k] == (e[idx].chords[j], e[idx].action);
    if e[q].action != a {
        if k1 < k2 {
            assert(clash(all, k1, k2));
        } else if k2 < k1 {
            assert(clash(all, k2, k1));
        }
    }
}

/// After an accepted override, each of the new chords resolves to the
/// overridden action.
#[verifier::rlimit(40)]
pub proof fn law_override_then_lookup(es: Seq<BindingView>, a: Action, cs: Seq<Seq<KeyStroke>>, j: int)
    requires
        validate_outcome(flat(candidate(es, a, cs)), Ok(())),
        0 <= j < cs.len(),
    ensures
        lookup_spec(overridden(es, a, cs), cs[j]) == ChordResolution::Matched(a),
{
    let e = overridden(es, a, cs);
    lemma_overridden_pairs(es, a, cs);
    let idx: int = if exists|i: int| 0 <= i < es.len() && #[trigger] es[i].action == a {
        choose|i: int| 0 <= i < es.len() && #[trigger] es[i].action == a
    } else {
        es.len() as int
    };
    assert(e[idx].action == a && e[idx].chords == cs);
    assert(e[idx].chords[j] == cs[j]);
    assert(binds(e, idx, cs[j]));
    lemma_first_binder(e, cs[j], idx);
    let w = choose|w: int| 0 <= w < e.len() && #[trigger] binds(e, w, cs[j]) && forall|q: int| 0 <= q < w ==> !binds(e, q, cs[j]);
    lemma_binder_is_overridden(e, a, cs[j], idx, j, w);
}

proof fn lemma_first_binder(e: Seq<BindingView>, c: Seq<KeyStroke>, i: int)
    requires
        0 <= i < e.len(),
        binds(e, i, c),
    ensures
        exists|w: int| 0 <= w < e.len() && #[trigger] binds(e, w, c) && forall|q: int| 0 <= q < w ==> !binds(e, q, c),
    decreases i,
{
    if exists|q: int| 0 <= q < i && #[trigger] binds(e, q, c) {
        let q = choose|q: int| 0 <= q < i && #[trigger] binds(e, q, c);
        lemma_first_binder(e, c, q);
    } else {
        assert(binds(e, i, c) && forall|q: int| 0 <= q < i ==> !binds(e, q, c));
    }
}

/// A stroke fed to the chord machine: the action it fires (if any) and the
/// prefix left pending. The buffer plus the stroke is looked up: a match
/// fires and clears; a strict prefix waits; no match on a lone stroke drops
/// it; no match after a pending prefix forgets the prefix and tries the
/// stroke on its own (a stray `g` is dropped and `j` still moves down).
pub open spec fn dispatch_spec(es: Seq<BindingView>, pending: Seq<KeyStroke>, stroke: KeyStroke) -> (
    Option<Action>,
    Seq<KeyStroke>,
) {
    let tentative = pending.push(stroke);
    match lookup_spec(es, tentative) {
        ChordResolution::Matched(a) => (Some(a), Seq::empty()),
        ChordResolution::PendingPrefix => (None, tentative),
        ChordResolution::NoMatch => {
            if pending.len() == 0 {
                (None, pending)
            } else {
                match lookup_spec(es, seq![stroke]) {
                    ChordResolution::Matched(a) => (Some(a), Seq::empty()),
                    ChordResolution::PendingPrefix => (None, seq![stroke]),
                    ChordResolution::NoMatch => (None, Seq::empty()),
                }
            }
        },
    }
}

/// Drive one stroke through `keymap`, with `pending` the chord prefix typed
/// so far.
pub fn dispatch_stroke(pending: &mut Vec<KeyStroke>, keymap: &Keymap, stroke: KeyStroke) -> (r: Option<Action>)
    ensures
        (r, final(pending)@) == dispatch_spec(keymap.view(), old(pending)@, stroke),
{
    let mut tentative: Vec<KeyStroke> = Vec::new();
    let mut i: usize = 0;
    while i < pending.len()
        invariant
            i <= pending@.len(),
            tentative@ == pending@.take(i as int),
        decreases pending.len() - i,
    {
        tentative.push(pending[i]);
        proof {
            assert(pending@.take(i + 1) =~= pending@.take(i as int).push(pending@[i as int]));
        }
        i += 1;
    }
    proof {
        assert(pending@.take(pending@.len() as int) =~= pending@);
    }
    tentative.push(stroke);
    match keymap.lookup(tentative.as_slice()) {
        ChordResolution::Matched(a) => {
            pending.clear();
            Some(a)
        },
        ChordResolution::PendingPrefix => {
            *pending = tentative;
            None
        },
        ChordResolution::NoMatch => {
            if pending.len() == 0 {
                return None;
            }
            pending.clear();
            let single = vec![stroke];
            proof {
                assert(single@ =~= seq![stroke]);
            }
            match keymap.lookup(single.as_slice()) {
                ChordResolution::Matched(a) => Some(a),
                ChordResolution::PendingPrefix => {
                    *pending = single;
                    None
                },
                ChordResolution::NoMatch => None,
            }
        },
    }
}

/// Whether `stroke` on its own fires `action`.
pub fn key_matches_action(keymap: &Keymap, stroke: KeyStroke, action: Action) -> (r: bool)
    ensures
        r == (lookup_spec(keymap.view(), seq![stroke]) == ChordResolution::Matched(action)),
{
    let single = vec![stroke];
    proof {
        assert(single@ =~= seq![stroke]);
    }
    match keymap.lookup(single.as_slice()) {
        ChordResolution::Matched(found) => found == action,
        _ => false,
    }
}

/// A pending prefix never swallows a key press: when the prefix plus the
/// stroke binds nothing, the prefix is forgotten and the stroke acts on its
/// own, as if it had been typed first.
pub proof fn law_stray_prefix_dropped(es: Seq<BindingView>, pending: Seq<KeyStroke>, stroke: KeyStroke)
    requires
        pending.len() > 0,
        lookup_spec(es, pending.push(stroke)) == ChordResolution::NoMatch,
    ensures
        dispatch_spec(es, pending, stroke) == dispatch_spec(es, Seq::empty(), stroke),
{
    assert(Seq::<KeyStroke>::empty().push(stroke) =~= seq![stroke]);
}


/// Parsing inverts the name a key is shown by: every key a binding can
/// name (function keys `F1` to `F12`) reads back from its name as itself.
pub proof fn law_code_name_parses_back(c: KeyCode)
    requires
        c != KeyCode::Other,
        c matches KeyCode::F(n) ==> 1 <= n <= 12,
    ensures
        keycode_spec(code_name(c)) == Ok::<KeyCode, ParseFault>(c),
{
    reveal_strlit("Tab");
    reveal_strlit("Enter");
    reveal_strlit("Esc");
    reveal_strlit("Up");
    reveal_strlit("Down");
    reveal_strlit("Left");
    reveal_strlit("Right");
    reveal_strlit("Backspace");
    reveal_strlit("BackTab");
    reveal_strlit("Home");
    reveal_strlit("End");
    reveal_strlit("PageUp");
    reveal_strlit("PageDown");
    reveal_strlit("Insert");
    reveal_strlit("Delete");
    reveal_strlit("Space");
    reveal_strlit("Other");
    match c {
        KeyCode::Tab => {
        },
        KeyCode::Enter => {
            assert("Enter"@.len() != "Tab"@.len());
        },
        KeyCode::Esc => {
            assert("Esc"@[0] != "Tab"@[0]);
            assert("Esc"@.len() != "Enter"@.len());
        },
        KeyCode::Up => {
            assert("Up"@.len() != "Tab"@.len());
            assert("Up"@.len() != "Enter"@.len());
            assert("Up"@.len() != "Esc"@.len());
        },
        KeyCode::Down => {
            assert("Down"@.len() != "Tab"@.len());
            assert("Down"@.len() != "Enter"@.len());
            assert("Down"@.len() != "Esc"@.len());
            assert("Down"@.len() != "Up"@.len());
        },
        KeyCode::Left => {
            assert("Left"@.len() != "Tab"@.len());
            assert("Left"@.len() != "Enter"@.len());
            assert("Left"@.len() != "Esc"@.len());
            assert("Left"@.len() != "Up"@.len());
            assert("Left"@[0] != "Down"@[0]);
        },
        KeyCode::Right => {
            assert("Right"@.len() != "Tab"@.len());
            assert("Right"@[0] != "Enter"@[0]);
            assert("Right"@.len() != "Esc"@.len());
            assert("Right"@.len() != "Up"@.len());
            assert("Right"@.len() != "Down"@.len());
            assert("Right"@.len() != "Left"@.len());
        },
        KeyCode::Backspace => {
            assert("Backspace"@.len() != "Tab"@.len());
            assert("Backspace"@.len() != "Enter"@.len());
            assert("Backspace"@.len() != "Esc"@.len());
            assert("Backspace"@.len() != "Up"@.len());
            assert("Backspace"@.len() != "Down"@.len());
            assert("Backspace"@.len() != "Left"@.len());
            assert("Backspace"@.len() != "Right"@.len());
        },
        KeyCode::BackTab => {
            assert("BackTab"@.len() != "Tab"@.len());
            assert("BackTab"@.len() != "Enter"@.len());
            assert("BackTab"@.len() != "Esc"@.len());
            assert("BackTab"@.len() != "Up"@.len());
            assert("BackTab"@.len() != "Down"@.len());
            assert("BackTab"@.len() != "Left"@.len());
            assert("BackTab"@.len() != "Right"@.len());
            assert("BackTab"@.len() != "Backspace"@.len());
        },
        KeyCode::Home => {
            assert("Home"@.len() != "Tab"@.len());
            assert("Home"@.len() != "Enter"@.len());
            assert("Home"@.len() != "Esc"@.len());
            assert("Home"@.len() != "Up"@.len());
            assert("Home"@[0] != "Down"@[0]);
            assert("Home"@[0] != "Left"@[0]);
            assert("Home"@.len() != "Right"@.len());
            assert("Home"@.len() != "Backspace"@.len());
            assert("Home"@.len() != "BackTab"@.len());
        },
        KeyCode::End => {
            assert("End"@[0] != "Tab"@[0]);
            assert("End"@.len() != "Enter"@.len());
            assert("End"@[1] != "Esc"@[1]);
            assert("End"@.len() != "Up"@.len());
            assert("End"@.len() != "Down"@.len());
            assert("End"@.len() != "Left"@.len());
            assert("End"@.len() != "Right"@.len());
            assert("End"@.len() != "Backspace"@.len());
            assert("End"@.len() != "BackTab"@.len());
            assert("End"@.len() != "Home"@.len());
        },
        KeyCode::PageUp => {
            assert("PageUp"@.len() != "Tab"@.len());
            assert("PageUp"@.len() != "Enter"@.len());
            assert("PageUp"@.len() != "Esc"@.len());
            assert("PageUp"@.len() != "Up"@.len());
            assert("PageUp"@.len() != "Down"@.len());
            assert("PageUp"@.len() != "Left"@.len());
            assert("PageUp"@.len() != "Right"@.len());
            assert("PageUp"@.len() != "Backspace"@.len());
            assert("PageUp"@.len() != "BackTab"@.len());
            assert("PageUp"@.len() != "Home"@.len());
            assert("PageUp"@.len() != "End"@.len());
        },
        KeyCode::PageDown => {
            assert("PageDown"@.len() != "Tab"@.len());
            assert("PageDown"@.len() != "Enter"@.len());
            assert("PageDown"@.len() != "Esc"@.len());
            assert("PageDown"@.len() != "Up"@.len());
            assert("PageDown"@.len() != "Down"@.len());
            assert("PageDown"@.len() != "Left"@.len());
            assert("PageDown"@.len() != "Right"@.len());
            assert("PageDown"@.len() != "Backspace"@.len());
            assert("PageDown"@.len() != "BackTab"@.len());
            assert("PageDown"@.len() != "Home"@.len());
            assert("PageDown"@.len() != "End"@.len());
            assert("PageDown"@.len() != "PageUp"@.len());
        },
        KeyCode::Insert => {
            assert("Insert"@.len() != "Tab"@.len());
            assert("Insert"@.len() != "Enter"@.len());
            assert("Insert"@.len() != "Esc"@.len());
            assert("Insert"@.len() != "Up"@.len());
            assert("Insert"@.len() != "Down"@.len());
            assert("Insert"@.len() != "Left"@.len());
            assert("Insert"@.len() != "Right"@.len());
            assert("Insert"@.len() != "Backspace"@.len());
            assert("Insert"@.len() != "BackTab"@.len());
            assert("Insert"@.len() != "Home"@.len());
            assert("Insert"@.len() != "End"@.len());
            assert("Insert"@[0] != "PageUp"@[0]);
            assert("Insert"@.len() != "PageDown"@.len());
        },
        KeyCode::Delete => {
            assert("Delete"@.len() != "Tab"@.len());
            assert("Delete"@.len() != "Enter"@.len());
            assert("Delete"@.len() != "Esc"@.len());
            assert("Delete"@.len() != "Up"@.len());
            assert("Delete"@.len() != "Down"@.len());
            assert("Delete"@.len() != "Left"@.len());
            assert("Delete"@.len() != "Right"@.len());
            assert("Delete"@.len() != "Backspace"@.len());
            assert("Delete"@.len() != "BackTab"@.len());
            assert("Delete"@.len() != "Home"@.len());
            assert("Delete"@.len() != "End"@.len());
            assert("Delete"@[0] != "PageUp"@[0]);
            assert("Delete"@.len() != "PageDown"@.len());
            assert("Delete"@[0] != "Insert"@[0]);
        },
        KeyCode::Char(ch) => {
            if ch == ' ' {

                assert("Space"@.len() != "Tab"@.len());
                assert("Space"@[0] != "Enter"@[0]);
                assert("Space"@.len() != "Esc"@.len());
                assert("Space"@.len() != "Up"@.len());
                assert("Space"@.len() != "Down"@.len());
                assert("Space"@.len() != "Left"@.len());
                assert("Space"@[0] != "Right"@[0]);
                assert("Space"@.len() != "Backspace"@.len());
                assert("Space"@.len() != "BackTab"@.len());
                assert("Space"@.len() != "Home"@.len());
                assert("Space"@.len() != "End"@.len());
                assert("Space"@.len() != "PageUp"@.len());
                assert("Space"@.len() != "PageDown"@.len());
                assert("Space"@.len() != "Insert"@.len());
                assert("Space"@.len() != "Delete"@.len());
            } else {
                assert(seq![ch].len() != "Tab"@.len());
                assert(seq![ch].len() != "Enter"@.len());
                assert(seq![ch].len() != "Esc"@.len());
                assert(seq![ch].len() != "Up"@.len());
                assert(seq![ch].len() != "Down"@.len());
                assert(seq![ch].len() != "Left"@.len());
                assert(seq![ch].len() != "Right"@.len());
                assert(seq![ch].len() != "Backspace"@.len());
                assert(seq![ch].len() != "BackTab"@.len());
                assert(seq![ch].len() != "Home"@.len());
                assert(seq![ch].len() != "End"@.len());
                assert(seq![ch].len() != "PageUp"@.len());
                assert(seq![ch].len() != "PageDown"@.len());
                assert(seq![ch].len() != "Insert"@.len());
                assert(seq![ch].len() != "Delete"@.len());
                assert(seq![ch].len() != "Space"@.len());
            }
        },
        KeyCode::F(n) => {
            let s = code_name(c);
            assert(s[0] == 'F');
            assert(s[0] != "Tab"@[0]);
            assert(s[0] != "Enter"@[0]);
            assert(s[0] != "Esc"@[0]);
            assert(s[0] != "Up"@[0]);
            assert(s[0] != "Down"@[0]);
            assert(s[0] != "Left"@[0]);
            assert(s[0] != "Right"@[0]);
            assert(s[0] != "Backspace"@[0]);
            assert(s[0] != "BackTab"@[0]);
            assert(s[0] != "Home"@[0]);
            assert(s[0] != "End"@[0]);
            assert(s[0] != "PageUp"@[0]);
            assert(s[0] != "PageDown"@[0]);
            assert(s[0] != "Insert"@[0]);
            assert(s[0] != "Delete"@[0]);
            assert(s[0] != "Space"@[0]);
            lemma_small_decimal_parses(n);
            assert(s.drop_first() =~= small_decimal(n as nat));
        },
        KeyCode::Other => {},
    }
}

proof fn lemma_small_decimal_parses(n: u8)
    requires
        1 <= n <= 12,
    ensures
        parse_u8(small_decimal(n as nat)) == Some(n),
{
    let d = small_decimal(n as nat);
    assert(unsigned_digits(d) =~= d);
    if n < 10 {
        let c = ((n as nat) + 48) as char;
        assert(c as u32 == n + 48);
        assert(d =~= seq![c]);
        assert(d.drop_last() =~= Seq::<char>::empty());
        assert('0' as u32 == 48);
        assert(d.last() == c);
        assert(decimal_value(d.drop_last()) == 0);
        assert(decimal_value(d) == n);
        assert(all_digits(d));
    } else {
        let c = (((n as nat) % 10) + 48) as char;
        assert(c as u32 == (n % 10) + 48);
        assert((((n as nat) / 10) + 48) as char == '1');
        assert(d =~= seq!['1', c]);
        assert(d.drop_last() =~= seq!['1']);
        assert(d.drop_last().drop_last() =~= Seq::<char>::empty());
        assert('0' as u32 == 48);
        assert('1' as u32 == 49);
        assert(d.drop_last().last() == '1');
        assert(decimal_value(d.drop_last().drop_last()) == 0);
        assert(decimal_value(d.drop_last()) == 1);
        assert(d.last() == c);
        assert(decimal_value(d) == n);
        assert(all_digits(d));
    }
}


/// The modifier names a stroke is written with, in writing order.
pub open spec fn mod_names(m: KeyModifiers) -> Seq<Seq<char>> {
    (if m.ctrl { seq!["Ctrl"@] } else { Seq::empty() }) + (if m.alt { seq!["Alt"@] } else { Seq::empty() }) + (if m.shift {
        seq!["Shift"@]
    } else {
        Seq::empty()
    })
}

proof fn lemma_split_no_sep(y: Seq<char>, sep: char)
    requires
        !y.contains(sep),
    ensures
        split_on(y, sep) == seq![y],
    decreases y.len(),
{
    if y.len() > 0 {
        assert(!y.drop_last().contains(sep)) by {
            if y.drop_last().contains(sep) {
                let i = choose|i: int| 0 <= i < y.drop_last().len() && y.drop_last()[i] == sep;
                assert(y[i] == sep);
            }
        }
        lemma_split_no_sep(y.drop_last(), sep);
        assert(y.last() != sep) by {
            assert(y[y.len() - 1] == y.last());
        }
        assert(y.drop_last().push(y.last()) =~= y);
        assert(seq![y.drop_last()].update(0, y.drop_last().push(y.last())) =~= seq![y]);
    } else {
        assert(y =~= Seq::<char>::empty());
    }
}

proof fn lemma_split_concat(x: Seq<char>, y: Seq<char>, sep: char)
    ensures
        split_on(x + seq![sep] + y, sep) == split_on(x, sep) + split_on(y, sep),
    decreases y.len(),
{
    let a = split_on(x, sep);
    if y.len() == 0 {
        assert(x + seq![sep] + y =~= x.push(sep));
        assert((x.push(sep)).drop_last() =~= x);
        assert(a.push(Seq::empty()) =~= a + seq![Seq::<char>::empty()]);
    } else {
        let z = x + seq![sep] + y;
        lemma_split_concat(x, y.drop_last(), sep);
        assert(z.drop_last() =~= x + seq![sep] + y.drop_last());
        assert(z.last() == y.last());
        let b = split_on(y.drop_last(), sep);
        lemma_split_on_nonempty(y.drop_last(), sep);
        if y.last() == sep {
            assert((a + b).push(Seq::empty()) =~= a + b.push(Seq::empty()));
        } else {
            assert((a + b).update((a + b).len() - 1, (a + b).last().push(y.last())) =~= a + b.update(
                b.len() - 1,
                b.last().push(y.last()),
            ));
        }
    }
}

proof fn lemma_mods_read_back(m: KeyModifiers)
    ensures
        mods_spec(mod_names(m)) == Ok::<KeyModifiers, (ParseFault, Seq<char>)>(m),
{
    reveal_strlit("Ctrl");
    reveal_strlit("Alt");
    reveal_strlit("Shift");
    assert("Alt"@.len() != "Ctrl"@.len());
    assert("Shift"@.len() != "Ctrl"@.len());
    assert("Shift"@.len() != "Alt"@.len());
    let names = mod_names(m);
    let none = KeyModifiers { ctrl: false, alt: false, shift: false };
    let c = if m.ctrl { seq!["Ctrl"@] } else { Seq::<Seq<char>>::empty() };
    let ca = c + if m.alt { seq!["Alt"@] } else { Seq::<Seq<char>>::empty() };
    assert(mods_spec(Seq::<Seq<char>>::empty()) == Ok::<KeyModifiers, (ParseFault, Seq<char>)>(none));
    if m.ctrl {
        assert(c.drop_last() =~= Seq::<Seq<char>>::empty());
    }
    let mc = KeyModifiers { ctrl: m.ctrl, alt: false, shift: false };
    assert(mods_spec(c) == Ok::<KeyModifiers, (ParseFault, Seq<char>)>(mc));
    let mca = KeyModifiers { ctrl: m.ctrl, alt: m.alt, shift: false };
    if m.alt {
        assert(ca.drop_last() =~= c);
        assert(ca.last() == "Alt"@);
    } else {
        assert(ca =~= c);
    }
    assert(mods_spec(ca) == Ok::<KeyModifiers, (ParseFault, Seq<char>)>(mca));
    if m.shift {
        assert(names.drop_last() =~= ca);
        assert(names.last() == "Shift"@);
    } else {
        assert(names =~= ca);
    }
}

/// A keystroke written out reads back as itself: parsing inverts the way
/// a binding is shown, modifiers included, for every key a binding can
/// name whose name holds no `+`.
pub proof fn law_stroke_text_parses_back(k: KeyStroke)
    requires
        k.code != KeyCode::Other,
        k.code matches KeyCode::F(n) ==> 1 <= n <= 12,
        k.code != KeyCode::Char('+'),
    ensures
        stroke_spec(stroke_text(k)) == Ok::<KeyStroke, (ParseFault, Seq<char>)>(k),
{
    law_code_name_parses_back(k.code);
    reveal_strlit("Ctrl+");
    reveal_strlit("Alt+");
    reveal_strlit("Shift+");
    reveal_strlit("Ctrl");
    reveal_strlit("Alt");
    reveal_strlit("Shift");
    let name = code_name(k.code);
    lemma_code_name_plain(k.code);
    lemma_split_no_sep(name, '+');
    let m = k.modifiers;
    let sh = if m.shift { "Shift+"@ } else { Seq::<char>::empty() };
    let al = if m.alt { "Alt+"@ } else { Seq::<char>::empty() };
    let ct = if m.ctrl { "Ctrl+"@ } else { Seq::<char>::empty() };
    let t3 = sh + name;
    let n3 = (if m.shift { seq!["Shift"@] } else { Seq::<Seq<char>>::empty() }) + seq![name];
    if m.shift {
        assert(t3 =~= "Shift"@ + seq!['+'] + name);
        lemma_split_concat("Shift"@, name, '+');
        lemma_split_no_sep("Shift"@, '+');
    } else {
        assert(t3 =~= name);
    }
    assert(split_on(t3, '+') =~= n3);
    let t2 = al + t3;
    let n2 = (if m.alt { seq!["Alt"@] } else { Seq::<Seq<char>>::empty() }) + n3;
    if m.alt {
        assert(t2 =~= "Alt"@ + seq!['+'] + t3);
        lemma_split_concat("Alt"@, t3, '+');
        lemma_split_no_sep("Alt"@, '+');
    } else {
        assert(t2 =~= t3);
    }
    assert(split_on(t2, '+') =~= n2);
    let t1 = ct + t2;
    let n1 = (if m.ctrl { seq!["Ctrl"@] } else { Seq::<Seq<char>>::empty() }) + n2;
    if m.ctrl {
        assert(t1 =~= "Ctrl"@ + seq!['+'] + t2);
        lemma_split_concat("Ctrl"@, t2, '+');
        lemma_split_no_sep("Ctrl"@, '+');
    } else {
        assert(t1 =~= t2);
    }
    assert(split_on(t1, '+') =~= n1);
    assert(stroke_text(k) =~= t1);
    assert(n1 =~= mod_names(m) + seq![name]);
    let parts = n1;
    assert(parts.drop_last() =~= mod_names(m));
    assert(parts.last() == name);
    lemma_mods_read_back(m);
    assert(forall|i: int| 0 <= i < parts.len() ==> #[trigger] parts[i].len() > 0);
}

/// A key's name is never empty and holds no `+` (but for the `+` key).
proof fn lemma_code_name_plain(c: KeyCode)
    requires
        c != KeyCode::Char('+'),
    ensures
        code_name(c).len() > 0,
        !code_name(c).contains('+'),
{
    reveal_strlit("Space");
    reveal_strlit("Tab");
    reveal_strlit("Enter");
    reveal_strlit("Esc");
    reveal_strlit("Up");
    reveal_strlit("Down");
    reveal_strlit("Left");
    reveal_strlit("Right");
    reveal_strlit("Backspace");
    reveal_strlit("BackTab");
    reveal_strlit("Home");
    reveal_strlit("End");
    reveal_strlit("PageUp");
    reveal_strlit("PageDown");
    reveal_strlit("Insert");
    reveal_strlit("Delete");
    reveal_strlit("Other");
    let s = code_name(c);
    if s.contains('+') {
        let i = choose|i: int| 0 <= i < s.len() && s[i] == '+';
        match c {
            KeyCode::F(n) => {
                assert(s[i] == '+');
                if i > 0 {
                    assert(small_decimal(n as nat)[i - 1] == '+');
                }
            },
            _ => {},
        }
    }
}

} // verus!
