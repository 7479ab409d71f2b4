//! The TUI's top-level screens and the outcomes its modal key handlers
//! report back to the event loop.

use vstd::prelude::*;
use std::path::PathBuf;

verus! {

/// Which screen has the keyboard.
#[derive(Debug, PartialEq, Eq, Clone, Copy, Structural)]
pub enum View {
    List,
    Create,
    Confirm,
    Report,
    Help,
    OpenMenu,
    LinkPrompt,
    CommandPalette,
    CommandLogs,
    Config,
    Pty,
    ExecPicker,
    CleanReport,
    Edit,
    DetailOverlay,
}

/// What a key did in the exec picker.
#[derive(Debug, PartialEq, Eq, Clone, Copy, Structural)]
pub enum ExecPickerKey {
    Handled,
    Submit,
    Cancel,
}

/// What a key did in the create form.
#[derive(Debug, PartialEq, Eq, Clone, Copy, Structural)]
pub enum CreateKey {
    Handled,
    Submit,
    Cancel,
}

/// What a key did in the link prompt.
#[derive(Debug, PartialEq, Eq, Clone, Copy, Structural)]
pub enum LinkPromptKey {
    Handled,
    Submit,
    Refresh,
    Cancel,
}

/// Where "open" sends the selected worktree.
#[derive(Debug, PartialEq, Eq, Clone)]
pub enum OpenTarget {
    Shell { path: PathBuf, command: String },
    Editor { path: PathBuf, command: String },
    Finder { path: PathBuf },
}

} // verus!
