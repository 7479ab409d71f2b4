//! The event loop's own decisions, taken each time round: how long to wait
//! for input, what to do with the PTY overlay whose child may have exited,
//! and where a terminal event goes (the child terminal, the quit gate, or
//! the current screen). The loop performs them; the screens' key handling
//! lives with each screen.

use vstd::prelude::*;
use crate::async_task::{quit_gate, QuitGate, TaskKind, TaskRunner};
use crate::keymap::{KeyCode, KeyStroke};
use crate::macros::{overlay_extent, overlay_extent_of};
use crate::pty::PtyKind;
use crate::views::View as Screen;

verus! {

/// A terminal event, as the loop reads it (key releases are not passed
/// on).
pub enum LoopEvent {
    Resize(u16, u16),
    Key(KeyStroke),
}

/// What the loop does with the PTY overlay before drawing.
#[derive(Debug, Clone, Copy, PartialEq, Eq, Structural)]
pub enum PtyTick {
    /// Nothing: no overlay is up, or its child still runs.
    Keep,
    /// A one-shot command finished: keep its output on screen until a key
    /// dismisses it, and reap its process group now.
    MarkFinished,
    /// An interactive child (git TUI, shell, review) exited, or the overlay
    /// is gone: close it.
    Close,
}

/// Where a terminal event goes.
pub enum EventRoute {
    /// The terminal was resized: record `cols` by `rows`; when the PTY
    /// overlay is up, its child gets the inner size `pty`.
    Resize { cols: u16, rows: u16, pty: Option<(u16, u16)> },
    /// Ctrl+C inside the PTY overlay: it belongs to the child.
    ForwardToPty,
    /// Ctrl+C on any other screen: a quit, left now or held while
    /// mutating work runs, as `quit_gate` decides.
    Quit(QuitGate),
    /// A quit is pending: other keys are ignored.
    Ignore,
    /// The current screen handles the key.
    Screen(KeyStroke),
}

/// How long the loop waits for input, in milliseconds: 50 while the PTY
/// overlay is up or a sidebar rebuild is in flight, else 200.
pub open spec fn poll_spec(view: Screen, sidebar_loading: bool) -> u64 {
    if view == Screen::Pty || sidebar_loading { 50 } else { 200 }
}

pub fn poll_millis(view: Screen, tasks: &TaskRunner) -> (r: u64)
    ensures
        r == poll_spec(view, tasks@.running.contains(TaskKind::Sidebar)),
{
    if view == Screen::Pty || tasks.is_loading(TaskKind::Sidebar) { 50 } else { 200 }
}

/// The PTY overlay's fate this tick, from its kind and whether its child
/// still runs (`None` when no overlay is held).
pub open spec fn pty_tick_spec(view: Screen, child: Option<(PtyKind, bool)>) -> PtyTick {
    if view != Screen::Pty {
        PtyTick::Keep
    } else {
        match child {
            Some((kind, alive)) => if alive {
                PtyTick::Keep
            } else if kind == PtyKind::Exec {
                PtyTick::MarkFinished
            } else {
                PtyTick::Close
            },
            None => PtyTick::Close,
        }
    }
}

pub fn pty_tick(view: Screen, child: Option<(PtyKind, bool)>) -> (r: PtyTick)
    ensures
        r == pty_tick_spec(view, child),
{
    if view != Screen::Pty {
        return PtyTick::Keep;
    }
    match child {
        Some((kind, alive)) => if alive {
            PtyTick::Keep
        } else if kind == PtyKind::Exec {
            PtyTick::MarkFinished
        } else {
            PtyTick::Close
        },
        None => PtyTick::Close,
    }
}

/// Whether `k` is Ctrl+C (other modifiers may be held too).
pub open spec fn is_ctrl_c(k: KeyStroke) -> bool {
    k.code == KeyCode::Char('c') && k.modifiers.ctrl
}

/// Where an event goes, given the screen, whether a quit is already
/// pending, and the tasks in flight.
pub open spec fn route_spec(view: Screen, quitting: bool, running: Set<TaskKind>, ev: LoopEvent) -> EventRoute {
    match ev {
        LoopEvent::Resize(cols, rows) => EventRoute::Resize {
            cols,
            rows,
            pty: if view == Screen::Pty {
                Some((overlay_extent(cols, 6, 10) as u16, overlay_extent(rows, 4, 5) as u16))
            } else {
                None
            },
        },
        LoopEvent::Key(k) => if is_ctrl_c(k) {
            if view == Screen::Pty {
                EventRoute::ForwardToPty
            } else if !crate::async_task::any_mutating(running) {
                EventRoute::Quit(QuitGate::Leave)
            } else {
                EventRoute::Quit(QuitGate::Hold(crate::async_task::first_mutating(running)))
            }
        } else if quitting {
            EventRoute::Ignore
        } else {
            EventRoute::Screen(k)
        },
    }
}

/// Route one terminal event. Ctrl+C inside the PTY overlay always reaches
/// the child and never quits; elsewhere it requests a quit that waits for
/// mutating work; once a quit is pending, other keys do nothing.
pub fn route_event(view: Screen, quitting: bool, tasks: &TaskRunner, ev: LoopEvent) -> (r: EventRoute)
    ensures
        r == route_spec(view, quitting, tasks@.running, ev),
{
    match ev {
        LoopEvent::Resize(cols, rows) => {
            let pty = if view == Screen::Pty {
                Some((overlay_extent_of(cols, 6, 10), overlay_extent_of(rows, 4, 5)))
            } else {
                None
            };
            EventRoute::Resize { cols, rows, pty }
        },
        LoopEvent::Key(k) => {
            if k.code == KeyCode::Char('c') && k.modifiers.ctrl {
                if view == Screen::Pty {
                    EventRoute::ForwardToPty
                } else {
                    EventRoute::Quit(quit_gate(true, tasks))
                }
            } else if quitting {
                EventRoute::Ignore
            } else {
                EventRoute::Screen(k)
            }
        },
    }
}

/// What a key does on the worktree list. `Esc` and `Enter` are fixed
/// (their meaning depends on the filter and picker mode, which the keymap
/// cannot express) and both drop a pending chord; every other key goes to
/// the keymap.
#[derive(Debug, Clone, Copy, PartialEq, Eq, Structural)]
pub enum ListKey {
    /// Leave the picker (`gwm switch`) without a pick.
    PickerCancel,
    /// Clear the filter and close its bar.
    FilterCancel,
    /// Close the filter bar, keeping the query; in picker mode, then pick
    /// the highlighted row.
    FilterKeep { then_pick: bool },
    FilterPop,
    FilterPush(char),
    /// Drop the pending chord and quit.
    Quit,
    /// Drop the pending chord and pick the highlighted row.
    Pick,
    /// Drop the pending chord and show the selected path.
    CopyPath,
    /// Drop the pending chord and clear the (sticky) filter.
    ClearFilter,
    /// Resolve through the keymap.
    Dispatch,
    /// Nothing.
    Ignore,
}

pub open spec fn list_key_spec(filter_open: bool, picker: bool, query_empty: bool, k: KeyStroke) -> ListKey {
    if filter_open {
        match k.code {
            KeyCode::Esc => if picker { ListKey::PickerCancel } else { ListKey::FilterCancel },
            KeyCode::Enter => ListKey::FilterKeep { then_pick: picker },
            KeyCode::Backspace => ListKey::FilterPop,
            KeyCode::Char(c) => ListKey::FilterPush(c),
            _ => ListKey::Ignore,
        }
    } else {
        match k.code {
            KeyCode::Esc => if query_empty { ListKey::Quit } else { ListKey::ClearFilter },
            KeyCode::Enter => if picker { ListKey::Pick } else { ListKey::CopyPath },
            _ => ListKey::Dispatch,
        }
    }
}

/// Decide a key on the worktree list. While the filter bar is open every
/// key is filter input, so a query may hold `q`, `?` or `/`; only `Esc`
/// and `Enter` leave it.
pub fn list_key(filter_open: bool, picker: bool, query_empty: bool, k: KeyStroke) -> (r: ListKey)
    ensures
        r == list_key_spec(filter_open, picker, query_empty, k),
{
    if filter_open {
        match k.code {
            KeyCode::Esc => if picker { ListKey::PickerCancel } else { ListKey::FilterCancel },
            KeyCode::Enter => ListKey::FilterKeep { then_pick: picker },
            KeyCode::Backspace => ListKey::FilterPop,
            KeyCode::Char(c) => ListKey::FilterPush(c),
            _ => ListKey::Ignore,
        }
    } else {
        match k.code {
            KeyCode::Esc => if query_empty { ListKey::Quit } else { ListKey::ClearFilter },
            KeyCode::Enter => if picker { ListKey::Pick } else { ListKey::CopyPath },
            _ => ListKey::Dispatch,
        }
    }
}

/// With the filter bar open, no printable key reaches the keymap: each
/// one is typed into the query.
pub proof fn law_open_filter_takes_every_char(picker: bool, query_empty: bool, k: KeyStroke, c: char)
    requires
        k.code == KeyCode::Char(c),
    ensures
        list_key_spec(true, picker, query_empty, k) == ListKey::FilterPush(c),
{
}

/// Inside the PTY overlay Ctrl+C is the child's: whatever is in flight and
/// whether a quit is pending, it is forwarded and never starts a quit.
pub proof fn law_ctrl_c_in_pty_reaches_child(quitting: bool, running: Set<TaskKind>, k: KeyStroke)
    requires
        is_ctrl_c(k),
    ensures
        route_spec(Screen::Pty, quitting, running, LoopEvent::Key(k)) == EventRoute::ForwardToPty,
{
}

/// While a quit is pending, no key reaches a screen.
pub proof fn law_pending_quit_swallows_keys(view: Screen, running: Set<TaskKind>, k: KeyStroke)
    ensures
        !(route_spec(view, true, running, LoopEvent::Key(k)) is Screen),
{
}

} // verus!
