//! Two flows that alternate file or git work with decisions, with the
//! decisions here: committing a captured key binding to a config file
//! (which file, and what a failed write or reload comes to), and
//! submitting the worktree-rename form (no change, held by running work,
//! or started under a fresh generation).

use vstd::prelude::*;
use std::path::PathBuf;
use crate::async_task::{any_mutating, first_mutating, label_of, TaskKind, TaskRunner};
use crate::config_panel::SettingsLayer;
use crate::text::{chars_of, string_of};
use crate::keymap::push_lit;

verus! {

/// The config file a captured binding is written to.
#[derive(Debug, Clone)]
pub enum ConfigFile {
    /// `.gwm.toml` in the active repository's working directory.
    Project,
    /// The user's global config file.
    Global(PathBuf),
}

pub open spec fn stale_project_message() -> Seq<char> {
    "workspace: selected repo is unavailable — can't edit its project keymap"@
}

pub open spec fn no_global_message() -> Seq<char> {
    "keys: no global config path (set $XDG_CONFIG_HOME or $HOME)"@
}

/// Where a captured binding goes: the project file, unless the workspace
/// selection is stale (that file would be the previously active
/// repository's); the global file, when its path is known.
pub fn capture_target(stale: bool, layer: SettingsLayer, global: Option<PathBuf>) -> (r: Result<ConfigFile, String>)
    ensures
        match layer {
            SettingsLayer::Project => if stale {
                r matches Err(e) && e@ == stale_project_message()
            } else {
                r matches Ok(ConfigFile::Project)
            },
            SettingsLayer::Global => match global {
                Some(p) => r matches Ok(ConfigFile::Global(q)) && q == p,
                None => r matches Err(e) && e@ == no_global_message(),
            },
        },
{
    match layer {
        SettingsLayer::Project => if stale {
            Err(string_of(chars_of("workspace: selected repo is unavailable — can't edit its project keymap").as_slice()))
        } else {
            Ok(ConfigFile::Project)
        },
        SettingsLayer::Global => match global {
            Some(p) => Ok(ConfigFile::Global(p)),
            None => Err(string_of(chars_of("keys: no global config path (set $XDG_CONFIG_HOME or $HOME)").as_slice())),
        },
    }
}

/// What a capture's write and the reload after it come to.
#[derive(Debug, Clone, PartialEq, Eq)]
pub enum CaptureWrite {
    /// Restore the file's prior bytes and show the status; the live
    /// keymaps stay as they were.
    RollBack(String),
    /// The binding is on disk and the merged config loads: rebuild the
    /// keymaps from it.
    Keep,
}

/// A failed write is rolled back and reported as `keys: <error>`; a write
/// that breaks the merged config once reloaded is rolled back too.
pub open spec fn capture_write_spec(write: Result<(), Seq<char>>, reload: Result<(), Seq<char>>) -> Option<Seq<char>> {
    match write {
        Err(e) => Some("keys: "@ + e),
        Ok(()) => match reload {
            Err(e) => Some("keys: rebind rejected — would break the merged config: "@ + e),
            Ok(()) => None,
        },
    }
}

pub open spec fn result_view(r: Result<(), String>) -> Result<(), Seq<char>> {
    match r {
        Ok(()) => Ok(()),
        Err(e) => Err(e@),
    }
}

fn prefixed(lit: &str, e: &String) -> (r: String)
    ensures
        r@ == lit@ + e@,
{
    let mut out: Vec<char> = Vec::new();
    push_lit(&mut out, lit);
    let tail = chars_of(e.as_str());
    let ghost start = out@;
    let mut i: usize = 0;
    while i < tail.len()
        invariant
            i <= tail@.len(),
            out@ == start + tail@.take(i as int),
        decreases tail.len() - i,
    {
        out.push(tail[i]);
        proof {
            assert(tail@.take(i + 1) =~= tail@.take(i as int).push(tail@[i as int]));
        }
        i += 1;
    }
    proof {
        assert(tail@.take(tail@.len() as int) =~= tail@);
    }
    string_of(out.as_slice())
}

/// Decide after the write of a captured binding and the reload of the
/// merged config (`reload` is not looked at when the write failed).
pub fn capture_write(write: Result<(), String>, reload: Result<(), String>) -> (r: CaptureWrite)
    ensures
        match capture_write_spec(result_view(write), result_view(reload)) {
            Some(s) => r matches CaptureWrite::RollBack(t) && t@ == s,
            None => r == CaptureWrite::Keep,
        },
{
    match write {
        Err(e) => CaptureWrite::RollBack(prefixed("keys: ", &e)),
        Ok(()) => match reload {
            Err(e) => CaptureWrite::RollBack(prefixed("keys: rebind rejected — would break the merged config: ", &e)),
            Ok(()) => CaptureWrite::Keep,
        },
    }
}

/// What submitting the rename form comes to.
#[derive(Debug, Clone, PartialEq, Eq)]
pub enum EditPlan {
    /// The form was not opened on a worktree: close it.
    Cancel,
    /// Nothing changed: close the form and show "no change".
    NoChange,
    /// Mutating work is running: keep the form and show this status.
    Held(String),
    /// A run is already in flight: nothing happens.
    Coalesced,
    /// Start the rename under this generation: clear the rename failure
    /// and show the loading label.
    Start(u64),
}

/// A label without its trailing ellipses.
pub open spec fn trim_ellipsis(s: Seq<char>) -> Seq<char>
    decreases s.len(),
{
    if s.len() > 0 && s.last() == '…' { trim_ellipsis(s.drop_last()) } else { s }
}

pub open spec fn held_message(running: Set<TaskKind>) -> Seq<char> {
    "finish "@ + trim_ellipsis(label_of(first_mutating(running))) + " before renaming"@
}

fn trimmed(s: &str) -> (r: Vec<char>)
    ensures
        r@ == trim_ellipsis(s@),
{
    let mut v = chars_of(s);
    while v.len() > 0 && v[v.len() - 1] == '…'
        invariant
            trim_ellipsis(v@) == trim_ellipsis(s@),
        decreases v.len(),
    {
        proof {
            assert(v@.drop_last() == v@.remove(v@.len() - 1));
        }
        v.pop();
    }
    v
}

/// Submit the rename form. `original` is the branch the form was opened
/// on (`None` when it was not opened on a worktree); `new_branch` is the
/// branch the form now names, and `same_path` whether it names the same
/// worktree path as before. A rename waits for no other mutating work: it
/// is held while one runs.
pub fn edit_submit_plan(original: Option<&str>, new_branch: &str, same_path: bool, tasks: &mut TaskRunner) -> (r: EditPlan)
    requires
        old(tasks).wf(),
        old(tasks)@.gen(TaskKind::EditWorktree) < u64::MAX,
    ensures
        final(tasks).wf(),
        match original {
            None => r == EditPlan::Cancel && final(tasks)@ == old(tasks)@,
            Some(b) => if b@ == new_branch@ && same_path {
                r == EditPlan::NoChange && final(tasks)@ == old(tasks)@
            } else if any_mutating(old(tasks)@.running) {
                r matches EditPlan::Held(s) && s@ == held_message(old(tasks)@.running) && final(tasks)@ == old(tasks)@
            } else {
                (final(tasks)@, match r {
                    EditPlan::Start(g) => Some(g),
                    _ => None::<u64>,
                }) == old(tasks)@.request(TaskKind::EditWorktree)
                    && (r is Start || r is Coalesced)
            },
        },
{
    let b = match original {
        None => return EditPlan::Cancel,
        Some(b) => b,
    };
    if crate::text::str_eq(b, new_branch) && same_path {
        return EditPlan::NoChange;
    }
    match tasks.mutating_loading_label() {
        Some(label) => {
            let mut out: Vec<char> = Vec::new();
            push_lit(&mut out, "finish ");
            let t = trimmed(label);
            let ghost start = out@;
            let mut i: usize = 0;
            while i < t.len()
                invariant
                    i <= t@.len(),
                    out@ == start + t@.take(i as int),
                decreases t.len() - i,
            {
                out.push(t[i]);
                proof {
                    assert(t@.take(i + 1) =~= t@.take(i as int).push(t@[i as int]));
                }
                i += 1;
            }
            proof {
                assert(t@.take(t@.len() as int) =~= t@);
            }
            push_lit(&mut out, " before renaming");
            return EditPlan::Held(string_of(out.as_slice()));
        },
        None => {},
    }
    match tasks.request(TaskKind::EditWorktree) {
        Some(g) => EditPlan::Start(g),
        None => EditPlan::Coalesced,
    }
}

} // verus!
