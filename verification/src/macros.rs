//! The two user macros (`[tui.macro1]`, `[tui.macro2]`): what running one
//! does, decided from the macro's configuration, the selection, what
//! multiplexer detection found, the shell and the terminal size. The caller
//! spawns the program that the plan names.

use vstd::prelude::*;
use crate::text::{str_eq, string_of};
use crate::keymap::push_lit;
use crate::detail_overlay::{decimal, push_decimal};
use crate::launch::string_views;

verus! {

/// A configured macro: the shell command and whether it asks for a
/// multiplexer pane (`open_in = "mux_pane"`) rather than the PTY overlay.
pub struct MacroSpec {
    pub command: String,
    pub mux_pane: bool,
}

/// What multiplexer detection found for a split in the selected worktree.
pub enum MuxSplit {
    /// No multiplexer is active.
    Absent,
    /// Herdr is active; its split has no trailing-command form.
    Herdr,
    /// tmux or zellij: the split's argv, program first.
    Split(Vec<String>),
}

/// What running a macro comes to.
pub enum MacroPlan {
    /// Nothing is spawned; the status line says why.
    Refuse(String),
    /// Spawn `bin` with `args` to open a multiplexer pane.
    Mux { bin: String, args: Vec<String> },
    /// Open the PTY overlay on `argv` in `cwd`, `cols` by `rows`; `note`
    /// is the status line to show when the overlay opens.
    Pty { argv: Vec<String>, cwd: String, cols: u16, rows: u16, note: Option<String> },
}

/// `macro1`, `macro2`, ...
pub open spec fn macro_label(n: u8) -> Seq<char> {
    "macro"@ + decimal(n as nat, 1)
}

/// The flag that makes the shell run one command string.
pub open spec fn shell_flag(windows: bool) -> Seq<char> {
    if windows { "/C"@ } else { "-c"@ }
}

/// The overlay's inner size along one axis: nine tenths of the terminal,
/// less the frame `frame`, and never under `floor`.
pub open spec fn overlay_extent(total: u16, frame: nat, floor: nat) -> nat {
    let inner = total * 90 / 100;
    let cut: nat = if inner >= frame { (inner - frame) as nat } else { 0 };
    if cut >= floor { cut } else { floor }
}

/// The argv that a pane split runs: tmux takes the command as one shell
/// operand; zellij runs its trailing argv directly, so the command goes
/// through the shell after `--`.
pub open spec fn mux_args(split: Seq<Seq<char>>, shell: Seq<char>, flag: Seq<char>, command: Seq<char>) -> Seq<Seq<char>> {
    if split[0] == "zellij"@ {
        split.drop_first() + seq!["--"@, shell, flag, command]
    } else {
        split.drop_first() + seq![command]
    }
}

/// Whether the plan `r` is what running macro `n` comes to.
pub open spec fn macro_plan_spec(
    r: MacroPlan,
    n: u8,
    cfg: Option<MacroSpec>,
    selected: Option<String>,
    mux: MuxSplit,
    shell: Seq<char>,
    windows: bool,
    width: u16,
    height: u16,
) -> bool {
    let label = macro_label(n);
    match cfg {
        None => r matches MacroPlan::Refuse(s)
            && s@ == label + " not configured: add [tui."@ + label + "] to .gwm.toml"@,
        Some(c) => match selected {
            None => r matches MacroPlan::Refuse(s) && s@ == label + ": nothing selected"@,
            Some(path) => if c.mux_pane && mux is Split {
                match mux {
                    MuxSplit::Split(v) => r matches MacroPlan::Mux { bin, args }
                        && bin@ == string_views(v@)[0]
                        && string_views(args@) == mux_args(string_views(v@), shell, shell_flag(windows), c.command@),
                    _ => false,
                }
            } else {
                r matches MacroPlan::Pty { argv, cwd, cols, rows, note }
                    && string_views(argv@) == seq![shell, shell_flag(windows), c.command@]
                    && cwd@ == path@
                    && cols == overlay_extent(width, 6, 20)
                    && rows == overlay_extent(height, 4, 5)
                    && match note {
                        None => !c.mux_pane,
                        Some(s) => c.mux_pane && s@ == label + (if mux is Herdr {
                            ": herdr panes take no command; falling back to PTY overlay"@
                        } else {
                            ": no multiplexer; falling back to PTY overlay"@
                        }),
                    }
            }
        },
    }
}

fn label_chars(n: u8) -> (r: Vec<char>)
    ensures
        r@ == macro_label(n),
{
    let mut out: Vec<char> = Vec::new();
    push_lit(&mut out, "macro");
    push_decimal(&mut out, n as u64, false);
    out
}

fn push_all(out: &mut Vec<char>, tail: &[char])
    ensures
        final(out)@ == old(out)@ + tail@,
{
    let ghost start = out@;
    let mut i: usize = 0;
    while i < tail.len()
        invariant
            i <= tail@.len(),
            out@ == start + tail@.take(i as int),
        decreases tail.len() - i,
    {
        out.push(tail[i]);
        proof {
            assert(tail@.take(i + 1) =~= tail@.take(i as int).push(tail@[i as int]));
        }
        i += 1;
    }
    proof {
        assert(tail@.take(tail@.len() as int) =~= tail@);
    }
}

/// `label` followed by `lit`.
fn labelled(label: &Vec<char>, lit: &str) -> (r: String)
    ensures
        r@ == label@ + lit@,
{
    let mut out: Vec<char> = Vec::new();
    push_all(&mut out, label.as_slice());
    push_lit(&mut out, lit);
    string_of(out.as_slice())
}

pub(crate) fn overlay_extent_of(total: u16, frame: u16, floor: u16) -> (r: u16)
    ensures
        r == overlay_extent(total, frame as nat, floor as nat),
{
    let inner: u32 = (total as u32) * 90 / 100;
    let inner16: u16 = inner as u16;
    let cut: u16 = if inner16 >= frame { inner16 - frame } else { 0 };
    if cut >= floor { cut } else { floor }
}

/// What running macro `n` comes to: refused when it is not configured or
/// nothing is selected; a multiplexer pane when it asks for one and tmux or
/// zellij is active; else the PTY overlay on `shell -c command` in the
/// selected worktree, with a note when a pane was asked for and could not
/// be had.
pub fn macro_plan(
    n: u8,
    cfg: Option<MacroSpec>,
    selected: Option<String>,
    mux: MuxSplit,
    shell: String,
    windows: bool,
    width: u16,
    height: u16,
) -> (r: MacroPlan)
    requires
        mux matches MuxSplit::Split(v) ==> v@.len() > 0,
    ensures
        macro_plan_spec(r, n, cfg, selected, mux, shell@, windows, width, height),
{
    let label = label_chars(n);
    let c = match cfg {
        None => {
            let mut out: Vec<char> = Vec::new();
            push_all(&mut out, label.as_slice());
            push_lit(&mut out, " not configured: add [tui.");
            push_all(&mut out, label.as_slice());
            push_lit(&mut out, "] to .gwm.toml");
            proof {
                assert(out@ =~= macro_label(n) + " not configured: add [tui."@ + macro_label(n) + "] to .gwm.toml"@);
            }
            return MacroPlan::Refuse(string_of(out.as_slice()));
        },
        Some(c) => c,
    };
    let path = match selected {
        None => {
            return MacroPlan::Refuse(labelled(&label, ": nothing selected"));
        },
        Some(p) => p,
    };
    let flag: &str = if windows { "/C" } else { "-c" };
    let ghost flag_view = shell_flag(windows);
    assert(flag@ == flag_view);
    if c.mux_pane {
        if let MuxSplit::Split(v) = &mux {
            let bin = v[0].clone();
            let mut args: Vec<String> = Vec::new();
            let mut i: usize = 1;
            while i < v.len()
                invariant
                    1 <= i <= v@.len(),
                    args@.len() == i - 1,
                    string_views(args@) == string_views(v@).subrange(1, i as int),
                decreases v.len() - i,
            {
                let ghost prev = args@;
                args.push(v[i].clone());
                proof {
                    assert(string_views(prev) =~= string_views(v@).subrange(1, i as int));
                    assert forall|j: int| 0 <= j < args@.len() implies #[trigger] string_views(args@)[j]
                        == string_views(v@).subrange(1, i + 1)[j] by {
                        assert(string_views(args@)[j] == args@[j]@);
                        assert(string_views(v@).subrange(1, i + 1)[j] == string_views(v@)[j + 1]);
                        assert(string_views(v@)[j + 1] == v@[j + 1]@);
                        if j < prev.len() {
                            assert(args@[j] == prev[j]);
                            assert(string_views(prev)[j] == prev[j]@);
                            assert(string_views(v@).subrange(1, i as int)[j] == string_views(v@)[j + 1]);
                        } else {
                            assert(args@[j] == v@[i as int]);
                        }
                    }
                    assert(string_views(args@) =~= string_views(v@).subrange(1, i + 1));
                }
                i += 1;
            }
            let zellij = str_eq(bin.as_str(), "zellij");
            if zellij {
                args.push(string_of(crate::text::chars_of("--").as_slice()));
                args.push(shell.clone());
                args.push(string_of(crate::text::chars_of(flag).as_slice()));
                args.push(c.command.clone());
            } else {
                args.push(c.command.clone());
            }
            proof {
                assert(string_views(v@).drop_first() =~= string_views(v@).subrange(1, v@.len() as int));
                assert(string_views(args@) =~= mux_args(string_views(v@), shell@, flag_view, c.command@));
            }
            return MacroPlan::Mux { bin, args };
        }
    }
    let note: Option<String> = if c.mux_pane {
        match &mux {
            MuxSplit::Herdr => Some(labelled(&label, ": herdr panes take no command; falling back to PTY overlay")),
            _ => Some(labelled(&label, ": no multiplexer; falling back to PTY overlay")),
        }
    } else {
        None
    };
    let mut argv: Vec<String> = Vec::new();
    argv.push(shell.clone());
    argv.push(string_of(crate::text::chars_of(flag).as_slice()));
    argv.push(c.command.clone());
    proof {
        assert(string_views(argv@) =~= seq![shell@, flag_view, c.command@]);
    }
    MacroPlan::Pty {
        argv,
        cwd: path,
        cols: overlay_extent_of(width, 6, 20),
        rows: overlay_extent_of(height, 4, 5),
        note,
    }
}

} // verus!
