//! How an external program is launched from the TUI: the clipboard tools
//! tried for the host OS, whether a full-screen child needs its output
//! sent to the terminal, and how a configured command becomes an argv.

use vstd::prelude::*;
use crate::text::{chars_of, string_of};

verus! {

/// The operating system family the binary was built for.
#[derive(Debug, Clone, Copy, PartialEq, Eq, Structural)]
pub enum HostOs {
    MacOs,
    Windows,
    /// Linux and the other Unixes.
    Other,
}

/// Clipboard tools to try for `os`, in order, each with its arguments:
/// `pbcopy` on macOS, `clip` on Windows, else `wl-copy`, `xclip`, `xsel`.
/// The first one found on `$PATH` wins.
pub fn clipboard_candidates(os: HostOs) -> (r: Vec<(&'static str, Vec<&'static str>)>)
    ensures
        os == HostOs::MacOs ==> r@.len() == 1 && r@[0].0@ == "pbcopy"@ && r@[0].1@.len() == 0,
        os == HostOs::Windows ==> r@.len() == 1 && r@[0].0@ == "clip"@ && r@[0].1@.len() == 0,
        os == HostOs::Other ==> r@.len() == 3 && r@[0].0@ == "wl-copy"@ && r@[0].1@.len() == 0
            && r@[1].0@ == "xclip"@ && r@[1].1@.len() == 2 && r@[1].1@[0]@ == "-selection"@
            && r@[1].1@[1]@ == "clipboard"@ && r@[2].0@ == "xsel"@ && r@[2].1@.len() == 2
            && r@[2].1@[0]@ == "--clipboard"@ && r@[2].1@[1]@ == "--input"@,
{
    match os {
        HostOs::MacOs => vec![("pbcopy", Vec::new())],
        HostOs::Windows => vec![("clip", Vec::new())],
        HostOs::Other => vec![
            ("wl-copy", Vec::new()),
            ("xclip", vec!["-selection", "clipboard"]),
            ("xsel", vec!["--clipboard", "--input"]),
        ],
    }
}

/// Whether a full-screen child must have its output pointed at the
/// terminal: exactly when our own stdout is not one (it is then the pipe
/// of a `cd "$(gwm)"` wrapper, which must only ever see the chosen path).
pub fn wants_child_stdout_on_tty(stdout_is_terminal: bool) -> (r: bool)
    ensures
        r == !stdout_is_terminal,
{
    !stdout_is_terminal
}

/// How `shell_words` splits `s` into words, POSIX-shell style (quotes and
/// backslashes honoured), or `None` when `s` does not parse (an unbalanced
/// quote).
pub uninterp spec fn shell_split(s: Seq<char>) -> Option<Seq<Seq<char>>>;

pub open spec fn string_views(v: Seq<String>) -> Seq<Seq<char>> {
    v.map_values(|s: String| s@)
}

/// Splits `s` with `shell_words::split`. The contract names the result and
/// does not restate the shell grammar.
#[verifier::external_body]
fn split_words_posix(s: &str) -> (r: Option<Vec<String>>)
    ensures
        match r {
            Some(v) => shell_split(s@) == Some(string_views(v@)),
            None => shell_split(s@) is None,
        },
{
    shell_words::split(s).ok()
}

/// The argv a configured command runs as. A path naming an existing file
/// runs as itself (so a path with spaces needs no quoting); otherwise the
/// command is split shell-style, and a value that does not split into at
/// least one word runs as the raw string. Never empty.
pub fn launch_argv(cmd: &str, names_a_file: bool) -> (r: Vec<String>)
    ensures
        names_a_file ==> string_views(r@) == seq![cmd@],
        !names_a_file ==> string_views(r@) == match shell_split(cmd@) {
            Some(words) => if words.len() > 0 { words } else { seq![cmd@] },
            None => seq![cmd@],
        },
        r@.len() > 0,
{
    if names_a_file {
        let r = vec![string_of(chars_of(cmd).as_slice())];
        proof {
            assert(string_views(r@) =~= seq![cmd@]);
        }
        return r;
    }
    match split_words_posix(cmd) {
        Some(argv) => {
            if argv.len() > 0 {
                return argv;
            }
        },
        None => {},
    }
    let r = vec![string_of(chars_of(cmd).as_slice())];
    proof {
        assert(string_views(r@) =~= seq![cmd@]);
    }
    r
}

} // verus!
