use gwm_tui::macros::{macro_plan, MacroPlan, MacroSpec, MuxSplit};

fn spec(cmd: &str, mux_pane: bool) -> Option<MacroSpec> {
    Some(MacroSpec { command: cmd.to_string(), mux_pane })
}

fn strings(v: &[&str]) -> Vec<String> {
    v.iter().map(|s| s.to_string()).collect()
}

fn refused(p: MacroPlan) -> String {
    match p {
        MacroPlan::Refuse(s) => s,
        _ => panic!("expected a refusal"),
    }
}

fn pty(p: MacroPlan) -> (Vec<String>, String, u16, u16, Option<String>) {
    match p {
        MacroPlan::Pty { argv, cwd, cols, rows, note } => (argv, cwd, cols, rows, note),
        _ => panic!("expected the PTY overlay"),
    }
}

fn mux(p: MacroPlan) -> (String, Vec<String>) {
    match p {
        MacroPlan::Mux { bin, args } => (bin, args),
        _ => panic!("expected a multiplexer pane"),
    }
}

#[test]
fn unconfigured_macro_names_its_table() {
    let p = macro_plan(2, None, Some("/w".into()), MuxSplit::Absent, "/bin/sh".into(), false, 100, 40);
    assert_eq!(refused(p), "macro2 not configured: add [tui.macro2] to .gwm.toml");
}

#[test]
fn macro_without_selection_is_refused() {
    let p = macro_plan(1, spec("rm -rf target", false), None, MuxSplit::Absent, "/bin/sh".into(), false, 100, 40);
    assert_eq!(refused(p), "macro1: nothing selected");
}

#[test]
fn tmux_pane_takes_the_command_as_one_operand() {
    let split = MuxSplit::Split(strings(&["tmux", "split-window", "-h", "-c", "/w"]));
    let (bin, args) = mux(macro_plan(1, spec("make test", true), Some("/w".into()), split, "/bin/zsh".into(), false, 100, 40));
    assert_eq!(bin, "tmux");
    assert_eq!(args, strings(&["split-window", "-h", "-c", "/w", "make test"]));
}

#[test]
fn zellij_pane_runs_the_command_through_the_shell() {
    let split = MuxSplit::Split(strings(&["zellij", "action", "new-pane", "--cwd", "/w"]));
    let (bin, args) = mux(macro_plan(1, spec("make test", true), Some("/w".into()), split, "/bin/zsh".into(), false, 100, 40));
    assert_eq!(bin, "zellij");
    assert_eq!(args, strings(&["action", "new-pane", "--cwd", "/w", "--", "/bin/zsh", "-c", "make test"]));
}

#[test]
fn pty_macro_fills_nine_tenths_of_the_terminal() {
    let (argv, cwd, cols, rows, note) =
        pty(macro_plan(1, spec("cargo build", false), Some("/w".into()), MuxSplit::Absent, "/bin/sh".into(), false, 100, 40));
    assert_eq!(argv, strings(&["/bin/sh", "-c", "cargo build"]));
    assert_eq!(cwd, "/w");
    assert_eq!((cols, rows), (84, 32));
    assert_eq!(note, None);
}

#[test]
fn pty_overlay_keeps_its_minimum_size() {
    let (_, _, cols, rows, _) =
        pty(macro_plan(1, spec("ls", false), Some("/w".into()), MuxSplit::Absent, "/bin/sh".into(), false, 10, 3));
    assert_eq!((cols, rows), (20, 5));
}

#[test]
fn windows_shell_takes_slash_c() {
    let (argv, _, _, _, _) =
        pty(macro_plan(1, spec("dir", false), Some("C:\\w".into()), MuxSplit::Absent, "cmd.exe".into(), true, 100, 40));
    assert_eq!(argv, strings(&["cmd.exe", "/C", "dir"]));
}

#[test]
fn pane_macro_falls_back_to_the_overlay_without_a_multiplexer() {
    let (argv, _, _, _, note) =
        pty(macro_plan(2, spec("htop", true), Some("/w".into()), MuxSplit::Absent, "/bin/sh".into(), false, 100, 40));
    assert_eq!(argv, strings(&["/bin/sh", "-c", "htop"]));
    assert_eq!(note.as_deref(), Some("macro2: no multiplexer; falling back to PTY overlay"));
}

#[test]
fn herdr_pane_macro_falls_back_to_the_overlay() {
    let (_, _, _, _, note) =
        pty(macro_plan(1, spec("htop", true), Some("/w".into()), MuxSplit::Herdr, "/bin/sh".into(), false, 100, 40));
    assert_eq!(note.as_deref(), Some("macro1: herdr panes take no command; falling back to PTY overlay"));
}
