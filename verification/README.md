# gwm_tui

The state machines and text logic behind the gwm terminal UI, written in
Verus: every function in `src/` carries a contract that Verus proves, and
the properties that span several calls stand as `law_*` proof functions.

## Layout

- `src/` — the verified library.
  - Overlays and their state: `palette`, `filter`, `exec_picker`, `confirm`,
    `clean_overlay`, `command_logs`, `link_prompt`, `create_form`,
    `detail_overlay`, `config_panel`, `help`, `commits`, `views`.
  - Background work: `async_task` (generation-based coalescing of tasks,
    and the quit gate that holds a quit while mutating work is in flight),
    `drain` (applying finished results, one or a whole batch: the
    generation check, then the screen, status line and failure notes, and
    what the loop must still store, re-list or finish), `github_fetch` (per-number caches and link state).
  - The loop's own decisions: `event_loop` (input wait, the PTY overlay
    after its child exits, where Ctrl+C and resizes go, and the fixed
    `Esc`/`Enter` handling on the worktree list).
  - Screens and flows: `screens` (what a resolved key does on each overlay
    screen, and what a worktree-list action comes to before it runs),
    `flows` (which config file a captured binding goes to and what a failed
    write or reload comes to; submitting the rename form).
  - Macros: `macros` (what running `[tui.macro1]`/`[tui.macro2]` comes to:
    a refusal, a tmux/zellij pane argv, or the PTY overlay and its size).
  - Keys: `keymap` (chord parsing, overrides, conflict and prefix checks,
    and `dispatch_stroke`, the pending-chord machine with its fallback),
    `modal_keymap`, `mouse` (hit-testing), `pty` (key bytes for a child
    terminal), `pty_session` (the child's life cycle as decisions).
  - Text: `note_editor` (a small modal editor), `markdown` with `md_block`,
    `md_inline` and `md_wrap` (Markdown to styled, wrapped rows),
    `commit_graph` (lane layout of a commit list), `fuzzy` (ranking),
    `launch` (argv and clipboard tools), `text` and `paths` (helpers).
- `tests/` — tests of the library on concrete values.
- `app/` — ordinary Rust around the library: terminal key events, the wall
  clock, launching programs, running a macro's plan, the event loop that
  performs the library's decisions for a host holding the application
  state, and the PTY handles driven by `pty_session`.

## What is not here

The `App` struct, its event loop and its action dispatcher are not part of
this crate: they hold the configuration, the open repository, the
worktree list and the multiplexer detection, none of which this crate
models. Their decisions that stand on their own are here and are what a
loop calls: `quit_gate`, `dispatch_stroke`, `route_event`, `pty_tick`,
`poll_millis`, `list_key`, `screen_key`, `action_plan`, `drain_all` and
`apply_task_result` with `status_after_refresh`,
`report_github_after_drain` and `apply_agent_result`, `capture_target`
with `capture_write`, `edit_submit_plan`, and `macro_plan`.

## Outside crates

`nucleo-matcher` (fuzzy scores) and `shell-words` (command splitting) are
called from `src/` behind small trusted wrappers whose contracts name their
results. `crossterm`, `portable-pty`, `tui-term`, `which`, `libc` and
`tempfile` are used by `app/` only.
