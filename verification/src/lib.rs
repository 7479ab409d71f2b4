//! Pure state machines and text logic behind the gwm terminal UI: overlay
//! state, the background-task spine, the note editor, the Markdown renderer,
//! the commit graph, keymaps and mouse hit-testing.

pub mod help;
pub mod commit_graph;
pub mod async_task;
pub mod text;
pub mod paths;
pub mod note_editor;
pub mod keymap;
pub mod fuzzy;
pub mod palette;
pub mod filter;
pub mod exec_picker;
pub mod confirm;
pub mod clean_overlay;
pub mod command_logs;
pub mod link_prompt;
pub mod create_form;
pub mod markdown;
pub mod md_wrap;
pub mod md_inline;
pub mod md_block;
pub mod commits;
pub mod detail_overlay;
pub mod github_fetch;
pub mod config_panel;
pub mod launch;
pub mod views;
pub mod modal_keymap;
pub mod mouse;
pub mod pty;
pub mod pty_session;
pub mod macros;
pub mod drain;
pub mod event_loop;
pub mod screens;
pub mod flows;
