[package]
name = "gwm_tui"
version = "0.1.0"
edition = "2021"
publish = false

[dependencies]
nucleo-matcher = "=0.3.1"
shell-words = "=1.1.1"
crossterm = "=0.29.0"
which = "*"
portable-pty = "*"
tui-term = "*"
libc = "*"
tempfile = "*"
