[package]
name = "servatui"
version = "0.1.0"
edition = "2021"
publish = false

[dependencies]
base64 = "0.22"
crossterm = "0.28"
libc = "0.2"
ratatui = { version = "0.29", features = ["unstable-widget-ref"] }
serde = { version = "1", features = ["derive"] }
serde_json = "1"
signal-hook = "0.3"
textwrap = "0.16"
tui-input = "0.11"
