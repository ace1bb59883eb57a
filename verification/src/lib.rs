//! A verified core for server and client frontends in the terminal.

pub mod connection;
pub mod console;
pub mod display;
pub mod event;
pub mod fixtures;
pub mod geometry;
pub mod input;
pub mod json;
pub mod mouse;
pub mod protocol;
pub mod screen;
pub mod selection;
pub mod server;
pub mod shell;
pub mod terminal;
pub mod text;
pub mod tui;
pub mod wrap;
