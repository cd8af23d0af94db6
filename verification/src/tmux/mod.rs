//! The session model shared by every command: targets, panes, windows and sessions.

pub mod config;
pub mod pane;
pub mod pre;
pub mod session;
pub mod target;
pub mod window;
