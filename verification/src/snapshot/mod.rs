//! Snapshots: turning a running tmux session back into a configuration.

pub mod entity;
pub mod error;
pub mod laws;
pub mod process;
pub mod session_data;
pub mod capture;
pub mod tmux;
