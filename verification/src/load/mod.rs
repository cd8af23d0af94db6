//! Building a session: from the configuration to the commands tmux runs.

pub mod command;
pub mod enrichment;
pub mod laws;
pub mod project;
pub mod error;
pub mod target;
pub mod to_command;
