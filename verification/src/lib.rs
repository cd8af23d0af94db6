//! A tmux project manager: the verified core of muxed.
//!
//! Configurations describe sessions, windows and panes; the library turns
//! them into the exact tmux command lines that build the session, and turns
//! a running session back into a configuration.

pub mod text;
pub mod autocomplete;
pub mod edit;
pub mod args;
pub mod debug;
pub mod project_paths;
pub mod rand_names;
pub mod tmux;
pub mod load;
pub mod list;
pub mod new;
pub mod muxednew;
pub mod paths;
pub mod snapshot;
