//! Targets named by window name rather than window index: `session`,
//! `session:window` and `session:window.pane`.

use vstd::prelude::*;
use crate::text::{decimal, usize_to_string};

verus! {

/// A targeted pane for a tmux session.
#[derive(Debug)]
pub struct PaneTarget {
    pub session: String,
    pub window: String,
    pub pane_index: usize,
    pub arg_string: String,
}

impl PaneTarget {
    pub fn new(session: &str, window: &str, pane_index: usize) -> (t: PaneTarget)
        ensures
            t.session@ == session@,
            t.window@ == window@,
            t.pane_index == pane_index,
            t.arg_string@ == session@ + seq![':'] + window@ + seq!['.'] + decimal(pane_index as nat),
    {
        proof { reveal_strlit(":"); reveal_strlit("."); }
        let mut arg = String::from_str(session);
        arg.append(":");
        arg.append(window);
        arg.append(".");
        let i = usize_to_string(pane_index);
        arg.append(i.as_str());
        assert(arg@ =~= session@ + seq![':'] + window@ + seq!['.'] + decimal(pane_index as nat));
        PaneTarget {
            session: String::from_str(session),
            window: String::from_str(window),
            pane_index,
            arg_string: arg,
        }
    }

    /// The target as tmux reads it: `session:window.pane`.
    pub fn to_string(&self) -> (r: String)
        ensures
            r@ == self.arg_string@,
    {
        String::from_str(self.arg_string.as_str())
    }
}

/// A targeted window for a tmux session.
#[derive(Debug)]
pub struct WindowTarget {
    pub session: String,
    pub window: String,
    pub arg_string: String,
}

impl WindowTarget {
    pub fn new(session: &str, window: &str) -> (t: WindowTarget)
        ensures
            t.session@ == session@,
            t.window@ == window@,
            t.arg_string@ == session@ + seq![':'] + window@,
    {
        proof { reveal_strlit(":"); }
        let mut arg = String::from_str(session);
        arg.append(":");
        arg.append(window);
        assert(arg@ =~= session@ + seq![':'] + window@);
        WindowTarget { session: String::from_str(session), window: String::from_str(window), arg_string: arg }
    }

    /// The target as tmux reads it: `session:window`.
    pub fn to_string(&self) -> (r: String)
        ensures
            r@ == self.arg_string@,
    {
        String::from_str(self.arg_string.as_str())
    }
}

/// A targeted session for tmux.
#[derive(Debug)]
pub struct SessionTarget {
    pub session: String,
    pub arg_string: String,
}

impl SessionTarget {
    pub fn new(session: &str) -> (t: SessionTarget)
        ensures
            t.session@ == session@,
            t.arg_string@ == session@,
    {
        SessionTarget { session: String::from_str(session), arg_string: String::from_str(session) }
    }

    pub fn arg_string(&self) -> (s: &str)
        ensures
            s@ == self.arg_string@,
    {
        self.arg_string.as_str()
    }

    /// The session's name.
    pub fn to_string(&self) -> (r: String)
        ensures
            r@ == self.session@,
    {
        String::from_str(self.session.as_str())
    }
}

/// A pane or a window target.
#[derive(Debug)]
pub enum Target {
    PaneTarget(PaneTarget),
    WindowTarget(WindowTarget),
}

impl Target {
    pub fn arg_string(&self) -> (s: &str)
        ensures
            s@ == match self {
                Target::PaneTarget(c) => c.arg_string@,
                Target::WindowTarget(c) => c.arg_string@,
            },
    {
        match self {
            Target::PaneTarget(c) => c.arg_string.as_str(),
            Target::WindowTarget(c) => c.arg_string.as_str(),
        }
    }
}

} // verus!
