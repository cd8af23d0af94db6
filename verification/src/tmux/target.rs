//! A tmux target: a session, optionally a window in it, optionally a pane in that window.

use vstd::prelude::*;
use crate::text::{decimal, usize_to_string};

verus! {

/// The error raised when a target cannot be narrowed any further.
#[derive(Debug)]
pub enum CommonError {
    ProjectPaths(String),
    FirstRun(String),
    Target,
}

impl CommonError {
    /// The message reported for the error.
    pub open spec fn message_spec(&self) -> Seq<char> {
        match self {
            CommonError::ProjectPaths(msg) => "ProjectPaths error: "@ + msg@,
            CommonError::FirstRun(msg) => "FirstRun error: "@ + msg@,
            CommonError::Target => "Tried to build an incompatible target"@,
        }
    }

    pub fn message(&self) -> (s: String)
        ensures
            s@ == self.message_spec(),
    {
        match self {
            CommonError::ProjectPaths(msg) => {
                let mut s = String::from_str("ProjectPaths error: ");
                s.append(msg.as_str());
                s
            },
            CommonError::FirstRun(msg) => {
                let mut s = String::from_str("FirstRun error: ");
                s.append(msg.as_str());
                s
            },
            CommonError::Target => String::from_str("Tried to build an incompatible target"),
        }
    }
}

/// Represents a tmux target, which may include a session, window, and pane,
/// with the combined string `session`, `session:window` or `session:window.pane`
/// that tmux takes after `-t`.
#[derive(Debug)]
pub struct Target {
    pub session: String,
    pub window: Option<usize>,
    pub pane: Option<usize>,
    pub combined: String,
}

/// The `-t` argument tmux reads for the given parts.
pub open spec fn combined_of(session: Seq<char>, window: Option<usize>, pane: Option<usize>) -> Seq<char> {
    session
        + (match window { Some(w) => seq![':'] + decimal(w as nat), None => Seq::empty() })
        + (match pane { Some(p) => seq!['.'] + decimal(p as nat), None => Seq::empty() })
}

/// What a target says: its parts and the string tmux reads.
pub struct TargetView {
    pub session: Seq<char>,
    pub window: Option<usize>,
    pub pane: Option<usize>,
    pub combined: Seq<char>,
}

impl DeepView for Target {
    type V = TargetView;

    open spec fn deep_view(&self) -> TargetView {
        TargetView {
            session: self.session@,
            window: self.window,
            pane: self.pane,
            combined: self.combined@,
        }
    }
}

impl Clone for Target {
    fn clone(&self) -> (t: Target)
        ensures
            t.deep_view() == self.deep_view(),
    {
        Target {
            session: self.session.clone(),
            window: self.window,
            pane: self.pane,
            combined: self.combined.clone(),
        }
    }
}

/// Clones an optional target, keeping everything it says.
pub fn clone_opt_target(o: &Option<Target>) -> (r: Option<Target>)
    ensures
        r.deep_view() == o.deep_view(),
{
    match o {
        Some(t) => Some(t.clone()),
        None => None,
    }
}

/// Two targets are equal when tmux reads them as the same target.
impl PartialEq for Target {
    fn eq(&self, other: &Self) -> (r: bool) {
        self.combined == other.combined
    }
}

impl vstd::std_specs::cmp::PartialEqSpecImpl for Target {
    open spec fn obeys_eq_spec() -> bool {
        true
    }

    open spec fn eq_spec(&self, other: &Self) -> bool {
        self.combined@ == other.combined@
    }
}

impl Target {
    /// The target is well formed when its combined string is built from its parts.
    pub open spec fn wf(&self) -> bool {
        self.combined@ == combined_of(self.session@, self.window, self.pane)
    }

    /// Builds a target for a session, a window of it, or a pane of that window.
    pub fn new(session: &str, window: Option<usize>, pane: Option<usize>) -> (t: Target)
        ensures
            t.session@ == session@,
            t.window == window,
            t.pane == pane,
            t.wf(),
    {
        let mut combined = String::from_str(session);
        proof { reveal_strlit(":"); reveal_strlit("."); }
        match window {
            Some(w) => {
                combined.append(":");
                let ws = usize_to_string(w);
                combined.append(ws.as_str());
            },
            None => {},
        }
        assert(combined@ =~= session@ + (match window { Some(w) => seq![':'] + decimal(w as nat), None => Seq::empty() }));
        match pane {
            Some(p) => {
                combined.append(".");
                let ps = usize_to_string(p);
                combined.append(ps.as_str());
            },
            None => {},
        }
        assert(combined@ =~= combined_of(session@, window, pane));
        Target { session: String::from_str(session), window, pane, combined }
    }

    /// Narrows a session target to a window, or a window target to a pane.
    /// A pane target, or a target with a pane but no window, cannot be narrowed.
    pub fn extend(&self, value: usize) -> (r: Result<Target, CommonError>)
        ensures
            match (self.window, self.pane) {
                (Some(w), None) => r matches Ok(t) && t.session@ == self.session@
                    && t.window == Some(w) && t.pane == Some(value) && t.wf(),
                (None, None) => r matches Ok(t) && t.session@ == self.session@
                    && t.window == Some(value) && t.pane == None::<usize> && t.wf(),
                _ => r matches Err(CommonError::Target),
            },
    {
        match (self.window, self.pane) {
            (Some(w), None) => Ok(Target::new(self.session.as_str(), Some(w), Some(value))),
            (None, None) => Ok(Target::new(self.session.as_str(), Some(value), None)),
            _ => Err(CommonError::Target),
        }
    }
}

} // verus!
