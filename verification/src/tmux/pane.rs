//! A pane of a window: what runs in it, where, and whether it has focus.

use vstd::prelude::*;
use crate::text::clone_opt_string;
use crate::tmux::target::{Target, TargetView, clone_opt_target};

verus! {

#[derive(Debug)]
pub struct Pane {
    pub active: bool,
    pub command: Option<String>,
    pub path: Option<String>,
    pub target: Option<Target>,
}

/// What a pane says, as plain values.
pub struct PaneView {
    pub active: bool,
    pub command: Option<Seq<char>>,
    pub path: Option<Seq<char>>,
    pub target: Option<TargetView>,
}

impl DeepView for Pane {
    type V = PaneView;

    open spec fn deep_view(&self) -> PaneView {
        PaneView {
            active: self.active,
            command: self.command.deep_view(),
            path: self.path.deep_view(),
            target: self.target.deep_view(),
        }
    }
}

impl Clone for Pane {
    fn clone(&self) -> (p: Pane)
        ensures
            p.deep_view() == self.deep_view(),
    {
        Pane {
            active: self.active,
            command: clone_opt_string(&self.command),
            path: clone_opt_string(&self.path),
            target: clone_opt_target(&self.target),
        }
    }
}

impl Default for Pane {
    fn default() -> (p: Pane)
        ensures
            !p.active,
            p.command is None,
            p.path is None,
            p.target is None,
    {
        Pane { active: false, command: None, path: None, target: None }
    }
}

/// The fields a pane may be written with in a configuration map.
#[derive(Debug)]
pub struct PaneInner {
    pub active: Option<bool>,
    pub command: Option<String>,
    pub path: Option<String>,
}

/// A pane as a configuration writes it: a bare command string, or a map.
#[derive(Debug)]
pub enum PaneRepr {
    Str(String),
    Fields(PaneInner),
}

impl PaneRepr {
    /// The pane this configuration form describes.
    pub open spec fn to_view(self) -> PaneView {
        match self {
            PaneRepr::Str(cmd) => PaneView { active: false, command: Some(cmd@), path: None, target: None },
            PaneRepr::Fields(inner) => PaneView {
                active: inner.active == Some(true),
                command: inner.command.deep_view(),
                path: inner.path.deep_view(),
                target: None,
            },
        }
    }
}

impl Pane {
    /// Reads a pane from its configuration form.
    /// A string is the pane's command; a map gives the fields, and a pane
    /// is inactive unless the map says otherwise. The target is set later.
    pub fn from_repr(repr: PaneRepr) -> (p: Pane)
        ensures
            p.deep_view() == repr.to_view(),
    {
        match repr {
            PaneRepr::Str(cmd) => Pane { active: false, command: Some(cmd), path: None, target: None },
            PaneRepr::Fields(inner) => {
                let active = match inner.active {
                    Some(a) => a,
                    None => false,
                };
                Pane { active, command: inner.command, path: inner.path, target: None }
            },
        }
    }
}

/// Reads every pane of a list, keeping their order.
pub fn panes_from_reprs(reprs: Vec<PaneRepr>) -> (panes: Vec<Pane>)
    ensures
        panes.len() == reprs.len(),
        forall|i: int| 0 <= i < panes.len() ==> (#[trigger] panes@[i]).deep_view() == reprs@[i].to_view(),
{
    let ghost orig = reprs@;
    let mut rest = reprs;
    let mut panes: Vec<Pane> = Vec::new();
    while rest.len() > 0
        invariant
            panes.len() + rest.len() == orig.len(),
            rest@ == orig.subrange(panes.len() as int, orig.len() as int),
            forall|i: int| 0 <= i < panes.len() ==> (#[trigger] panes@[i]).deep_view() == orig[i].to_view(),
        decreases rest.len(),
    {
        let r = rest.remove(0);
        panes.push(Pane::from_repr(r));
    }
    panes
}

} // verus!
