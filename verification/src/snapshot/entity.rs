//! One line of tmux's listing of a session: a window or a pane.

use vstd::prelude::*;
use crate::snapshot::error::SnapshotError;
use crate::snapshot::process::{ProcessTable, foreground_command};
use crate::tmux::pane::{Pane, PaneView};
use crate::tmux::target::Target;
use crate::tmux::window::{Window, WindowView};
use crate::load::enrichment::target_view;

verus! {

/// tmux reports flags as numbers: zero is false, anything else is true.
pub fn bool_from_int(v: u8) -> (b: bool)
    ensures
        b == (v != 0),
{
    v != 0
}

/// A window or a pane as tmux lists it.
#[derive(Debug)]
pub enum Entity {
    Window {
        session: String,
        index: usize,
        name: String,
        active: bool,
        layout: String,
    },
    Pane {
        session: String,
        window_index: usize,
        index: usize,
        active: bool,
        path: String,
        pid: usize,
    },
}

impl Entity {
    /// The window's index, or the pane's index within its window.
    pub fn index(&self) -> (i: usize)
        ensures
            i == match self {
                Entity::Window { index, .. } => *index,
                Entity::Pane { index, .. } => *index,
            },
    {
        match self {
            Entity::Window { index, .. } => *index,
            Entity::Pane { index, .. } => *index,
        }
    }
}

/// The window a listed window stands for: its flags, name and layout, with no
/// panes yet and no path, targeted at its index in its session.
pub open spec fn window_of_entity(e: Entity) -> Result<WindowView, SnapshotError> {
    match e {
        Entity::Window { session, index, name, active, layout } => Ok(WindowView {
            active: active,
            command: None,
            layout: Some(layout@),
            name: name@,
            panes: Seq::empty(),
            path: None,
            target: Some(target_view(session@, Some(index), None)),
        }),
        Entity::Pane { .. } => Err(SnapshotError::ToWindowFailed),
    }
}

/// The pane a listed pane stands for: its flag and path, the command in its
/// foreground, targeted at its place in its window.
pub open spec fn pane_of_entity(e: Entity, procs: ProcessTable) -> Result<PaneView, SnapshotError> {
    match e {
        Entity::Pane { session, window_index, index, active, path, pid } => Ok(PaneView {
            active: active,
            command: foreground_command(procs.processes@, pid),
            path: Some(path@),
            target: Some(target_view(session@, Some(window_index), Some(index))),
        }),
        Entity::Window { .. } => Err(SnapshotError::ToWindowFailed),
    }
}

impl Window {
    /// The window a listed window stands for; a listed pane is no window.
    pub fn from_entity(entity: &Entity) -> (r: Result<Window, SnapshotError>)
        ensures
            match (r, window_of_entity(*entity)) {
                (Ok(w), Ok(v)) => w.deep_view() == v,
                (Err(e), Err(f)) => e == f,
                _ => false,
            },
    {
        match entity {
            Entity::Window { session, index, name, active, layout } => {
                let w = Window {
                    active: *active,
                    command: None,
                    layout: Some(layout.clone()),
                    name: name.clone(),
                    panes: Vec::new(),
                    path: None,
                    target: Some(Target::new(session.as_str(), Some(*index), None)),
                };
                assert(w.panes.deep_view() =~= Seq::<PaneView>::empty());
                Ok(w)
            },
            Entity::Pane { .. } => Err(SnapshotError::ToWindowFailed),
        }
    }
}

impl Pane {
    /// The pane a listed pane stands for, with the command found running in its
    /// foreground among `procs`; a listed window is no pane.
    pub fn from_entity(entity: &Entity, procs: &ProcessTable) -> (r: Result<Pane, SnapshotError>)
        ensures
            match (r, pane_of_entity(*entity, *procs)) {
                (Ok(p), Ok(v)) => p.deep_view() == v,
                (Err(e), Err(f)) => e == f,
                _ => false,
            },
    {
        match entity {
            Entity::Pane { session, window_index, index, active, path, pid } => {
                Ok(Pane {
                    active: *active,
                    command: procs.foreground_command(*pid),
                    path: Some(path.clone()),
                    target: Some(Target::new(session.as_str(), Some(*window_index), Some(*index))),
                })
            },
            Entity::Window { .. } => Err(SnapshotError::ToWindowFailed),
        }
    }
}

} // verus!
