//! A window of a session: its name, layout, panes, and what runs in it.

use vstd::prelude::*;
use crate::text::{clone_opt_string, i64_to_string, signed_decimal, str_eq};
use crate::tmux::pane::{Pane, PaneRepr, PaneView, panes_from_reprs};
use crate::tmux::target::{Target, TargetView, clone_opt_target};

verus! {

#[derive(Debug)]
pub struct Window {
    pub active: bool,
    pub command: Option<String>,
    pub layout: Option<String>,
    pub name: String,
    pub panes: Vec<Pane>,
    pub path: Option<String>,
    pub target: Option<Target>,
}

/// What a window says, as plain values.
pub struct WindowView {
    pub active: bool,
    pub command: Option<Seq<char>>,
    pub layout: Option<Seq<char>>,
    pub name: Seq<char>,
    pub panes: Seq<PaneView>,
    pub path: Option<Seq<char>>,
    pub target: Option<TargetView>,
}

impl DeepView for Window {
    type V = WindowView;

    open spec fn deep_view(&self) -> WindowView {
        WindowView {
            active: self.active,
            command: self.command.deep_view(),
            layout: self.layout.deep_view(),
            name: self.name@,
            panes: self.panes.deep_view(),
            path: self.path.deep_view(),
            target: self.target.deep_view(),
        }
    }
}

/// Clones the panes of a window, keeping each of them.
pub fn clone_panes(v: &Vec<Pane>) -> (r: Vec<Pane>)
    ensures
        r.deep_view() == v.deep_view(),
{
    let mut r: Vec<Pane> = Vec::new();
    let mut i: usize = 0;
    while i < v.len()
        invariant
            i <= v.len(),
            r.len() == i,
            forall|k: int| 0 <= k < i ==> (#[trigger] r@[k]).deep_view() == v@[k].deep_view(),
        decreases v.len() - i,
    {
        r.push(v[i].clone());
        i = i + 1;
    }
    assert(r.deep_view() =~= v.deep_view());
    r
}

impl Clone for Window {
    fn clone(&self) -> (w: Window)
        ensures
            w.deep_view() == self.deep_view(),
    {
        Window {
            active: self.active,
            command: clone_opt_string(&self.command),
            layout: clone_opt_string(&self.layout),
            name: self.name.clone(),
            panes: clone_panes(&self.panes),
            path: clone_opt_string(&self.path),
            target: clone_opt_target(&self.target),
        }
    }
}

impl Default for Window {
    fn default() -> (w: Window)
        ensures
            !w.active,
            w.command is None,
            w.layout is None,
            w.name@ == Seq::<char>::empty(),
            w.panes@ == Seq::<Pane>::empty(),
            w.path is None,
            w.target is None,
    {
        Window {
            active: false,
            command: None,
            layout: None,
            name: String::new(),
            panes: Vec::new(),
            path: None,
            target: None,
        }
    }
}

/// The fields a window may be given under its name.
#[derive(Debug)]
pub struct Inner {
    pub layout: Option<String>,
    pub panes: Option<Vec<PaneRepr>>,
    pub active: Option<bool>,
    pub path: Option<String>,
    pub command: Option<String>,
}

/// What follows a window's name: a command string or the window's fields.
#[derive(Debug)]
pub enum InnerOrString {
    Str(String),
    Inner(Inner),
}

/// A window written with its name as one of its fields.
#[derive(Debug)]
pub struct DirectWindow {
    pub name: String,
    pub layout: Option<String>,
    pub panes: Option<Vec<PaneRepr>>,
    pub active: Option<bool>,
    pub path: Option<String>,
    pub command: Option<String>,
}

/// A window as a configuration writes it.
#[derive(Debug)]
pub enum WindowRepr {
    /// `windows: ['vim']`: the name, which is also the command.
    Str(String),
    /// `windows: [1]`: the name only.
    Num(i64),
    /// `- name: editor` with the other fields beside it.
    Direct(DirectWindow),
    /// `- editor: ...`: the entries of a map from the name to a command or to the fields.
    Keyed(Vec<(String, InnerOrString)>),
}

/// Why a configuration entry is not a window.
#[derive(Debug, PartialEq, Eq, Structural, Clone, Copy)]
pub enum WindowReprError {
    /// The map has more or fewer than one key.
    NotSingleKey,
    /// The map's one key is empty (or the null `~`).
    EmptyName,
}

impl WindowReprError {
    /// The message a configuration reader reports.
    pub fn message(&self) -> (s: String)
        ensures
            s@ == match self {
                WindowReprError::NotSingleKey => "each windows entry must be a single-key map"@,
                WindowReprError::EmptyName => "window name cannot be empty"@,
            },
    {
        match self {
            WindowReprError::NotSingleKey => String::from_str("each windows entry must be a single-key map"),
            WindowReprError::EmptyName => String::from_str("window name cannot be empty"),
        }
    }
}

/// The panes an optional list of pane forms describes (none when absent).
pub open spec fn panes_view(panes: Option<Vec<PaneRepr>>) -> Seq<PaneView> {
    match panes {
        Some(v) => Seq::new(v@.len(), |i: int| v@[i].to_view()),
        None => Seq::empty(),
    }
}

/// The window a configuration entry describes, or why it describes none.
pub open spec fn window_of_repr(repr: WindowRepr) -> Result<WindowView, WindowReprError> {
    match repr {
        WindowRepr::Str(name) => Ok(WindowView {
            active: false,
            command: Some(name@),
            layout: None,
            name: name@,
            panes: Seq::empty(),
            path: None,
            target: None,
        }),
        WindowRepr::Num(n) => Ok(WindowView {
            active: false,
            command: None,
            layout: None,
            name: signed_decimal(n as int),
            panes: Seq::empty(),
            path: None,
            target: None,
        }),
        WindowRepr::Direct(d) => Ok(WindowView {
            active: d.active == Some(true),
            command: d.command.deep_view(),
            layout: d.layout.deep_view(),
            name: d.name@,
            panes: panes_view(d.panes),
            path: d.path.deep_view(),
            target: None,
        }),
        WindowRepr::Keyed(entries) => {
            if entries@.len() != 1 {
                Err(WindowReprError::NotSingleKey)
            } else if entries@[0].0@.len() == 0 || entries@[0].0@ == seq!['~'] {
                Err(WindowReprError::EmptyName)
            } else {
                match entries@[0].1 {
                    InnerOrString::Str(cmd) => Ok(WindowView {
                        active: false,
                        command: Some(cmd@),
                        layout: None,
                        name: entries@[0].0@,
                        panes: Seq::empty(),
                        path: None,
                        target: None,
                    }),
                    InnerOrString::Inner(inner) => Ok(WindowView {
                        active: inner.active == Some(true),
                        command: inner.command.deep_view(),
                        layout: inner.layout.deep_view(),
                        name: entries@[0].0@,
                        panes: panes_view(inner.panes),
                        path: inner.path.deep_view(),
                        target: None,
                    }),
                }
            }
        },
    }
}

fn panes_from_opt(panes: Option<Vec<PaneRepr>>) -> (r: Vec<Pane>)
    ensures
        r.deep_view() == panes_view(panes),
{
    match panes {
        Some(v) => {
            let ghost vs = v@;
            let r = panes_from_reprs(v);
            assert(r.deep_view() =~= Seq::new(vs.len(), |i: int| vs[i].to_view()));
            r
        },
        None => {
            let r: Vec<Pane> = Vec::new();
            assert(r.deep_view() =~= Seq::<PaneView>::empty());
            r
        },
    }
}

fn unwrap_active(a: Option<bool>) -> (r: bool)
    ensures
        r == (a == Some(true)),
{
    match a {
        Some(b) => b,
        None => false,
    }
}

impl Window {
    pub fn name(&self) -> (s: &String)
        ensures
            s@ == self.name@,
    {
        &self.name
    }

    /// Reads a window from its configuration form. A string is both the name
    /// and the command; a number is the name; a map must have exactly one
    /// key, which is the name and may be neither empty nor `~`, and its value
    /// is the command or the window's fields. The target is set later.
    pub fn from_repr(repr: WindowRepr) -> (r: Result<Window, WindowReprError>)
        ensures
            match (r, window_of_repr(repr)) {
                (Ok(w), Ok(v)) => w.deep_view() == v,
                (Err(e), Err(f)) => e == f,
                _ => false,
            },
    {
        let ghost orig = repr;
        match repr {
            WindowRepr::Str(name) => {
                let w = Window {
                    active: false,
                    command: Some(name.clone()),
                    layout: None,
                    name,
                    panes: Vec::new(),
                    path: None,
                    target: None,
                };
                assert(w.panes.deep_view() =~= Seq::<PaneView>::empty());
                Ok(w)
            },
            WindowRepr::Num(n) => {
                let w = Window {
                    active: false,
                    command: None,
                    layout: None,
                    name: i64_to_string(n),
                    panes: Vec::new(),
                    path: None,
                    target: None,
                };
                assert(w.panes.deep_view() =~= Seq::<PaneView>::empty());
                Ok(w)
            },
            WindowRepr::Direct(d) => {
                Ok(Window {
                    active: unwrap_active(d.active),
                    command: d.command,
                    layout: d.layout,
                    name: d.name,
                    panes: panes_from_opt(d.panes),
                    path: d.path,
                    target: None,
                })
            },
            WindowRepr::Keyed(entries) => {
                if entries.len() != 1 {
                    return Err(WindowReprError::NotSingleKey);
                }
                let ghost first = entries@[0];
                let mut entries = entries;
                let (name, ios) = entries.remove(0);
                assert(name == first.0 && ios == first.1);
                proof { reveal_strlit("~"); }
                assert("~"@ =~= seq!['~']);
                if name.as_str().unicode_len() == 0 || str_eq(name.as_str(), "~") {
                    return Err(WindowReprError::EmptyName);
                }
                match ios {
                    InnerOrString::Str(cmd) => {
                        let w = Window {
                            active: false,
                            command: Some(cmd),
                            layout: None,
                            name,
                            panes: Vec::new(),
                            path: None,
                            target: None,
                        };
                        assert(w.panes.deep_view() =~= Seq::<PaneView>::empty());
                        Ok(w)
                    },
                    InnerOrString::Inner(inner) => {
                        Ok(Window {
                            name,
                            active: unwrap_active(inner.active),
                            command: inner.command,
                            layout: inner.layout,
                            panes: panes_from_opt(inner.panes),
                            path: inner.path,
                            target: None,
                        })
                    },
                }
            },
        }
    }
}

} // verus!
