//! A window as tmux's `list-windows` shows it.

use vstd::prelude::*;
use crate::snapshot::capture::{regex_first_capture, retrieve_capture};
use crate::snapshot::tmux::pane::Pane;

verus! {

/// The window's name: the word after the index, before any flag.
pub const NAME_REGEX: &'static str = r":\s(\w*)[$\*-]?\s+\(";
/// A star marks the active window.
pub const ACTIVE_REGEX: &'static str = r"\s.*(\*)\s";
/// The layout string after `layout`.
pub const LAYOUT_REGEX: &'static str = r"\s\[layout\s(.*)\]";

/// The format that makes tmux list windows as the regexes above expect, as in
/// `2: vim* (1 panes) [layout b5be,173x42,0,0,1]`.
pub const LIST_FORMAT: &'static str = "'#{window_index}: #{window_name}#{?window_active,*, } (#{window_panes} panes) [layout #{window_layout}]'";

#[derive(Debug)]
pub struct Window {
    pub active: bool,
    pub layout: String,
    pub name: String,
    pub panes: Vec<Pane>,
}

/// What a window is saved with under its name.
#[derive(Debug)]
pub struct WindowInner {
    pub active: bool,
    pub layout: String,
    pub panes: Vec<Pane>,
}

impl Window {
    pub fn new(active: bool, layout: String, name: String, panes: Vec<Pane>) -> (w: Window)
        ensures
            w.active == active,
            w.layout@ == layout@,
            w.name@ == name@,
            w.panes@ == panes@,
    {
        Window { active, layout, name, panes }
    }

    /// The window `w` with the panes `panes` in place of its own.
    pub fn from_window(panes: Vec<Pane>, w: Window) -> (r: Window)
        ensures
            r.active == w.active,
            r.layout@ == w.layout@,
            r.name@ == w.name@,
            r.panes@ == panes@,
    {
        Window::new(w.active, w.layout, w.name, panes)
    }

    /// The window that a line's captures describe: it needs a layout and a
    /// name, and it is active when the active mark was captured.
    pub fn from_captures(active: Option<String>, layout: Option<String>, name: Option<String>) -> (r: Option<Window>)
        ensures
            match r {
                Some(w) => {
                    &&& w.active == active is Some
                    &&& layout.deep_view() == Some(w.layout@)
                    &&& name.deep_view() == Some(w.name@)
                    &&& w.panes@.len() == 0
                },
                None => layout is None || name is None,
            },
    {
        let layout = match layout {
            Some(x) => x,
            None => return None,
        };
        let name = match name {
            Some(x) => x,
            None => return None,
        };
        Some(Window::new(active.is_some(), layout, name, Vec::new()))
    }

    /// Reads a line of tmux's window listing; a line without a layout or a
    /// name gives no window.
    pub fn from_line(line: &str) -> (r: Option<Window>)
        ensures
            match r {
                Some(w) => {
                    &&& w.active == regex_first_capture(ACTIVE_REGEX@, line@) is Some
                    &&& regex_first_capture(LAYOUT_REGEX@, line@) == Some(w.layout@)
                    &&& regex_first_capture(NAME_REGEX@, line@) == Some(w.name@)
                    &&& w.panes@.len() == 0
                },
                None => regex_first_capture(LAYOUT_REGEX@, line@) is None
                    || regex_first_capture(NAME_REGEX@, line@) is None,
            },
    {
        let active = retrieve_capture(line, ACTIVE_REGEX);
        let layout = retrieve_capture(line, LAYOUT_REGEX);
        let name = retrieve_capture(line, NAME_REGEX);
        Window::from_captures(active, layout, name)
    }
}

} // verus!
