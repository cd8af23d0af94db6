//! Reading a session from tmux's human-readable listings of windows and panes.
//!
//! Reading a session takes one listing of its windows, then one listing of
//! the panes of each window, and `pgrep` for the shell of each pane. The
//! caller runs those commands; `Inspection` decides what to ask next and what
//! the answers make of the session.

pub mod pane;
pub mod pid;
pub mod process;
pub mod session;
pub mod window;

use vstd::prelude::*;
use crate::snapshot::capture::regex_first_capture;
use crate::snapshot::tmux::pane::Pane;
use crate::snapshot::tmux::session::Session;
use crate::snapshot::tmux::window::{ACTIVE_REGEX, LAYOUT_REGEX, NAME_REGEX, Window};
use crate::text::{lines_of, lines_spec};

verus! {

/// The message given when the session has no windows to read.
pub open spec fn not_found(name: Seq<char>) -> Seq<char> {
    "\u{1F613} The session "@ + name + " was not found."@
}

/// What a line of the window listing says: whether the window is active, its
/// layout and its name; nothing for a line without a layout or a name.
pub open spec fn window_of_line(line: Seq<char>) -> Option<(bool, Seq<char>, Seq<char>)> {
    match (regex_first_capture(LAYOUT_REGEX@, line), regex_first_capture(NAME_REGEX@, line)) {
        (Some(l), Some(n)) => Some((regex_first_capture(ACTIVE_REGEX@, line) is Some, l, n)),
        _ => None,
    }
}

/// The windows that the lines of a listing describe, in order.
pub open spec fn windows_of_lines(lines: Seq<Seq<char>>) -> Seq<(bool, Seq<char>, Seq<char>)>
    decreases lines.len(),
{
    if lines.len() == 0 {
        Seq::empty()
    } else {
        windows_of_lines(lines.drop_last()) + match window_of_line(lines.last()) {
            Some(w) => seq![w],
            None => Seq::empty(),
        }
    }
}

/// What a window of this listing says, as plain values.
pub open spec fn window_fields(w: Window) -> (bool, Seq<char>, Seq<char>) {
    (w.active, w.layout@, w.name@)
}

/// A session being read: the windows still waiting for their panes, and
/// those that have them.
pub struct Inspection {
    pub name: String,
    pub pending: Vec<Window>,
    pub done: Vec<Window>,
}

/// The windows that the lines of a listing describe.
fn windows_from_lines(lines: &Vec<String>) -> (r: Vec<Window>)
    ensures
        r@.map_values(|w: Window| window_fields(w)) == windows_of_lines(lines.deep_view()),
        forall|i: int| 0 <= i < r@.len() ==> (#[trigger] r@[i]).panes@.len() == 0,
{
    let mut r: Vec<Window> = Vec::new();
    let mut i: usize = 0;
    while i < lines.len()
        invariant
            i <= lines.len(),
            r@.map_values(|w: Window| window_fields(w)) == windows_of_lines(lines.deep_view().take(i as int)),
            forall|k: int| 0 <= k < r@.len() ==> (#[trigger] r@[k]).panes@.len() == 0,
        decreases lines.len() - i,
    {
        assert(lines.deep_view().take(i + 1).drop_last() =~= lines.deep_view().take(i as int));
        assert(lines.deep_view().take(i + 1).last() == lines@[i as int]@);
        let ghost before = r@;
        match Window::from_line(lines[i].as_str()) {
            Some(w) => {
                r.push(w);
                assert(r@.map_values(|w: Window| window_fields(w)) =~= before.map_values(|w: Window| window_fields(w)).push(window_fields(r@[before.len() as int])));
            },
            None => {
                assert(r@.map_values(|w: Window| window_fields(w)) =~= before.map_values(|w: Window| window_fields(w)) + Seq::empty());
            },
        }
        i = i + 1;
    }
    assert(lines.deep_view().take(lines.len() as int) =~= lines.deep_view());
    r
}

/// Starts reading the session `name` from the output of `tmux list-windows`
/// (or the error that running it gave): an error when the listing failed or
/// shows no window.
pub fn inspect(name: &str, window_listing: Result<String, String>) -> (r: Result<Inspection, String>)
    ensures
        match window_listing {
            Err(e) => r matches Err(m) && m@ == not_found(name@) + " - "@ + e@,
            Ok(out) => {
                let ws = windows_of_lines(lines_spec(out@));
                if ws.len() == 0 {
                    r matches Err(m) && m@ == not_found(name@)
                } else {
                    r matches Ok(insp) && {
                        &&& insp.name@ == name@
                        &&& insp.pending@.map_values(|w: Window| window_fields(w)) == ws
                        &&& forall|i: int| 0 <= i < insp.pending@.len() ==> (#[trigger] insp.pending@[i]).panes@.len() == 0
                        &&& insp.done@.len() == 0
                    }
                }
            },
        },
{
    let mut err = String::from_str("\u{1F613} The session ");
    err.append(name);
    err.append(" was not found.");
    match window_listing {
        Err(e) => {
            err.append(" - ");
            err.append(e.as_str());
            Err(err)
        },
        Ok(out) => {
            let lines = lines_of(out.as_str());
            let windows = windows_from_lines(&lines);
            if windows.len() == 0 {
                Err(err)
            } else {
                Ok(Inspection { name: String::from_str(name), pending: windows, done: Vec::new() })
            }
        },
    }
}


/// What a line of the pane listing gives, with what `pgrep` printed for its
/// shell: the pane `Pane::read_line` reads.
pub open spec fn pane_of_line(line: Seq<char>, output: Option<Seq<char>>, p: Option<Pane>) -> bool {
    &&& !crate::snapshot::tmux::pane::line_pid_readable(line) ==> p is None
    &&& crate::snapshot::tmux::pane::line_pid_readable(line) ==> match p {
        Some(q) => {
            &&& q.active == regex_first_capture(crate::snapshot::tmux::pane::ACTIVE_REGEX@, line) is Some
            &&& regex_first_capture(crate::snapshot::tmux::pane::PATH_REGEX@, line) == Some(q.path@)
            &&& regex_first_capture(crate::snapshot::tmux::pane::PID_REGEX@, line) is Some
            &&& crate::snapshot::tmux::pane::process_text(q.process) == crate::snapshot::tmux::pane::process_of_output(output)
        },
        None => regex_first_capture(crate::snapshot::tmux::pane::PATH_REGEX@, line) is None
            || regex_first_capture(crate::snapshot::tmux::pane::PID_REGEX@, line) is None,
    }
}

impl Inspection {
    /// The target whose panes to list next, `session:window`; nothing once
    /// every window has its panes.
    pub fn next_pane_target(&self) -> (r: Option<String>)
        ensures
            match r {
                Some(t) => self.pending@.len() > 0 && t@ == self.name@ + ":"@ + self.pending@[0].name@,
                None => self.pending@.len() == 0,
            },
    {
        if self.pending.len() == 0 {
            None
        } else {
            let mut t = self.name.clone();
            t.append(":");
            t.append(self.pending[0].name.as_str());
            Some(t)
        }
    }

    /// Gives the next window the panes its listing shows. Each line comes with
    /// what `pgrep` printed for its pane's shell, or nothing; lines that give
    /// no pane are passed over.
    pub fn add_panes(&mut self, lines: &Vec<String>, outputs: &Vec<Option<String>>)
        requires
            old(self).pending@.len() > 0,
            lines.len() == outputs.len(),
        ensures
            final(self).name@ == old(self).name@,
            final(self).pending@ == old(self).pending@.drop_first(),
            final(self).done@.len() == old(self).done@.len() + 1,
            final(self).done@.drop_last() == old(self).done@,
            window_fields(final(self).done@.last()) == window_fields(old(self).pending@[0]),
            exists|sel: Seq<Option<Pane>>| {
                &&& sel.len() == lines.len()
                &&& forall|i: int| 0 <= i < lines.len() ==> pane_of_line(#[trigger] lines@[i]@, outputs@[i].deep_view(), sel[i])
                &&& final(self).done@.last().panes@ == chosen(sel)
            },
    {
        let mut panes: Vec<Pane> = Vec::new();
        let ghost mut sel: Seq<Option<Pane>> = Seq::empty();
        let mut i: usize = 0;
        while i < lines.len()
            invariant
                i <= lines.len(),
                lines.len() == outputs.len(),
                sel.len() == i,
                forall|k: int| 0 <= k < i ==> pane_of_line(#[trigger] lines@[k]@, outputs@[k].deep_view(), sel[k]),
                panes@ == chosen(sel),
            decreases lines.len() - i,
        {
            let out = match &outputs[i] {
                Some(o) => Some(o.clone()),
                None => None,
            };
            let p = Pane::read_line(lines[i].as_str(), out);
            let ghost old_sel = sel;
            proof {
                sel = sel.push(p);
                assert(sel.drop_last() =~= old_sel);
            }
            match p {
                Some(q) => {
                    panes.push(q);
                },
                None => {
                    assert(panes@ =~= chosen(old_sel) + Seq::empty());
                },
            }
            i = i + 1;
        }
        let w = self.pending.remove(0);
        self.done.push(Window::from_window(panes, w));
    }

    /// The session read, once every window has its panes.
    pub fn finish(self) -> (s: Session)
        requires
            self.pending@.len() == 0,
        ensures
            s.name@ == self.name@,
            s.windows@ == self.done@,
    {
        Session::new(self.name, self.done)
    }
}

/// The panes that the chosen readings give, in order.
pub open spec fn chosen(sel: Seq<Option<Pane>>) -> Seq<Pane>
    decreases sel.len(),
{
    if sel.len() == 0 {
        Seq::empty()
    } else {
        chosen(sel.drop_last()) + match sel.last() {
            Some(p) => seq![p],
            None => Seq::empty(),
        }
    }
}

} // verus!
