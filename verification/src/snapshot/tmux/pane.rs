//! A pane as tmux's `list-panes` shows it.

use vstd::prelude::*;
use crate::snapshot::capture::{regex_first_capture, retrieve_capture};
use crate::snapshot::tmux::pid::Pid;
use crate::snapshot::tmux::process::{Process, process_string_spec};
use crate::text::{i32_of, parse_i32};

verus! {

/// `(active)` marks the active pane.
pub const ACTIVE_REGEX: &'static str = r"\s(\(active\))";
/// The pane's working directory.
pub const PATH_REGEX: &'static str = r"\(Path: (.*)\) \(PID";
/// The id of the pane's shell.
pub const PID_REGEX: &'static str = r"\(PID: ([0-9]*)\)";

/// The format that makes tmux list panes as the regexes above expect, as in
/// `1: [123x14] (Path: /muxed/muxedsnapshot) (PID: 22541) (active)`.
pub const LIST_FORMAT: &'static str = "'#{pane_index}: [#{pane_width}x#{pane_height}] (Path: #{pane_current_path}) (PID: #{pane_pid}) #{?pane_active,(active), } '";

#[derive(Debug, Clone)]
pub struct Pane {
    pub active: bool,
    pub path: String,
    pub process: Option<Process>,
}

/// The command a pane runs, from what `pgrep` printed for its shell; nothing
/// when `pgrep` could not be run or found no process.
pub open spec fn process_of_output(output: Option<Seq<char>>) -> Option<Seq<char>> {
    match output {
        Some(o) => match process_string_spec(o) {
            Ok(p) => Some(p),
            Err(_) => None,
        },
        None => None,
    }
}

/// A line with a path and a process id must carry an id that reads as an `i32`.
pub open spec fn pid_readable(path: Option<Seq<char>>, pid: Option<Seq<char>>) -> bool {
    path is Some && pid is Some ==> i32_of(pid->0) is Some
}

/// The same requirement, of a listing line.
pub open spec fn line_pid_readable(line: Seq<char>) -> bool {
    pid_readable(regex_first_capture(PATH_REGEX@, line), regex_first_capture(PID_REGEX@, line))
}

/// The command text a pane's process holds, if any.
pub open spec fn process_text(p: Option<Process>) -> Option<Seq<char>> {
    match p {
        Some(x) => Some(x.process@),
        None => None,
    }
}

/// The process a pane runs, read from `pgrep`'s output.
fn process_from_output(output: &Option<String>) -> (r: Option<Process>)
    ensures
        process_text(r) == process_of_output(output.deep_view()),
{
    match output {
        Some(o) => match Process::process_string_from_output(o.as_str()) {
            Ok(p) => Some(Process::new(p)),
            Err(_) => None,
        },
        None => None,
    }
}

impl Pane {
    pub fn new(active: bool, path: String, process: Option<Process>) -> (p: Pane)
        ensures
            p.active == active,
            p.path@ == path@,
            process_text(p.process) == process_text(process),
    {
        Pane { active, path, process }
    }

    /// The pane that a line's captures describe: it needs a path and a process
    /// id (one that reads as an `i32`: the shell's id is parsed), is active when the active mark was captured, and runs what `pgrep`
    /// printed for that id (`process_output`, or nothing when `pgrep` failed).
    pub fn from_captures(
        active: Option<String>,
        path: Option<String>,
        pid: Option<String>,
        process_output: Option<String>,
    ) -> (r: Option<Pane>)
        requires
            pid_readable(path.deep_view(), pid.deep_view()),
        ensures
            match r {
                Some(p) => {
                    &&& p.active == active is Some
                    &&& path.deep_view() == Some(p.path@)
                    &&& pid is Some
                    &&& process_text(p.process) == process_of_output(process_output.deep_view())
                },
                None => path is None || pid is None,
            },
    {
        let path = match path {
            Some(x) => x,
            None => return None,
        };
        if pid.is_none() {
            return None;
        }
        let process = process_from_output(&process_output);
        Some(Pane::new(active.is_some(), path, process))
    }

    /// Reads a line of tmux's pane listing, with what `pgrep` printed for the
    /// pane's shell; a line without a path or a process id gives no pane.
    pub fn from_line(line: &str, process_output: Option<String>) -> (r: Option<Pane>)
        requires
            line_pid_readable(line@),
        ensures
            match r {
                Some(p) => {
                    &&& p.active == regex_first_capture(ACTIVE_REGEX@, line@) is Some
                    &&& regex_first_capture(PATH_REGEX@, line@) == Some(p.path@)
                    &&& regex_first_capture(PID_REGEX@, line@) is Some
                    &&& process_text(p.process) == process_of_output(process_output.deep_view())
                },
                None => regex_first_capture(PATH_REGEX@, line@) is None
                    || regex_first_capture(PID_REGEX@, line@) is None,
            },
    {
        let active = retrieve_capture(line, ACTIVE_REGEX);
        let path = retrieve_capture(line, PATH_REGEX);
        let pid = retrieve_capture(line, PID_REGEX);
        Pane::from_captures(active, path, pid, process_output)
    }

    /// Reads a line as `from_line` does, but gives no pane where the line's
    /// process id does not read as an `i32`.
    pub fn read_line(line: &str, process_output: Option<String>) -> (r: Option<Pane>)
        ensures
            !line_pid_readable(line@) ==> r is None,
            line_pid_readable(line@) ==> match r {
                Some(p) => {
                    &&& p.active == regex_first_capture(ACTIVE_REGEX@, line@) is Some
                    &&& regex_first_capture(PATH_REGEX@, line@) == Some(p.path@)
                    &&& regex_first_capture(PID_REGEX@, line@) is Some
                    &&& process_text(p.process) == process_of_output(process_output.deep_view())
                },
                None => regex_first_capture(PATH_REGEX@, line@) is None
                    || regex_first_capture(PID_REGEX@, line@) is None,
            },
    {
        let path = retrieve_capture(line, PATH_REGEX);
        let pid = retrieve_capture(line, PID_REGEX);
        let readable = match (&path, &pid) {
            (Some(_), Some(p)) => parse_i32(p.as_str()).is_some(),
            _ => true,
        };
        if readable {
            Pane::from_line(line, process_output)
        } else {
            None
        }
    }

    /// The id of the shell of the pane a line describes, for asking `pgrep`
    /// what it runs; nothing when the line gives no pane or no readable id.
    pub fn pid_of_line(line: &str) -> (r: Option<Pid>)
        ensures
            match r {
                Some(p) => regex_first_capture(PATH_REGEX@, line@) is Some
                    && regex_first_capture(PID_REGEX@, line@) == Some(p.pid_str@)
                    && i32_of(p.pid_str@) == Some(p.pid),
                None => !(regex_first_capture(PATH_REGEX@, line@) is Some
                    && regex_first_capture(PID_REGEX@, line@) is Some
                    && i32_of(regex_first_capture(PID_REGEX@, line@)->0) is Some),
            },
    {
        let path = retrieve_capture(line, PATH_REGEX);
        let pid = retrieve_capture(line, PID_REGEX);
        match (path, pid) {
            (Some(_), Some(p)) => {
                if parse_i32(p.as_str()).is_some() {
                    Some(Pid::new(p))
                } else {
                    None
                }
            },
            _ => None,
        }
    }
}

} // verus!
