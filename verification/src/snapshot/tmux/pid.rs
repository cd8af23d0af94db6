//! The process id of a pane's shell, as tmux prints it.

use vstd::prelude::*;
use crate::text::i32_of;
use crate::text::parse_i32;

verus! {

#[derive(Debug, Clone)]
pub struct Pid {
    pub pid: i32,
    pub pid_str: String,
}

impl Pid {
    /// The id written in `pid`, which must be a decimal `i32`.
    pub fn new(pid: String) -> (p: Pid)
        requires
            i32_of(pid@) is Some,
        ensures
            i32_of(pid@) == Some(p.pid),
            p.pid_str@ == pid@,
    {
        let n = match parse_i32(pid.as_str()) {
            Some(n) => n,
            None => 0,
        };
        Pid { pid: n, pid_str: pid }
    }
}

} // verus!
