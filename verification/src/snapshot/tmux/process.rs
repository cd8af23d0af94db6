//! The command running in a pane, as `pgrep -lf` reports it.

use vstd::prelude::*;
use crate::snapshot::process::{join_words, join_with_spaces};
use crate::text::{lines_of, lines_spec, split_words, words_spec};

verus! {

#[derive(Debug, Clone)]
pub struct Process {
    pub process: String,
}

/// A `pgrep -l` line without the process id in front: its other words,
/// joined by single spaces.
pub open spec fn strip_pid_spec(line: Seq<char>) -> Seq<char> {
    let words = words_spec(line);
    if words.len() == 0 { Seq::empty() } else { join_words(words.drop_first()) }
}

/// What a pane runs, read from `pgrep`'s output: the first line without its
/// process id; an error when `pgrep` printed nothing.
pub open spec fn process_string_spec(output: Seq<char>) -> Result<Seq<char>, Seq<char>> {
    let lines = lines_spec(output);
    if lines.len() == 0 {
        Err("No process found"@)
    } else {
        Ok(strip_pid_spec(lines[0]))
    }
}

impl Process {
    pub fn new(process: String) -> (p: Process)
        ensures
            p.process@ == process@,
    {
        Process { process }
    }

    /// Drops the process id in front of a `pgrep -l` line.
    pub fn strip_pid(line: &str) -> (r: String)
        ensures
            r@ == strip_pid_spec(line@),
    {
        let words = split_words(line);
        let mut rest: Vec<String> = Vec::new();
        let mut i: usize = 1;
        while i < words.len()
            invariant
                1 <= i <= words.len() || words.len() == 0,
                words.len() == 0 ==> rest.len() == 0,
                words.len() > 0 ==> rest.deep_view() == words.deep_view().subrange(1, i as int),
            decreases words.len() - i,
        {
            let ghost before = rest.deep_view();
            rest.push(words[i].clone());
            assert(rest.deep_view() =~= before.push(words@[i as int]@));
            assert(words.deep_view().subrange(1, i + 1) =~= words.deep_view().subrange(1, i as int).push(words@[i as int]@));
            i = i + 1;
        }
        if words.len() > 0 {
            assert(words.deep_view().subrange(1, words.len() as int) =~= words.deep_view().drop_first());
        } else {
            assert(rest.deep_view() =~= Seq::<Seq<char>>::empty());
        }
        join_with_spaces(&rest)
    }

    /// The command that `pgrep -lf -P <pid>` printed first, without its id.
    pub fn process_string_from_output(output: &str) -> (r: Result<String, String>)
        ensures
            match (r, process_string_spec(output@)) {
                (Ok(a), Ok(b)) => a@ == b,
                (Err(a), Err(b)) => a@ == b,
                _ => false,
            },
    {
        let lines = lines_of(output);
        if lines.len() == 0 {
            Err(String::from_str("No process found"))
        } else {
            Ok(Process::strip_pid(lines[0].as_str()))
        }
    }
}

} // verus!
