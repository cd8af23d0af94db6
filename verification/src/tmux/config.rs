//! The tmux options that decide how windows and panes are numbered.

use vstd::prelude::*;
use crate::text::{lines_of, lines_spec, parse_usize, split_words, str_eq, usize_of, words_spec};

verus! {

/// `base-index` and `pane-base-index`: the numbers of the first window and the first pane.
#[derive(Debug, PartialEq, Eq, Structural, Clone, Copy)]
pub struct Config {
    pub base_index: usize,
    pub pane_base_index: usize,
}

impl Default for Config {
    fn default() -> (c: Config)
        ensures
            c.base_index == 0,
            c.pane_base_index == 0,
    {
        Config { base_index: 0, pane_base_index: 0 }
    }
}

/// The value a line of `tmux show-options` gives the option `key`: the line
/// names the option first and a number second.
pub open spec fn line_value(line: Seq<char>, key: Seq<char>) -> Option<usize> {
    let w = words_spec(line);
    if w.len() >= 2 && w[0] == key { usize_of(w[1]) } else { None }
}

/// The value the last line that sets the option `key` gives it.
pub open spec fn option_value(lines: Seq<Seq<char>>, key: Seq<char>) -> Option<usize>
    decreases lines.len(),
{
    if lines.len() == 0 {
        None
    } else {
        match line_value(lines.last(), key) {
            Some(v) => Some(v),
            None => option_value(lines.drop_last(), key),
        }
    }
}

/// The value of an option, or 0 when the output does not set it.
pub open spec fn option_or_zero(text: Seq<char>, key: Seq<char>) -> usize {
    match option_value(lines_spec(text), key) {
        Some(v) => v,
        None => 0,
    }
}

fn line_value_exec(line: &str, key: &str) -> (r: Option<usize>)
    ensures
        r == line_value(line@, key@),
{
    let w = split_words(line);
    if w.len() >= 2 && str_eq(w[0].as_str(), key) {
        parse_usize(w[1].as_str())
    } else {
        None
    }
}

fn option_value_exec(lines: &Vec<String>, key: &str) -> (r: Option<usize>)
    ensures
        r == option_value(lines.deep_view(), key@),
{
    let mut r: Option<usize> = None;
    let mut i: usize = 0;
    while i < lines.len()
        invariant
            i <= lines.len(),
            r == option_value(lines.deep_view().take(i as int), key@),
        decreases lines.len() - i,
    {
        assert(lines.deep_view().take(i + 1).drop_last() =~= lines.deep_view().take(i as int));
        assert(lines.deep_view().take(i + 1).last() == lines@[i as int]@);
        match line_value_exec(lines[i].as_str(), key) {
            Some(v) => {
                r = Some(v);
            },
            None => {},
        }
        i = i + 1;
    }
    assert(lines.deep_view().take(lines.len() as int) =~= lines.deep_view());
    r
}

impl Config {
    /// The numbering that the output of `tmux show-options -g` (and `-g -w`)
    /// sets: `base-index` and `pane-base-index`, each 0 unless set.
    pub fn from_string(text: String) -> (c: Config)
        ensures
            c.base_index == option_or_zero(text@, "base-index"@),
            c.pane_base_index == option_or_zero(text@, "pane-base-index"@),
    {
        let lines = lines_of(text.as_str());
        let base = match option_value_exec(&lines, "base-index") {
            Some(v) => v,
            None => 0,
        };
        let pane = match option_value_exec(&lines, "pane-base-index") {
            Some(v) => v,
            None => 0,
        };
        Config { base_index: base, pane_base_index: pane }
    }
}

} // verus!
