//! Shell completion: which shell the user runs, and how its start-up file
//! comes to load the completion script.

use vstd::prelude::*;
use crate::text::{is_whitespace, char_is_whitespace, str_eq};

verus! {

/// The shells muxed can complete for.
#[derive(Debug, PartialEq, Eq, Structural, Clone, Copy)]
pub enum Shell {
    Bash,
    Zsh,
    Fish,
}

/// The last `/`-separated part of a path.
pub open spec fn last_segment(path: Seq<char>) -> Seq<char>
    decreases path.len(),
{
    if path.len() == 0 {
        Seq::empty()
    } else if path.last() == '/' {
        Seq::empty()
    } else {
        last_segment(path.drop_last()).push(path.last())
    }
}

/// The name of the shell that `$SHELL` runs: its path's last part.
pub fn shell_name(shell_path: &str) -> (r: String)
    ensures
        r@ == last_segment(shell_path@),
{
    let n = shell_path.unicode_len();
    let mut start: usize = n;
    while start > 0 && shell_path.get_char(start - 1) != '/'
        invariant
            n == shell_path@.len(),
            start <= n,
            forall|k: int| start <= k < n ==> shell_path@[k] != '/',
        decreases start,
    {
        start = start - 1;
    }
    let r = String::from_str(shell_path.substring_char(start, n));
    proof {
        lemma_last_segment(shell_path@, start as int);
    }
    r
}

proof fn lemma_last_segment(path: Seq<char>, start: int)
    requires
        0 <= start <= path.len(),
        start == 0 || path[start - 1] == '/',
        forall|k: int| start <= k < path.len() ==> path[k] != '/',
    ensures
        last_segment(path) == path.subrange(start, path.len() as int),
    decreases path.len(),
{
    if path.len() > start {
        lemma_last_segment(path.drop_last(), start);
        assert(path.subrange(start, path.len() as int) =~= path.drop_last().subrange(start, path.len() - 1).push(path.last()));
    } else if path.len() > 0 {
        assert(path.last() == '/');
    }
}

/// The shell of that name, when muxed supports it.
pub open spec fn shell_of_name_spec(name: Seq<char>) -> Option<Shell> {
    if name == "bash"@ {
        Some(Shell::Bash)
    } else if name == "zsh"@ {
        Some(Shell::Zsh)
    } else if name == "fish"@ {
        Some(Shell::Fish)
    } else {
        None
    }
}

/// The supported shell of that name; nothing for any other shell.
pub fn shell_of_name(name: &str) -> (r: Option<Shell>)
    ensures
        r == shell_of_name_spec(name@),
{
    if str_eq(name, "bash") {
        Some(Shell::Bash)
    } else if str_eq(name, "zsh") {
        Some(Shell::Zsh)
    } else if str_eq(name, "fish") {
        Some(Shell::Fish)
    } else {
        None
    }
}

/// The line that makes bash load the completion file.
pub open spec fn source_line_spec(completion_file: Seq<char>) -> Seq<char> {
    "source "@ + completion_file + "\n"@
}

/// The line that makes bash load the completion file.
pub fn source_line(completion_file: &str) -> (r: String)
    ensures
        r@ == source_line_spec(completion_file@),
{
    let mut r = String::from_str("source ");
    r.append(completion_file);
    r.append("\n");
    r
}

/// Leading white space dropped.
pub open spec fn trim_start(s: Seq<char>) -> Seq<char>
    decreases s.len(),
{
    if s.len() > 0 && is_whitespace(s[0]) { trim_start(s.drop_first()) } else { s }
}

/// Trailing white space dropped.
pub open spec fn trim_end(s: Seq<char>) -> Seq<char>
    decreases s.len(),
{
    if s.len() > 0 && is_whitespace(s.last()) { trim_end(s.drop_last()) } else { s }
}

/// White space dropped at both ends, as `str::trim` does.
pub open spec fn trim(s: Seq<char>) -> Seq<char> {
    trim_end(trim_start(s))
}

/// `pat` occurs somewhere in `s`.
pub open spec fn contains_text(s: Seq<char>, pat: Seq<char>) -> bool {
    exists|i: int| 0 <= i <= s.len() - pat.len() && #[trigger] s.subrange(i, i + pat.len()) == pat
}

/// The part of `s` between `a` and `b`, without the white space at its ends.
fn trim_range(s: &str, a: usize, b: usize) -> (r: String)
    requires
        a <= b <= s@.len(),
    ensures
        r@ == trim(s@.subrange(a as int, b as int)),
{
    let mut i = a;
    while i < b && char_is_whitespace(s.get_char(i))
        invariant
            a <= i <= b <= s@.len(),
            trim_start(s@.subrange(a as int, b as int)) == trim_start(s@.subrange(i as int, b as int)),
        decreases b - i,
    {
        assert(s@.subrange(i as int, b as int).drop_first() =~= s@.subrange(i + 1, b as int));
        i = i + 1;
    }
    let mut j = b;
    while j > i && char_is_whitespace(s.get_char(j - 1))
        invariant
            i <= j <= b <= s@.len(),
            trim_end(s@.subrange(i as int, b as int)) == trim_end(s@.subrange(i as int, j as int)),
        decreases j,
    {
        assert(s@.subrange(i as int, j as int).drop_last() =~= s@.subrange(i as int, j - 1));
        j = j - 1;
    }
    let r = String::from_str(s.substring_char(i, j));
    proof {
        let t = s@.subrange(i as int, b as int);
        if i < b {
            assert(t[0] == s@[i as int]);
        }
        assert(trim_start(t) == t);
        let u = s@.subrange(i as int, j as int);
        if j > i {
            assert(u.last() == s@[j - 1]);
        }
        assert(trim_end(u) == u);
    }
    r
}

/// Whether `pat` occurs in `s`.
fn contains_str(s: &str, pat: &str) -> (r: bool)
    ensures
        r == contains_text(s@, pat@),
{
    let n = s.unicode_len();
    let m = pat.unicode_len();
    if m > n {
        return false;
    }
    if m == 0 {
        assert(s@.subrange(0int, 0int + pat@.len()) =~= pat@);
        return true;
    }
    let mut i: usize = 0;
    while i <= n - m
        invariant
            n == s@.len(),
            m == pat@.len(),
            0 < m <= n,
            i <= n - m + 1,
            forall|k: int| 0 <= k < i ==> #[trigger] s@.subrange(k, k + m) != pat@,
        decreases n - m + 1 - i,
    {
        if str_eq(s.substring_char(i, i + m), pat) {
            return true;
        }
        i = i + 1;
    }
    false
}

/// Whether bash's start-up file still lacks the line that loads the
/// completion file: its text does not contain that line, trimmed.
pub fn needs_source_line(bashrc: &str, line: &str) -> (r: bool)
    ensures
        r == !contains_text(bashrc@, trim(line@)),
{
    let n = line.unicode_len();
    assert(line@.subrange(0, n as int) =~= line@);
    let t = trim_range(line, 0, n);
    !contains_str(bashrc, t.as_str())
}

} // verus!
