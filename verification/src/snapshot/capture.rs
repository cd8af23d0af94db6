//! The first group that a regular expression captures in a line.

use vstd::prelude::*;

verus! {

/// What the `regex` crate captures in its first group when `pattern` is
/// matched against `line`; nothing when the pattern does not match, when the
/// group takes no part in the match, or when the pattern is not valid.
pub uninterp spec fn regex_first_capture(pattern: Seq<char>, line: Seq<char>) -> Option<Seq<char>>;

/// Compiles `pattern` with `regex::Regex::new` and returns the text of the
/// first capture group of the leftmost match in `line`, from
/// `Regex::captures` and `Captures::get(1)`. The contract only names that
/// result; a pattern the crate refuses gives nothing here.
#[verifier::external_body]
pub fn retrieve_capture(line: &str, pattern: &str) -> (r: Option<String>)
    ensures
        r.deep_view() == regex_first_capture(pattern@, line@),
{
    let reg = regex::Regex::new(pattern).ok()?;
    let caps = reg.captures(line)?;
    match caps.get(1) {
        Some(m) => Some(m.as_str().to_string()),
        None => None,
    }
}

} // verus!
