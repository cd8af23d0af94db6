//! Listing the projects of a project directory.

use vstd::prelude::*;
use crate::paths::{join_path, join_spec};
use crate::project_paths::CONFIG_EXTENSION;
use crate::text::{join_by, join_strings, str_eq};
use crate::tmux::target::CommonError;

verus! {

/// Listing fails when the paths cannot be found or the directory not read.
#[derive(Debug)]
pub enum ListError {
    Common(CommonError),
    Io(String),
}

impl ListError {
    /// The message reported for the error.
    pub fn message(&self) -> (s: String)
        ensures
            s@ == match self {
                ListError::Common(e) => e.message_spec(),
                ListError::Io(m) => m@,
            },
    {
        match self {
            ListError::Common(e) => e.message(),
            ListError::Io(m) => m.clone(),
        }
    }
}

/// `a` comes before `b` in the order of their characters.
pub open spec fn text_lt(a: Seq<char>, b: Seq<char>) -> bool
    decreases a.len(),
{
    if a.len() == 0 {
        b.len() > 0
    } else if b.len() == 0 {
        false
    } else if a[0] != b[0] {
        a[0] < b[0]
    } else {
        text_lt(a.drop_first(), b.drop_first())
    }
}

/// `a` comes before `b` or is `b`.
pub open spec fn text_le(a: Seq<char>, b: Seq<char>) -> bool {
    a == b || text_lt(a, b)
}

/// Each text comes before or is the next one.
pub open spec fn sorted(s: Seq<Seq<char>>) -> bool {
    forall|i: int| 0 <= i < s.len() - 1 ==> text_le(#[trigger] s[i], s[i + 1])
}

/// Of two texts, one comes before the other unless they are the same.
pub proof fn lemma_text_total(a: Seq<char>, b: Seq<char>)
    ensures
        text_le(a, b) || text_lt(b, a),
    decreases a.len(),
{
    if a.len() > 0 && b.len() > 0 && a[0] == b[0] {
        lemma_text_total(a.drop_first(), b.drop_first());
        if a.drop_first() == b.drop_first() {
            assert(a =~= seq![a[0]] + a.drop_first());
            assert(b =~= seq![b[0]] + b.drop_first());
        }
    } else if a.len() == 0 && b.len() == 0 {
        assert(a =~= b);
    }
}

/// Whether `a` comes before `b`.
pub fn str_lt(a: &str, b: &str) -> (r: bool)
    ensures
        r == text_lt(a@, b@),
{
    let n = a.unicode_len();
    let m = b.unicode_len();
    let mut i: usize = 0;
    assert(a@.skip(0) =~= a@);
    assert(b@.skip(0) =~= b@);
    while i < n && i < m
        invariant
            n == a@.len(),
            m == b@.len(),
            i <= n,
            i <= m,
            a@.subrange(0, i as int) == b@.subrange(0, i as int),
            text_lt(a@, b@) == text_lt(a@.skip(i as int), b@.skip(i as int)),
        decreases n - i,
    {
        let x = a.get_char(i);
        let y = b.get_char(i);
        assert(a@.skip(i as int)[0] == x);
        assert(b@.skip(i as int)[0] == y);
        if x != y {
            return x < y;
        }
        assert(a@.skip(i as int).drop_first() =~= a@.skip(i + 1));
        assert(b@.skip(i as int).drop_first() =~= b@.skip(i + 1));
        assert(a@.subrange(0, i + 1) =~= a@.subrange(0, i as int).push(x));
        assert(b@.subrange(0, i + 1) =~= b@.subrange(0, i as int).push(y));
        i = i + 1;
    }
    assert(a@.skip(i as int).len() == n - i);
    assert(b@.skip(i as int).len() == m - i);
    i == n && i < m
}

/// Sorts texts in the order of their characters.
pub fn sort_strings(v: &Vec<String>) -> (r: Vec<String>)
    ensures
        sorted(r.deep_view()),
        r.deep_view().to_multiset() == v.deep_view().to_multiset(),
{
    broadcast use vstd::seq_lib::to_multiset_insert;
    let mut out: Vec<String> = Vec::new();
    let mut i: usize = 0;
    assert(v.deep_view().take(0) =~= Seq::<Seq<char>>::empty());
    assert(out.deep_view() =~= Seq::<Seq<char>>::empty());
    while i < v.len()
        invariant
            i <= v.len(),
            sorted(out.deep_view()),
            out.deep_view().to_multiset() == v.deep_view().take(i as int).to_multiset(),
        decreases v.len() - i,
    {
        let x = v[i].clone();
        let mut p: usize = 0;
        while p < out.len() && !str_lt(x.as_str(), out[p].as_str())
            invariant
                p <= out.len(),
                forall|k: int| 0 <= k < p ==> !text_lt(x@, #[trigger] out@[k]@),
            decreases out.len() - p,
        {
            p = p + 1;
        }
        let ghost old_out = out.deep_view();
        proof {
            if p > 0 {
                lemma_text_total(old_out[p - 1], x@);
                assert(!text_lt(x@, old_out[p - 1]));
            }
        }
        out.insert(p, x);
        proof {
            assert(out.deep_view() =~= old_out.insert(p as int, v@[i as int]@));
            assert(v.deep_view().take(i + 1) =~= v.deep_view().take(i as int).push(v@[i as int]@));
            vstd::seq_lib::to_multiset_build(v.deep_view().take(i as int), v@[i as int]@);
            vstd::seq_lib::to_multiset_insert(old_out, p as int, v@[i as int]@);
            assert(x@ == v@[i as int]@);
            let nv = out.deep_view();
            assert forall|k: int| 0 <= k < nv.len() - 1 implies text_le(#[trigger] nv[k], nv[k + 1]) by {
                if k + 1 < p {
                    assert(nv[k] == old_out[k] && nv[k + 1] == old_out[k + 1]);
                } else if k + 1 == p {
                    assert(nv[k] == old_out[k]);
                } else if k == p {
                    if p < old_out.len() {
                        assert(text_lt(x@, old_out[p as int]));
                    }
                } else {
                    assert(nv[k] == old_out[k - 1] && nv[k + 1] == old_out[k]);
                }
            }
        }
        i = i + 1;
    }
    assert(v.deep_view().take(v.len() as int) =~= v.deep_view());
    out
}


/// Where the last `.` of a name stands, or -1 when it has none.
pub open spec fn last_dot(name: Seq<char>) -> int
    decreases name.len(),
{
    if name.len() == 0 {
        -1
    } else if name.last() == '.' {
        name.len() - 1
    } else {
        last_dot(name.drop_last())
    }
}

/// The stem of a file name whose extension is `ext`, as `Path::file_stem` and
/// `Path::extension` read the names a directory lists (no `/`, neither `.`
/// nor `..`): the extension follows the last `.`, unless that `.` begins the
/// name.
pub open spec fn stem_with_ext(name: Seq<char>, ext: Seq<char>) -> Option<Seq<char>> {
    let i = last_dot(name);
    if i > 0 && name.skip(i + 1) == ext {
        Some(name.take(i))
    } else {
        None
    }
}

/// The projects among a directory's entries: the stems of the `yml` files,
/// leaving out the template file, in the order listed.
pub open spec fn projects_in(dir: Seq<char>, entries: Seq<Seq<char>>, template_file: Seq<char>) -> Seq<Seq<char>>
    decreases entries.len(),
{
    if entries.len() == 0 {
        Seq::empty()
    } else {
        let e = entries.last();
        projects_in(dir, entries.drop_last(), template_file) + if join_spec(dir, e) == template_file {
            Seq::empty()
        } else {
            match stem_with_ext(e, CONFIG_EXTENSION@) {
                Some(stem) => seq![stem],
                None => Seq::empty(),
            }
        }
    }
}

/// The stem of a file name with the extension `ext`.
fn stem_of(name: &str, ext: &str) -> (r: Option<String>)
    ensures
        r.deep_view() == stem_with_ext(name@, ext@),
{
    let n = name.unicode_len();
    let mut i: usize = n;
    assert(name@.take(n as int) =~= name@);
    while i > 0 && name.get_char(i - 1) != '.'
        invariant
            n == name@.len(),
            i <= n,
            last_dot(name@) == last_dot(name@.take(i as int)),
        decreases i,
    {
        assert(name@.take(i as int).drop_last() =~= name@.take(i - 1));
        i = i - 1;
    }
    if i <= 1 {
        proof {
            if i == 1 {
                assert(name@.take(1).last() == '.');
            } else {
                assert(name@.take(0).len() == 0);
            }
        }
        return None;
    }
    assert(name@.take(i as int).last() == '.');
    let dot = i - 1;
    let rest = name.substring_char(dot + 1, n);
    assert(rest@ =~= name@.skip(dot + 1));
    if str_eq(rest, ext) {
        let stem = name.substring_char(0, dot);
        assert(stem@ =~= name@.take(dot as int));
        Some(String::from_str(stem))
    } else {
        None
    }
}

/// The projects of a directory from its entries, sorted: the stems of its
/// `yml` files other than the template.
pub fn list_projects(dir: &str, entries: &Vec<String>, template_file: &str) -> (r: Vec<String>)
    ensures
        sorted(r.deep_view()),
        r.deep_view().to_multiset() == projects_in(dir@, entries.deep_view(), template_file@).to_multiset(),
{
    let mut found: Vec<String> = Vec::new();
    let mut i: usize = 0;
    while i < entries.len()
        invariant
            i <= entries.len(),
            found.deep_view() == projects_in(dir@, entries.deep_view().take(i as int), template_file@),
        decreases entries.len() - i,
    {
        assert(entries.deep_view().take(i + 1).drop_last() =~= entries.deep_view().take(i as int));
        assert(entries.deep_view().take(i + 1).last() == entries@[i as int]@);
        let ghost before = found.deep_view();
        let full = join_path(dir, entries[i].as_str());
        if str_eq(full.as_str(), template_file) {
            assert(found.deep_view() =~= before + Seq::<Seq<char>>::empty());
        } else {
            match stem_of(entries[i].as_str(), CONFIG_EXTENSION) {
                Some(stem) => {
                    found.push(stem);
                    assert(found.deep_view() =~= before + seq![stem@]);
                },
                None => {
                    assert(found.deep_view() =~= before + Seq::<Seq<char>>::empty());
                },
            }
        }
        i = i + 1;
    }
    assert(entries.deep_view().take(entries.len() as int) =~= entries.deep_view());
    sort_strings(&found)
}

/// What the listing prints: one project per line when asked to, or when the
/// output is no terminal; else the projects separated by two tabs.
pub fn list_output(projects: &Vec<String>, one_per_line: bool, to_terminal: bool) -> (s: String)
    ensures
        s@ == join_by(projects.deep_view(), if one_per_line || !to_terminal { "\n"@ } else { "\t\t"@ }),
{
    let sep: &str = if one_per_line || !to_terminal { "\n" } else { "\t\t" };
    join_strings(projects, sep)
}


impl From<CommonError> for ListError {
    fn from(err: CommonError) -> (r: ListError) {
        ListError::Common(err)
    }
}

impl vstd::std_specs::convert::FromSpecImpl<CommonError> for ListError {
    open spec fn obeys_from_spec() -> bool {
        true
    }

    open spec fn from_spec(err: CommonError) -> ListError {
        ListError::Common(err)
    }
}

} // verus!
