//! Paths as text: joining, extensions, and `~` expansion against a home directory.

use vstd::prelude::*;

verus! {

/// Appends one path component, adding a `/` unless the base is empty or already ends in one
/// (as `PathBuf::push` does for a relative component).
pub open spec fn push_component(base: Seq<char>, c: Seq<char>) -> Seq<char> {
    if base.len() == 0 || base.last() == '/' {
        base + c
    } else {
        base + seq!['/'] + c
    }
}

/// Appends a finished segment unless it is empty or `.`, which a path's components skip.
pub open spec fn flush_segment(acc: Seq<char>, seg: Seq<char>) -> Seq<char> {
    if seg.len() == 0 || seg == seq!['.'] {
        acc
    } else {
        push_component(acc, seg)
    }
}

/// Appends to `acc` the components of `seg` followed by `rest`, one by one.
pub open spec fn push_components(acc: Seq<char>, seg: Seq<char>, rest: Seq<char>) -> Seq<char>
    decreases rest.len(),
{
    if rest.len() == 0 {
        flush_segment(acc, seg)
    } else if rest[0] == '/' {
        push_components(flush_segment(acc, seg), Seq::empty(), rest.drop_first())
    } else {
        push_components(acc, seg.push(rest[0]), rest.drop_first())
    }
}

/// The path begins with the component `~`.
pub open spec fn starts_with_tilde(path: Seq<char>) -> bool {
    path.len() >= 1 && path[0] == '~' && (path.len() == 1 || path[1] == '/')
}

/// A path whose first component is `~` has it replaced by the home directory,
/// followed by the path's other components; with no home directory there is no
/// path. Any other path is kept as it is.
pub open spec fn expand_path_spec(path: Seq<char>, home: Option<Seq<char>>) -> Option<Seq<char>> {
    if starts_with_tilde(path) {
        match home {
            Some(h) => Some(push_components(h, Seq::empty(), path.skip(1))),
            None => None,
        }
    } else {
        Some(path)
    }
}

fn push_component_exec(base: &mut String, c: &str)
    ensures
        final(base)@ == push_component(old(base)@, c@),
{
    let n = base.as_str().unicode_len();
    proof { reveal_strlit("/"); }
    if n == 0 || base.as_str().get_char(n - 1) == '/' {
        base.append(c);
    } else {
        base.append("/");
        base.append(c);
        assert(base@ =~= old(base)@ + seq!['/'] + c@);
    }
}

fn flush_segment_exec(acc: &mut String, seg: &str)
    ensures
        final(acc)@ == flush_segment(old(acc)@, seg@),
{
    let n = seg.unicode_len();
    if n == 0 || (n == 1 && seg.get_char(0) == '.') {
        assert(n == 1 ==> seg@ =~= seq!['.'] || seg@[0] != '.');
    } else {
        assert(seg@ != seq!['.']);
        push_component_exec(acc, seg);
    }
}

/// Expands a leading `~` component to `home`; any other path stays as it is.
pub fn expand_path_with(path: &str, home: &Option<String>) -> (r: Option<String>)
    ensures
        r.deep_view() == expand_path_spec(path@, home.deep_view()),
{
    let n = path.unicode_len();
    let tilde = n >= 1 && path.get_char(0) == '~' && (n == 1 || path.get_char(1) == '/');
    if !tilde {
        return Some(String::from_str(path));
    }
    let h = match home {
        Some(h) => h,
        None => return None,
    };
    let mut acc = h.clone();
    let mut seg_start: usize = 1;
    let mut i: usize = 1;
    while i < n
        invariant
            n == path@.len(),
            1 <= seg_start <= i <= n,
            forall|k: int| seg_start <= k < i ==> path@[k] != '/',
            push_components(acc@, path@.subrange(seg_start as int, i as int), path@.skip(i as int))
                == push_components(h@, Seq::empty(), path@.skip(1)),
        decreases n - i,
    {
        let ghost seg = path@.subrange(seg_start as int, i as int);
        assert(path@.skip(i as int).drop_first() =~= path@.skip(i + 1));
        if path.get_char(i) == '/' {
            let s = path.substring_char(seg_start, i);
            flush_segment_exec(&mut acc, s);
            assert(path@.subrange((i + 1) as int, (i + 1) as int) =~= Seq::<char>::empty());
            seg_start = i + 1;
        } else {
            assert(path@.subrange(seg_start as int, (i + 1) as int) =~= seg.push(path@[i as int]));
        }
        i = i + 1;
    }
    let s = path.substring_char(seg_start, n);
    flush_segment_exec(&mut acc, s);
    assert(path@.skip(n as int) =~= Seq::<char>::empty());
    Some(acc)
}

/// The user's home directory, as `dirs::home_dir` finds it: `$HOME` when set and
/// not empty, else the password database. No home directory, or one that is not
/// valid Unicode, gives `None`. Nothing is stated of the value: it comes from the
/// environment.
#[verifier::external_body]
pub fn homedir() -> (r: Option<String>)
{
    match dirs::home_dir() {
        Some(p) => match p.to_str() {
            Some(s) => Some(s.to_string()),
            None => None,
        },
        None => None,
    }
}

/// Expands a leading `~` component to the user's home directory; any other
/// path stays as it is. With no home directory a `~` path expands to nothing.
pub fn expand_path(path: &str) -> (r: Option<String>)
    ensures
        !starts_with_tilde(path@) ==> r.deep_view() == Some(path@),
        starts_with_tilde(path@) ==> exists|home: Option<Seq<char>>| r.deep_view() == #[trigger] expand_path_spec(path@, home),
{
    let home = homedir();
    expand_path_with(path, &home)
}


/// `base` joined with `path`, as `Path::join` does on Unix: an absolute path
/// replaces the base, a relative one is appended after a `/`.
pub open spec fn join_spec(base: Seq<char>, path: Seq<char>) -> Seq<char> {
    if path.len() > 0 && path[0] == '/' {
        path
    } else {
        push_component(base, path)
    }
}

/// Joins `path` onto `base`.
pub fn join_path(base: &str, path: &str) -> (r: String)
    ensures
        r@ == join_spec(base@, path@),
{
    if path.unicode_len() > 0 && path.get_char(0) == '/' {
        String::from_str(path)
    } else {
        let mut r = String::from_str(base);
        push_component_exec(&mut r, path);
        r
    }
}

/// What `Path::with_extension` gives for a path and an extension: the path
/// whose file name has its extension replaced (or added, or removed for an
/// empty one); the path itself when it has no file name.
pub uninterp spec fn path_with_extension(path: Seq<char>, ext: Seq<char>) -> Seq<char>;

/// Whether an extension holds no path separator, which `Path::with_extension`
/// refuses by panicking.
pub open spec fn separator_free(ext: Seq<char>) -> bool {
    !ext.contains('/') && !ext.contains('\\')
}

/// `std::path::Path::with_extension` on a path given as text; the result is
/// text again. Its contract names the result and states nothing more of it;
/// an extension with a path separator, on which the call panics, is not taken.
#[verifier::external_body]
pub(crate) fn with_extension(path: &str, ext: &str) -> (r: String)
    requires
        separator_free(ext@),
    ensures
        r@ == path_with_extension(path@, ext@),
{
    std::path::Path::new(path).with_extension(ext).to_string_lossy().into_owned()
}

} // verus!
