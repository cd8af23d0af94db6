//! Text helpers with exact specifications: decimal rendering, equality,
//! substring search and replacement over character sequences.

use vstd::prelude::*;

verus! {

/// The decimal digit character for `d < 10`.
pub open spec fn digit_char(d: nat) -> char {
    if d == 0 { '0' } else if d == 1 { '1' } else if d == 2 { '2' } else if d == 3 { '3' }
    else if d == 4 { '4' } else if d == 5 { '5' } else if d == 6 { '6' } else if d == 7 { '7' }
    else if d == 8 { '8' } else { '9' }
}

/// The decimal rendering of a natural number, most significant digit first,
/// with no leading zeros (as `to_string` renders unsigned integers).
pub open spec fn decimal(n: nat) -> Seq<char>
    decreases n,
{
    if n < 10 {
        seq![digit_char(n)]
    } else {
        decimal(n / 10).push(digit_char(n % 10))
    }
}

/// A one-character string holding the digit `d`.
fn digit_str(d: usize) -> (s: &'static str)
    requires
        d < 10,
    ensures
        s@ == seq![digit_char(d as nat)],
{
    proof {
        reveal_strlit("0");
        reveal_strlit("1");
        reveal_strlit("2");
        reveal_strlit("3");
        reveal_strlit("4");
        reveal_strlit("5");
        reveal_strlit("6");
        reveal_strlit("7");
        reveal_strlit("8");
        reveal_strlit("9");
    }
    if d == 0 { "0" } else if d == 1 { "1" } else if d == 2 { "2" } else if d == 3 { "3" }
    else if d == 4 { "4" } else if d == 5 { "5" } else if d == 6 { "6" } else if d == 7 { "7" }
    else if d == 8 { "8" } else { "9" }
}

/// Renders `n` in decimal.
pub fn u64_to_string(n: u64) -> (s: String)
    ensures
        s@ == decimal(n as nat),
    decreases n,
{
    if n < 10 {
        String::from_str(digit_str(n as usize))
    } else {
        let mut s = u64_to_string(n / 10);
        s.append(digit_str((n % 10) as usize));
        s
    }
}

/// Renders `n` in decimal.
pub fn usize_to_string(n: usize) -> (s: String)
    ensures
        s@ == decimal(n as nat),
{
    u64_to_string(n as u64)
}

/// The decimal rendering of an integer, with a leading `-` when it is negative.
pub open spec fn signed_decimal(n: int) -> Seq<char> {
    if n < 0 { seq!['-'] + decimal((-n) as nat) } else { decimal(n as nat) }
}

/// Renders `n` in decimal, as `i64::to_string` does.
pub fn i64_to_string(n: i64) -> (s: String)
    ensures
        s@ == signed_decimal(n as int),
{
    if n < 0 {
        let magnitude: u64 = (-(n as i128)) as u64;
        proof { reveal_strlit("-"); }
        let mut s = String::from_str("-");
        let digits = u64_to_string(magnitude);
        s.append(digits.as_str());
        s
    } else {
        u64_to_string(n as u64)
    }
}

/// `a` and `b` hold the same characters.
pub fn str_eq(a: &str, b: &str) -> (r: bool)
    ensures
        r == (a@ == b@),
{
    let n = a.unicode_len();
    let m = b.unicode_len();
    if n != m {
        return false;
    }
    let mut i: usize = 0;
    while i < n
        invariant
            n == a@.len(),
            m == b@.len(),
            n == m,
            i <= n,
            forall|k: int| 0 <= k < i ==> a@[k] == b@[k],
        decreases n - i,
    {
        if a.get_char(i) != b.get_char(i) {
            return false;
        }
        i = i + 1;
    }
    assert(a@ =~= b@);
    true
}

/// Clones an optional string, keeping its characters.
pub fn clone_opt_string(o: &Option<String>) -> (r: Option<String>)
    ensures
        r.deep_view() == o.deep_view(),
{
    match o {
        Some(s) => Some(s.clone()),
        None => None,
    }
}

/// Clones a vector of strings, keeping every element.
pub fn clone_strings(v: &Vec<String>) -> (r: Vec<String>)
    ensures
        r.deep_view() == v.deep_view(),
{
    let mut r: Vec<String> = Vec::new();
    let mut i: usize = 0;
    while i < v.len()
        invariant
            i <= v.len(),
            r.len() == i,
            forall|k: int| 0 <= k < i ==> r@[k]@ == v@[k]@,
        decreases v.len() - i,
    {
        r.push(v[i].clone());
        i = i + 1;
    }
    assert(r.deep_view() =~= v.deep_view());
    r
}


/// A line without the carriage return of a `\r\n` ending.
pub open spec fn strip_cr(line: Seq<char>) -> Seq<char> {
    if line.len() > 0 && line.last() == '\r' {
        line.drop_last()
    } else {
        line
    }
}

/// The lines of `rest`, the first of which begins with `cur`: lines end at a
/// `\n` (or `\r\n`), and the last one needs no ending.
pub open spec fn lines_from(rest: Seq<char>, cur: Seq<char>) -> Seq<Seq<char>>
    decreases rest.len(),
{
    if rest.len() == 0 {
        if cur.len() == 0 {
            Seq::empty()
        } else {
            seq![cur]
        }
    } else if rest[0] == '\n' {
        seq![strip_cr(cur)] + lines_from(rest.drop_first(), Seq::empty())
    } else {
        lines_from(rest.drop_first(), cur.push(rest[0]))
    }
}

/// The lines of a text, as `str::lines` gives them.
pub open spec fn lines_spec(s: Seq<char>) -> Seq<Seq<char>> {
    lines_from(s, Seq::empty())
}

/// The lines of a text, without their endings.
pub fn lines_of(text: &str) -> (r: Vec<String>)
    ensures
        r.deep_view() == lines_spec(text@),
{
    let n = text.unicode_len();
    let ghost s = text@;
    let mut r: Vec<String> = Vec::new();
    let mut start: usize = 0;
    let mut i: usize = 0;
    assert(s.skip(0) =~= s);
    assert(s.subrange(0, 0) =~= Seq::<char>::empty());
    assert(r.deep_view() + lines_from(s, Seq::empty()) =~= lines_spec(s));
    while i < n
        invariant
            n == s.len(),
            s == text@,
            start <= i <= n,
            r.deep_view() + lines_from(s.skip(i as int), s.subrange(start as int, i as int)) == lines_spec(s),
        decreases n - i,
    {
        let ghost before = r.deep_view();
        assert(s.skip(i as int)[0] == s[i as int]);
        assert(s.skip(i as int).drop_first() =~= s.skip(i + 1));
        if text.get_char(i) == '\n' {
            let mut end = i;
            if end > start && text.get_char(end - 1) == '\r' {
                end = end - 1;
            }
            let line = String::from_str(text.substring_char(start, end));
            assert(line@ =~= strip_cr(s.subrange(start as int, i as int)));
            r.push(line);
            assert(r.deep_view() =~= before.push(line@));
            assert(s.subrange(i + 1, i + 1) =~= Seq::<char>::empty());
            assert(r.deep_view() + lines_from(s.skip(i + 1), s.subrange(i + 1, i + 1)) =~= lines_spec(s));
            start = i + 1;
        } else {
            assert(s.subrange(start as int, i as int).push(s[i as int]) =~= s.subrange(start as int, i + 1));
        }
        i = i + 1;
    }
    assert(s.skip(n as int) =~= Seq::<char>::empty());
    if start < n {
        let line = String::from_str(text.substring_char(start, n));
        let ghost before = r.deep_view();
        r.push(line);
        assert(r.deep_view() =~= before.push(line@));
        assert(r.deep_view() =~= lines_spec(s));
    } else {
        assert(s.subrange(start as int, n as int) =~= Seq::<char>::empty());
        assert(r.deep_view() =~= lines_spec(s));
    }
    r
}


/// `c` is an ASCII decimal digit.
pub open spec fn is_digit(c: char) -> bool {
    '0' <= c && c <= '9'
}

/// Every character of `s` is an ASCII decimal digit.
pub open spec fn all_digits(s: Seq<char>) -> bool {
    forall|i: int| 0 <= i < s.len() ==> is_digit(#[trigger] s[i])
}

/// The number that a string of decimal digits writes.
pub open spec fn digits_value(s: Seq<char>) -> nat
    decreases s.len(),
{
    if s.len() == 0 {
        0
    } else {
        digits_value(s.drop_last()) * 10 + ((s.last() as int) - ('0' as int)) as nat
    }
}

/// What `i32::from_str` gives: an optional sign, then one digit or more,
/// within the range of `i32`.
pub open spec fn i32_of(s: Seq<char>) -> Option<i32> {
    let neg = s.len() > 0 && s[0] == '-';
    let d = if s.len() > 0 && (s[0] == '-' || s[0] == '+') { s.drop_first() } else { s };
    if d.len() == 0 || !all_digits(d) {
        None
    } else if neg {
        if digits_value(d) <= 0x8000_0000 { Some((0 - digits_value(d)) as i32) } else { None }
    } else {
        if digits_value(d) <= 0x7fff_ffff { Some(digits_value(d) as i32) } else { None }
    }
}

proof fn lemma_digits_value_prefix(s: Seq<char>, k: int)
    requires
        0 <= k <= s.len(),
        all_digits(s),
    ensures
        digits_value(s.take(k)) <= digits_value(s),
    decreases s.len(),
{
    if k < s.len() {
        assert(s.drop_last().take(k) =~= s.take(k));
        lemma_digits_value_prefix(s.drop_last(), k);
    } else {
        assert(s.take(k) =~= s);
    }
}

/// Reads a decimal `i32` as `i32::from_str` does.
pub fn parse_i32(s: &str) -> (r: Option<i32>)
    ensures
        r == i32_of(s@),
{
    let n = s.unicode_len();
    if n == 0 {
        return None;
    }
    let c0 = s.get_char(0);
    let mut neg = false;
    let mut start: usize = 0;
    if c0 == '-' {
        neg = true;
        start = 1;
    } else if c0 == '+' {
        start = 1;
    }
    let ghost d = s@.skip(start as int);
    assert(start == 1 ==> d =~= s@.drop_first());
    assert(start == 0 ==> d =~= s@);
    if start == n {
        return None;
    }
    let mut acc: u64 = 0;
    let mut i: usize = start;
    while i < n
        invariant
            n == s@.len(),
            start <= i <= n,
            d == s@.skip(start as int),
            n > 0,
            d == (if s@[0] == '-' || s@[0] == '+' { s@.drop_first() } else { s@ }),
            neg == (s@[0] == '-'),
            all_digits(d.take(i - start)),
            acc == digits_value(d.take(i - start)),
            acc <= 0x8000_0000,
        decreases n - i,
    {
        let c = s.get_char(i);
        assert(d[i - start] == c);
        if c < '0' || c > '9' {
            assert(!all_digits(d)) by {
                assert(!is_digit(d[i - start]));
            }
            return None;
        }
        assert(d.take(i - start + 1).drop_last() =~= d.take(i - start));
        assert(d.take(i - start + 1).last() == c);
        acc = acc * 10 + ((c as u64) - ('0' as u64));
        assert(all_digits(d.take(i - start + 1))) by {
            assert forall|k: int| 0 <= k < d.take(i - start + 1).len() implies is_digit(#[trigger] d.take(i - start + 1)[k]) by {
                if k < i - start {
                    assert(d.take(i - start + 1)[k] == d.take(i - start)[k]);
                }
            }
        }
        if acc > 0x8000_0000 {
            proof {
                if all_digits(d) {
                    lemma_digits_value_prefix(d, i - start + 1);
                }
            }
            return None;
        }
        i = i + 1;
    }
    assert(d.take(n - start) =~= d);
    if neg {
        Some((0 - (acc as i64)) as i32)
    } else if acc <= 0x7fff_ffff {
        Some(acc as i32)
    } else {
        None
    }
}


/// The characters `char::is_whitespace` accepts: Unicode's White_Space.
pub open spec fn is_whitespace(c: char) -> bool {
    ||| c == ' '
    ||| ('\t' <= c && c <= '\r')
    ||| c == '\u{85}'
    ||| c == '\u{a0}'
    ||| c == '\u{1680}'
    ||| ('\u{2000}' <= c && c <= '\u{200a}')
    ||| c == '\u{2028}'
    ||| c == '\u{2029}'
    ||| c == '\u{202f}'
    ||| c == '\u{205f}'
    ||| c == '\u{3000}'
}

/// Whether `c` is white space.
pub fn char_is_whitespace(c: char) -> (r: bool)
    ensures
        r == is_whitespace(c),
{
    c == ' ' || ('\t' <= c && c <= '\r') || c == '\u{85}' || c == '\u{a0}' || c == '\u{1680}'
        || ('\u{2000}' <= c && c <= '\u{200a}') || c == '\u{2028}' || c == '\u{2029}'
        || c == '\u{202f}' || c == '\u{205f}' || c == '\u{3000}'
}

/// The words of `rest`, the first of which begins with `cur`: maximal runs of
/// characters that are not white space.
pub open spec fn words_from(rest: Seq<char>, cur: Seq<char>) -> Seq<Seq<char>>
    decreases rest.len(),
{
    if rest.len() == 0 {
        if cur.len() == 0 { Seq::empty() } else { seq![cur] }
    } else if is_whitespace(rest[0]) {
        (if cur.len() == 0 { Seq::empty() } else { seq![cur] }) + words_from(rest.drop_first(), Seq::empty())
    } else {
        words_from(rest.drop_first(), cur.push(rest[0]))
    }
}

/// The words of a text, as `str::split_whitespace` gives them.
pub open spec fn words_spec(s: Seq<char>) -> Seq<Seq<char>> {
    words_from(s, Seq::empty())
}

/// The words of a text, in order.
pub fn split_words(text: &str) -> (r: Vec<String>)
    ensures
        r.deep_view() == words_spec(text@),
{
    let n = text.unicode_len();
    let ghost s = text@;
    let mut r: Vec<String> = Vec::new();
    let mut start: usize = 0;
    let mut i: usize = 0;
    assert(s.skip(0) =~= s);
    assert(s.subrange(0, 0) =~= Seq::<char>::empty());
    assert(r.deep_view() + words_from(s, Seq::empty()) =~= words_spec(s));
    while i < n
        invariant
            n == s.len(),
            s == text@,
            start <= i <= n,
            r.deep_view() + words_from(s.skip(i as int), s.subrange(start as int, i as int)) == words_spec(s),
        decreases n - i,
    {
        let ghost before = r.deep_view();
        assert(s.skip(i as int)[0] == s[i as int]);
        assert(s.skip(i as int).drop_first() =~= s.skip(i + 1));
        let c = text.get_char(i);
        if char_is_whitespace(c) {
            if start < i {
                let w = String::from_str(text.substring_char(start, i));
                r.push(w);
                assert(r.deep_view() =~= before.push(w@));
            } else {
                assert(s.subrange(start as int, i as int).len() == 0);
            }
            assert(s.subrange(i + 1, i + 1) =~= Seq::<char>::empty());
            assert(r.deep_view() + words_from(s.skip(i + 1), s.subrange(i + 1, i + 1)) =~= words_spec(s));
            start = i + 1;
        } else {
            assert(s.subrange(start as int, i as int).push(s[i as int]) =~= s.subrange(start as int, i + 1));
        }
        i = i + 1;
    }
    assert(s.skip(n as int) =~= Seq::<char>::empty());
    if start < n {
        let w = String::from_str(text.substring_char(start, n));
        let ghost before = r.deep_view();
        r.push(w);
        assert(r.deep_view() =~= before.push(w@));
        assert(r.deep_view() =~= words_spec(s));
    } else {
        assert(s.subrange(start as int, n as int) =~= Seq::<char>::empty());
        assert(r.deep_view() =~= words_spec(s));
    }
    r
}


/// `s` with every match of `pat` replaced by `rep`, as `str::replace` does:
/// matches are found from the left and do not overlap; an empty pattern
/// matches before every character and at the end.
pub open spec fn replace_all(s: Seq<char>, pat: Seq<char>, rep: Seq<char>) -> Seq<char>
    decreases s.len(),
{
    if pat.len() == 0 {
        if s.len() == 0 {
            rep
        } else {
            rep + seq![s[0]] + replace_all(s.drop_first(), pat, rep)
        }
    } else if s.len() < pat.len() {
        s
    } else if s.take(pat.len() as int) == pat {
        rep + replace_all(s.skip(pat.len() as int), pat, rep)
    } else {
        seq![s[0]] + replace_all(s.drop_first(), pat, rep)
    }
}

/// `text` with every match of `pat` replaced by `rep`.
pub fn replace_str(text: &str, pat: &str, rep: &str) -> (r: String)
    ensures
        r@ == replace_all(text@, pat@, rep@),
{
    let n = text.unicode_len();
    let m = pat.unicode_len();
    let ghost s = text@;
    let mut r = String::new();
    let mut i: usize = 0;
    assert(s.skip(0) =~= s);
    if m == 0 {
        while i < n
            invariant
                n == s.len(),
                s == text@,
                m == pat@.len(),
                m == 0,
                i <= n,
                r@ + replace_all(s.skip(i as int), pat@, rep@) == replace_all(s, pat@, rep@),
            decreases n - i,
        {
            assert(s.skip(i as int).drop_first() =~= s.skip(i + 1));
            assert(s.skip(i as int)[0] == s[i as int]);
            let ghost before = r@;
            r.append(rep);
            let c = text.substring_char(i, i + 1);
            assert(c@ =~= seq![s[i as int]]);
            r.append(c);
            assert(r@ =~= before + rep@ + seq![s[i as int]]);
            assert(r@ + replace_all(s.skip(i + 1), pat@, rep@) =~= before + replace_all(s.skip(i as int), pat@, rep@));
            i = i + 1;
        }
        assert(s.skip(n as int) =~= Seq::<char>::empty());
        r.append(rep);
        return r;
    }
    while i < n
        invariant
            n == s.len(),
            s == text@,
            m == pat@.len(),
            m > 0,
            i <= n,
            r@ + replace_all(s.skip(i as int), pat@, rep@) == replace_all(s, pat@, rep@),
        decreases n - i,
    {
        let ghost before = r@;
        let ghost rest = s.skip(i as int);
        if n - i < m {
            let tail = text.substring_char(i, n);
            assert(tail@ =~= rest);
            r.append(tail);
            assert(r@ =~= before + rest);
            assert(s.skip(n as int) =~= Seq::<char>::empty());
            assert(replace_all(s.skip(n as int), pat@, rep@) =~= Seq::<char>::empty());
            assert(r@ + replace_all(s.skip(n as int), pat@, rep@) =~= replace_all(s, pat@, rep@));
            i = n;
        } else {
            let window = text.substring_char(i, i + m);
            assert(window@ =~= rest.take(m as int));
            if str_eq(window, pat) {
                r.append(rep);
                assert(rest.skip(m as int) =~= s.skip(i + m));
                assert(r@ + replace_all(s.skip(i + m), pat@, rep@) =~= before + replace_all(rest, pat@, rep@));
                i = i + m;
            } else {
                let c = text.substring_char(i, i + 1);
                assert(c@ =~= seq![s[i as int]]);
                assert(rest[0] == s[i as int]);
                assert(rest.drop_first() =~= s.skip(i + 1));
                r.append(c);
                assert(r@ + replace_all(s.skip(i + 1), pat@, rep@) =~= before + replace_all(rest, pat@, rep@));
                i = i + 1;
            }
        }
    }
    assert(s.skip(n as int) =~= Seq::<char>::empty());
    assert(replace_all(s.skip(n as int), pat@, rep@) =~= Seq::<char>::empty());
    assert(r@ =~= replace_all(s, pat@, rep@));
    r
}


/// What `usize::from_str` gives: an optional `+`, then one digit or more,
/// within the range of `usize`.
pub open spec fn usize_of(s: Seq<char>) -> Option<usize> {
    let d = if s.len() > 0 && s[0] == '+' { s.drop_first() } else { s };
    if d.len() == 0 || !all_digits(d) || digits_value(d) > usize::MAX {
        None
    } else {
        Some(digits_value(d) as usize)
    }
}

/// Reads a decimal `usize` as `usize::from_str` does.
pub fn parse_usize(s: &str) -> (r: Option<usize>)
    ensures
        r == usize_of(s@),
{
    let n = s.unicode_len();
    if n == 0 {
        return None;
    }
    let start: usize = if s.get_char(0) == '+' { 1 } else { 0 };
    let ghost d = s@.skip(start as int);
    assert(start == 1 ==> d =~= s@.drop_first());
    assert(start == 0 ==> d =~= s@);
    if start == n {
        return None;
    }
    let mut acc: usize = 0;
    let mut i: usize = start;
    while i < n
        invariant
            n == s@.len(),
            n > 0,
            start <= i <= n,
            d == s@.skip(start as int),
            d == (if s@[0] == '+' { s@.drop_first() } else { s@ }),
            all_digits(d.take(i - start)),
            acc == digits_value(d.take(i - start)),
        decreases n - i,
    {
        let c = s.get_char(i);
        assert(d[i - start] == c);
        if c < '0' || c > '9' {
            assert(!all_digits(d)) by {
                assert(!is_digit(d[i - start]));
            }
            return None;
        }
        assert(d.take(i - start + 1).drop_last() =~= d.take(i - start));
        assert(d.take(i - start + 1).last() == c);
        let digit = (c as u32 - '0' as u32) as usize;
        assert(all_digits(d.take(i - start + 1))) by {
            assert forall|k: int| 0 <= k < d.take(i - start + 1).len() implies is_digit(#[trigger] d.take(i - start + 1)[k]) by {
                if k < i - start {
                    assert(d.take(i - start + 1)[k] == d.take(i - start)[k]);
                }
            }
        }
        if acc > (usize::MAX - digit) / 10 {
            proof {
                assert(acc * 10 + digit > usize::MAX) by (nonlinear_arith)
                    requires acc > (usize::MAX - digit) / 10, digit <= 9;
                if all_digits(d) {
                    lemma_digits_value_prefix(d, i - start + 1);
                }
            }
            return None;
        }
        assert(acc * 10 + digit <= usize::MAX) by (nonlinear_arith)
            requires acc <= (usize::MAX - digit) / 10, digit <= 9;
        acc = acc * 10 + digit;
        i = i + 1;
    }
    assert(d.take(n - start) =~= d);
    Some(acc)
}


/// The pieces of `rest` between the separators `sep`, the first of which
/// begins with `cur`; empty pieces count, as `str::split` gives them.
pub open spec fn split_from(rest: Seq<char>, cur: Seq<char>, sep: char) -> Seq<Seq<char>>
    decreases rest.len(),
{
    if rest.len() == 0 {
        seq![cur]
    } else if rest[0] == sep {
        seq![cur] + split_from(rest.drop_first(), Seq::empty(), sep)
    } else {
        split_from(rest.drop_first(), cur.push(rest[0]), sep)
    }
}

/// The pieces of a text between the separators, as `str::split` gives them.
pub open spec fn split_spec(s: Seq<char>, sep: char) -> Seq<Seq<char>> {
    split_from(s, Seq::empty(), sep)
}

/// Splits a text at every separator.
pub fn split_at_char(text: &str, sep: char) -> (r: Vec<String>)
    ensures
        r.deep_view() == split_spec(text@, sep),
{
    let n = text.unicode_len();
    let ghost s = text@;
    let mut r: Vec<String> = Vec::new();
    let mut start: usize = 0;
    let mut i: usize = 0;
    assert(s.skip(0) =~= s);
    assert(s.subrange(0, 0) =~= Seq::<char>::empty());
    assert(r.deep_view() + split_from(s, Seq::empty(), sep) =~= split_spec(s, sep));
    while i < n
        invariant
            n == s.len(),
            s == text@,
            start <= i <= n,
            r.deep_view() + split_from(s.skip(i as int), s.subrange(start as int, i as int), sep) == split_spec(s, sep),
        decreases n - i,
    {
        let ghost before = r.deep_view();
        assert(s.skip(i as int)[0] == s[i as int]);
        assert(s.skip(i as int).drop_first() =~= s.skip(i + 1));
        if text.get_char(i) == sep {
            let piece = String::from_str(text.substring_char(start, i));
            r.push(piece);
            assert(r.deep_view() =~= before.push(piece@));
            assert(s.subrange(i + 1, i + 1) =~= Seq::<char>::empty());
            assert(r.deep_view() + split_from(s.skip(i + 1), s.subrange(i + 1, i + 1), sep) =~= split_spec(s, sep));
            start = i + 1;
        } else {
            assert(s.subrange(start as int, i as int).push(s[i as int]) =~= s.subrange(start as int, i + 1));
        }
        i = i + 1;
    }
    assert(s.skip(n as int) =~= Seq::<char>::empty());
    let piece = String::from_str(text.substring_char(start, n));
    let ghost before = r.deep_view();
    r.push(piece);
    assert(r.deep_view() =~= before.push(piece@));
    assert(r.deep_view() =~= split_spec(s, sep));
    r
}


/// Splitting gives at least one piece.
pub proof fn lemma_split_nonempty(rest: Seq<char>, cur: Seq<char>, sep: char)
    ensures
        split_from(rest, cur, sep).len() >= 1,
    decreases rest.len(),
{
    if rest.len() > 0 {
        if rest[0] == sep {
            lemma_split_nonempty(rest.drop_first(), Seq::empty(), sep);
        } else {
            lemma_split_nonempty(rest.drop_first(), cur.push(rest[0]), sep);
        }
    }
}


/// The texts joined by `sep`.
pub open spec fn join_by(items: Seq<Seq<char>>, sep: Seq<char>) -> Seq<char>
    decreases items.len(),
{
    if items.len() == 0 {
        Seq::empty()
    } else if items.len() == 1 {
        items[0]
    } else {
        join_by(items.drop_last(), sep) + sep + items.last()
    }
}

/// Joins texts with a separator between each two.
pub fn join_strings(items: &Vec<String>, sep: &str) -> (s: String)
    ensures
        s@ == join_by(items.deep_view(), sep@),
{
    let mut s = String::new();
    let mut i: usize = 0;
    while i < items.len()
        invariant
            i <= items.len(),
            s@ == join_by(items.deep_view().take(i as int), sep@),
        decreases items.len() - i,
    {
        assert(items.deep_view().take(i + 1).drop_last() =~= items.deep_view().take(i as int));
        assert(items.deep_view().take(i + 1).last() == items@[i as int]@);
        if i > 0 {
            s.append(sep);
        } else {
            assert(items.deep_view().take(0).len() == 0);
            assert(s@ =~= Seq::<char>::empty());
        }
        s.append(items[i].as_str());
        if i == 0 {
            assert(items.deep_view().take(1)[0] == items@[0]@);
            assert(s@ =~= items@[0]@);
        }
        i = i + 1;
    }
    assert(items.deep_view().take(items.len() as int) =~= items.deep_view());
    s
}

} // verus!
