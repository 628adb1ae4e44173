//! Character-level text utilities shared by every backend parser:
//! whitespace tokenizing, line splitting, prefix and substring tests,
//! and joining tokens back together.
//!
//! Every executable function is specified against a recursive model over
//! `Seq<char>`.  The whitespace class is the blank characters that the
//! compositor tools emit between columns: space, tab and carriage return
//! (line feeds are consumed by the line splitter).

use vstd::prelude::*;

verus! {

/// The blank characters that separate columns in the tools' tabular
/// output.
pub open spec fn is_space(c: char) -> bool {
    c == ' ' || c == '\t' || c == '\r' || c == '\n'
}

/// First position at or after `i` that is past the end or holds a blank
/// character: the exclusive end of the token starting at `i`.
pub open spec fn token_end(s: Seq<char>, i: int) -> int
    decreases s.len() - i when 0 <= i <= s.len()
{
    if i >= s.len() || is_space(s[i]) {
        i
    } else {
        token_end(s, i + 1)
    }
}

pub proof fn lemma_token_end_bounds(s: Seq<char>, i: int)
    requires
        0 <= i <= s.len(),
    ensures
        i <= token_end(s, i) <= s.len(),
        i < s.len() && !is_space(s[i]) ==> token_end(s, i) > i,
    decreases s.len() - i,
{
    if i < s.len() && !is_space(s[i]) {
        lemma_token_end_bounds(s, i + 1);
    }
}

/// The sequence of whitespace-separated tokens of `s`, scanning from
/// position `i`.
pub open spec fn tokens_from(s: Seq<char>, i: int) -> Seq<Seq<char>>
    decreases s.len() - i when 0 <= i via tokens_from_decreases
{
    if i >= s.len() {
        Seq::empty()
    } else if is_space(s[i]) {
        tokens_from(s, i + 1)
    } else {
        seq![s.subrange(i, token_end(s, i))] + tokens_from(s, token_end(s, i))
    }
}

#[via_fn]
proof fn tokens_from_decreases(s: Seq<char>, i: int) {
    if 0 <= i < s.len() && !is_space(s[i]) {
        lemma_token_end_bounds(s, i);
    }
}

/// First position at or after `i` that is past the end or holds a line
/// feed: the exclusive end of the line starting at `i`.
pub open spec fn line_end(s: Seq<char>, i: int) -> int
    decreases s.len() - i when 0 <= i <= s.len()
{
    if i >= s.len() || s[i] == '\n' {
        i
    } else {
        line_end(s, i + 1)
    }
}

pub proof fn lemma_line_end_bounds(s: Seq<char>, i: int)
    requires
        0 <= i <= s.len(),
    ensures
        i <= line_end(s, i) <= s.len(),
    decreases s.len() - i,
{
    if i < s.len() && s[i] != '\n' {
        lemma_line_end_bounds(s, i + 1);
    }
}

/// The lines of `s` from position `i` on: segments separated by line
/// feeds, the separator consumed, with no empty segment after a trailing
/// line feed.
pub open spec fn lines_from(s: Seq<char>, i: int) -> Seq<Seq<char>>
    decreases s.len() + 1 - i when 0 <= i via lines_from_decreases
{
    if i >= s.len() {
        Seq::empty()
    } else {
        seq![s.subrange(i, line_end(s, i))] + lines_from(s, line_end(s, i) + 1)
    }
}

#[via_fn]
proof fn lines_from_decreases(s: Seq<char>, i: int) {
    if 0 <= i < s.len() {
        lemma_line_end_bounds(s, i);
    }
}

/// First position at or after `i` that is past the end or holds the
/// separator `c`.
pub open spec fn sep_end(s: Seq<char>, c: char, i: int) -> int
    decreases s.len() - i when 0 <= i <= s.len()
{
    if i >= s.len() || s[i] == c {
        i
    } else {
        sep_end(s, c, i + 1)
    }
}

pub proof fn lemma_sep_end_bounds(s: Seq<char>, c: char, i: int)
    requires
        0 <= i <= s.len(),
    ensures
        i <= sep_end(s, c, i) <= s.len(),
    decreases s.len() - i,
{
    if i < s.len() && s[i] != c {
        lemma_sep_end_bounds(s, c, i + 1);
    }
}

/// The segments of `s` from position `i` on, separated by `c`: empty
/// segments are kept, and a trailing separator yields a trailing empty
/// segment.
pub open spec fn split_from(s: Seq<char>, c: char, i: int) -> Seq<Seq<char>>
    decreases s.len() + 1 - i when 0 <= i <= s.len() via split_from_decreases
{
    let e = sep_end(s, c, i);
    if e < s.len() {
        seq![s.subrange(i, e)] + split_from(s, c, e + 1)
    } else {
        seq![s.subrange(i, s.len() as int)]
    }
}

#[via_fn]
proof fn split_from_decreases(s: Seq<char>, c: char, i: int) {
    if 0 <= i <= s.len() {
        lemma_sep_end_bounds(s, c, i);
    }
}

/// Splitting `s` at the first occurrence of `c`: what stands before and
/// what after, absent when `c` does not occur.
pub open spec fn split_once_at(s: Seq<char>, c: char) -> Option<(Seq<char>, Seq<char>)> {
    let e = sep_end(s, c, 0);
    if e < s.len() {
        Some((s.subrange(0, e), s.subrange(e + 1, s.len() as int)))
    } else {
        None
    }
}

/// First position at or after `from` holding the separator, or the
/// length.
pub fn find_sep(s: &str, c: char, from: usize) -> (e: usize)
    requires
        from <= s@.len(),
    ensures
        e == sep_end(s@, c, from as int),
        from <= e <= s@.len(),
{
    let n = s.unicode_len();
    let mut i: usize = from;
    loop
        invariant
            from <= i <= n,
            n == s@.len(),
            sep_end(s@, c, from as int) == sep_end(s@, c, i as int),
        ensures
            i == sep_end(s@, c, from as int),
            from <= i <= n,
        decreases n - i,
    {
        if i >= n {
            break ;
        }
        if s.get_char(i) == c {
            break ;
        }
        i += 1;
    }
    i
}

/// Splits `s` into its `c`-separated segments, empty segments kept.
pub fn split_char(s: &str, c: char) -> (r: Vec<String>)
    ensures
        r.deep_view() == split_from(s@, c, 0),
{
    let n = s.unicode_len();
    let mut r: Vec<String> = Vec::new();
    let mut i: usize = 0;
    loop
        invariant_except_break
            split_from(s@, c, 0) == r.deep_view() + split_from(s@, c, i as int),
        invariant
            i <= n,
            n == s@.len(),
        ensures
            r.deep_view() == split_from(s@, c, 0),
        decreases n - i,
    {
        let e = find_sep(s, c, i);
        let seg = s.substring_char(i, e).to_owned();
        let ghost prev = r.deep_view();
        r.push(seg);
        proof {
            assert(r.deep_view() =~= prev.push(seg@));
        }
        if e < n {
            proof {
                assert(r.deep_view() + split_from(s@, c, e + 1) =~= prev + split_from(
                    s@,
                    c,
                    i as int,
                ));
            }
            i = e + 1;
        } else {
            proof {
                assert(split_from(s@, c, i as int) =~= seq![s@.subrange(i as int, n as int)]);
                assert(r.deep_view() =~= prev + split_from(s@, c, i as int));
            }
            break ;
        }
    }
    r
}

/// `p` is a prefix of `s`.
pub open spec fn has_prefix(s: Seq<char>, p: Seq<char>) -> bool {
    p.len() <= s.len() && s.subrange(0, p.len() as int) == p
}

/// `sub` occurs in `s` at position `i`.
pub open spec fn matches_at(s: Seq<char>, sub: Seq<char>, i: int) -> bool {
    0 <= i && i + sub.len() <= s.len() && s.subrange(i, i + sub.len()) == sub
}

/// `sub` occurs somewhere in `s`.
pub open spec fn contains_seq(s: Seq<char>, sub: Seq<char>) -> bool {
    exists|i: int| matches_at(s, sub, i)
}

/// The tokens from position `i` on, joined by single spaces.
pub open spec fn join_space(parts: Seq<Seq<char>>, i: int) -> Seq<char>
    decreases parts.len() - i when 0 <= i
{
    if i >= parts.len() {
        Seq::empty()
    } else if i == parts.len() - 1 {
        parts[i]
    } else {
        parts[i] + seq![' '] + join_space(parts, i + 1)
    }
}

/// Relies on `String::push`: appends exactly one character.
#[verifier::external_body]
pub fn push_char(s: &mut String, c: char)
    ensures
        final(s)@ == old(s)@.push(c),
{
    s.push(c);
}

pub fn is_space_char(c: char) -> (r: bool)
    ensures
        r == is_space(c),
{
    c == ' ' || c == '\t' || c == '\r' || c == '\n'
}

/// Exclusive end of the token starting at `start`.
fn find_token_end(s: &str, start: usize) -> (e: usize)
    requires
        start <= s@.len(),
    ensures
        e == token_end(s@, start as int),
        start <= e <= s@.len(),
{
    let n = s.unicode_len();
    let mut i: usize = start;
    loop
        invariant
            start <= i <= n,
            n == s@.len(),
            token_end(s@, start as int) == token_end(s@, i as int),
        ensures
            i == token_end(s@, start as int),
            start <= i <= n,
        decreases n - i,
    {
        if i >= n {
            break ;
        }
        if is_space_char(s.get_char(i)) {
            break ;
        }
        i += 1;
    }
    i
}

/// Splits `s` into its whitespace-separated tokens.
pub fn tokens(s: &str) -> (r: Vec<String>)
    ensures
        r.deep_view() == tokens_from(s@, 0),
{
    let n = s.unicode_len();
    let mut r: Vec<String> = Vec::new();
    let mut i: usize = 0;
    while i < n
        invariant
            i <= n,
            n == s@.len(),
            tokens_from(s@, 0) == r.deep_view() + tokens_from(s@, i as int),
        decreases n - i,
    {
        let c = s.get_char(i);
        if is_space_char(c) {
            i += 1;
        } else {
            let e = find_token_end(s, i);
            proof {
                lemma_token_end_bounds(s@, i as int);
            }
            let tok = s.substring_char(i, e).to_owned();
            let ghost prev = r.deep_view();
            r.push(tok);
            proof {
                assert(r.deep_view() =~= prev.push(tok@));
                assert(tokens_from(s@, i as int) == seq![s@.subrange(i as int, e as int)]
                    + tokens_from(s@, e as int));
                assert(r.deep_view() + tokens_from(s@, e as int) =~= prev + tokens_from(
                    s@,
                    i as int,
                ));
            }
            i = e;
        }
    }
    proof {
        assert(r.deep_view() + tokens_from(s@, i as int) =~= r.deep_view());
    }
    r
}

/// Exclusive end of the line starting at `start`.
fn find_line_end(s: &str, start: usize) -> (e: usize)
    requires
        start <= s@.len(),
    ensures
        e == line_end(s@, start as int),
        start <= e <= s@.len(),
{
    let n = s.unicode_len();
    let mut i: usize = start;
    loop
        invariant
            start <= i <= n,
            n == s@.len(),
            line_end(s@, start as int) == line_end(s@, i as int),
        ensures
            i == line_end(s@, start as int),
            start <= i <= n,
        decreases n - i,
    {
        if i >= n {
            break ;
        }
        if s.get_char(i) == '\n' {
            break ;
        }
        i += 1;
    }
    i
}

/// Splits `s` into lines at line feeds, consuming the separators.
pub fn split_lines(s: &str) -> (r: Vec<String>)
    ensures
        r.deep_view() == lines_from(s@, 0),
{
    let n = s.unicode_len();
    let mut r: Vec<String> = Vec::new();
    let mut i: usize = 0;
    while i < n
        invariant
            i <= n,
            n == s@.len(),
            lines_from(s@, 0) == r.deep_view() + lines_from(s@, i as int),
        decreases n - i,
    {
        let e = find_line_end(s, i);
        let line = s.substring_char(i, e).to_owned();
        let ghost prev = r.deep_view();
        r.push(line);
        proof {
            assert(r.deep_view() =~= prev.push(line@));
            assert(r.deep_view() + lines_from(s@, e + 1) =~= prev + lines_from(s@, i as int));
        }
        if e < n {
            i = e + 1;
        } else {
            i = n;
            proof {
                assert(lines_from(s@, e + 1) =~= lines_from(s@, n as int));
            }
        }
    }
    proof {
        assert(r.deep_view() + lines_from(s@, i as int) =~= r.deep_view());
    }
    r
}

/// Whether `p` is a prefix of `s`.
pub fn starts_with_str(s: &str, p: &str) -> (r: bool)
    ensures
        r == has_prefix(s@, p@),
{
    let n = s.unicode_len();
    let m = p.unicode_len();
    if m > n {
        return false;
    }
    let mut j: usize = 0;
    while j < m
        invariant
            j <= m <= n,
            n == s@.len(),
            m == p@.len(),
            forall|k: int| 0 <= k < j ==> s@[k] == p@[k],
        decreases m - j,
    {
        if s.get_char(j) != p.get_char(j) {
            proof {
                assert(s@.subrange(0, m as int)[j as int] == s@[j as int]);
            }
            return false;
        }
        j += 1;
    }
    proof {
        assert(s@.subrange(0, m as int) =~= p@);
    }
    true
}

/// Whether `sub` occurs in `s` at position `i`.
fn matches_at_exec(s: &str, sub: &str, i: usize) -> (r: bool)
    requires
        i + sub@.len() <= s@.len(),
    ensures
        r == matches_at(s@, sub@, i as int),
{
    let n = s.unicode_len();
    let m = sub.unicode_len();
    let mut j: usize = 0;
    while j < m
        invariant
            j <= m,
            m == sub@.len(),
            n == s@.len(),
            i + m <= n,
            forall|k: int| 0 <= k < j ==> s@[i + k] == sub@[k],
        decreases m - j,
    {
        if s.get_char(i + j) != sub.get_char(j) {
            proof {
                assert(s@.subrange(i as int, i + m)[j as int] == s@[i + j]);
            }
            return false;
        }
        j += 1;
    }
    proof {
        assert(s@.subrange(i as int, i + m) =~= sub@);
    }
    true
}

/// Whether `sub` occurs somewhere in `s`.
pub fn contains_str(s: &str, sub: &str) -> (r: bool)
    ensures
        r == contains_seq(s@, sub@),
{
    let n = s.unicode_len();
    let m = sub.unicode_len();
    if m > n {
        proof {
            assert(forall|i: int| !matches_at(s@, sub@, i));
        }
        return false;
    }
    if m == 0 {
        proof {
            assert(s@.subrange(0, 0) =~= sub@);
            assert(matches_at(s@, sub@, 0));
        }
        return true;
    }
    let mut i: usize = 0;
    while i <= n - m
        invariant
            1 <= m <= n,
            n == s@.len(),
            m == sub@.len(),
            i <= n - m + 1,
            forall|k: int| 0 <= k < i ==> !matches_at(s@, sub@, k),
        decreases n - m + 1 - i,
    {
        if matches_at_exec(s, sub, i) {
            return true;
        }
        i += 1;
    }
    proof {
        assert(forall|k: int| #[trigger] matches_at(s@, sub@, k) ==> 0 <= k < i);
    }
    false
}

/// Whether two strings hold the same characters.
pub fn str_eq(a: &str, b: &str) -> (r: bool)
    ensures
        r == (a@ == b@),
{
    let n = a.unicode_len();
    let m = b.unicode_len();
    if n != m {
        return false;
    }
    let mut j: usize = 0;
    while j < n
        invariant
            j <= n,
            n == a@.len(),
            n == b@.len(),
            forall|k: int| 0 <= k < j ==> a@[k] == b@[k],
        decreases n - j,
    {
        if a.get_char(j) != b.get_char(j) {
            return false;
        }
        j += 1;
    }
    proof {
        assert(a@ =~= b@);
    }
    true
}

/// Joins the tokens from index `from` on with single spaces.
pub fn join_space_from(parts: &Vec<String>, from: usize) -> (r: String)
    ensures
        r@ == join_space(parts.deep_view(), from as int),
    decreases parts@.len() - from,
{
    if from >= parts.len() {
        String::new()
    } else if from == parts.len() - 1 {
        parts[from].clone()
    } else {
        let mut s = parts[from].clone();
        push_char(&mut s, ' ');
        let rest = join_space_from(parts, from + 1);
        s.append(rest.as_str());
        proof {
            assert(s@ =~= parts.deep_view()[from as int] + seq![' '] + join_space(
                parts.deep_view(),
                from + 1,
            ));
        }
        s
    }
}

} // verus!
