//! Text as sequences of characters.
//!
//! Every rule of this library reads source text character by character, so the
//! text is held as `Vec<char>` and specified as `Seq<char>`. The operations here
//! are the few that the rules need: trimming, searching, splitting into lines
//! and joining them again.
use vstd::prelude::*;

verus! {

/// Appends one character to a string, as `String::push` does.
#[verifier::external_body]
fn push_char(s: &mut String, c: char)
    ensures
        final(s)@ == old(s)@.push(c),
{
    s.push(c);
}

/// The characters of `s`, in order.
pub fn to_chars(s: &str) -> (v: Vec<char>)
    ensures
        v@ == s@,
{
    let mut v: Vec<char> = Vec::new();
    for c in it: s.chars()
        invariant
            it.seq() == s@,
            v@ == s@.take(it.index()),
    {
        v.push(c);
        assert(s@.take(it.index() + 1) =~= s@.take(it.index()).push(c));
    }
    assert(s@.take(s@.len() as int) =~= s@);
    v
}

/// The string made of the characters of `v`, in order.
pub fn from_chars(v: &Vec<char>) -> (s: String)
    ensures
        s@ == v@,
{
    let mut s = String::new();
    let mut i: usize = 0;
    while i < v.len()
        invariant
            i <= v.len(),
            s@ == v@.take(i as int),
        decreases v.len() - i,
    {
        push_char(&mut s, v[i]);
        i += 1;
        assert(v@.take(i as int) =~= v@.take(i - 1).push(v@[i - 1]));
    }
    assert(v@.take(v.len() as int) =~= v@);
    s
}

/// The views of a list of texts.
pub open spec fn views(v: Seq<Vec<char>>) -> Seq<Seq<char>> {
    Seq::new(v.len(), |i: int| v[i]@)
}

/// The views of a list of strings.
pub open spec fn string_views(v: Seq<String>) -> Seq<Seq<char>> {
    Seq::new(v.len(), |i: int| v[i]@)
}

/// The texts of a list of strings.
pub fn to_char_lists(v: &[String]) -> (out: Vec<Vec<char>>)
    ensures
        views(out@) == string_views(v@),
{
    let mut out: Vec<Vec<char>> = Vec::new();
    let mut i: usize = 0;
    while i < v.len()
        invariant
            i <= v.len(),
            out.len() == i,
            forall|k: int| 0 <= k < i ==> out@[k]@ == v@[k]@,
        decreases v.len() - i,
    {
        out.push(to_chars(v[i].as_str()));
        i += 1;
    }
    assert(views(out@) =~= string_views(v@));
    out
}

/// The strings of a list of texts.
pub fn to_strings(v: &Vec<Vec<char>>) -> (out: Vec<String>)
    ensures
        string_views(out@) == views(v@),
{
    let mut out: Vec<String> = Vec::new();
    let mut i: usize = 0;
    while i < v.len()
        invariant
            i <= v.len(),
            out.len() == i,
            forall|k: int| 0 <= k < i ==> out@[k]@ == v@[k]@,
        decreases v.len() - i,
    {
        out.push(from_chars(&v[i]));
        i += 1;
    }
    assert(string_views(out@) =~= views(v@));
    out
}

/// A copy of the characters of `s` from `a` up to `b`.
pub fn subvec(s: &Vec<char>, a: usize, b: usize) -> (r: Vec<char>)
    requires
        a <= b <= s.len(),
    ensures
        r@ == s@.subrange(a as int, b as int),
{
    let mut r: Vec<char> = Vec::new();
    let mut i: usize = a;
    while i < b
        invariant
            a <= i <= b <= s.len(),
            r@ == s@.subrange(a as int, i as int),
        decreases b - i,
    {
        r.push(s[i]);
        i += 1;
        assert(s@.subrange(a as int, i as int) =~= s@.subrange(a as int, i - 1).push(s@[i - 1]));
    }
    r
}

/// Appends `src` to `dst`.
pub fn append(dst: &mut Vec<char>, src: &Vec<char>)
    ensures
        final(dst)@ == old(dst)@ + src@,
{
    let mut i: usize = 0;
    while i < src.len()
        invariant
            i <= src.len(),
            dst@ == old(dst)@ + src@.take(i as int),
        decreases src.len() - i,
    {
        dst.push(src[i]);
        i += 1;
        assert(old(dst)@ + src@.take(i as int) =~= (old(dst)@ + src@.take(i - 1)).push(
            src@[i - 1],
        ));
    }
    assert(src@.take(src.len() as int) =~= src@);
}

/// Whether two texts hold the same characters.
pub fn chars_eq(a: &Vec<char>, b: &Vec<char>) -> (r: bool)
    ensures
        r == (a@ == b@),
{
    if a.len() != b.len() {
        return false;
    }
    let mut i: usize = 0;
    while i < a.len()
        invariant
            i <= a.len(),
            a.len() == b.len(),
            a@.take(i as int) == b@.take(i as int),
        decreases a.len() - i,
    {
        if a[i] != b[i] {
            return false;
        }
        i += 1;
        assert(a@.take(i as int) =~= a@.take(i - 1).push(a@[i - 1]));
        assert(b@.take(i as int) =~= b@.take(i - 1).push(b@[i - 1]));
    }
    assert(a@.take(a.len() as int) =~= a@);
    assert(b@.take(b.len() as int) =~= b@);
    true
}

/// Whether `x` occurs in `list`.
pub fn list_contains(list: &Vec<Vec<char>>, x: &Vec<char>) -> (r: bool)
    ensures
        r == views(list@).contains(x@),
{
    let mut i: usize = 0;
    while i < list.len()
        invariant
            i <= list.len(),
            forall|k: int| 0 <= k < i ==> views(list@)[k] != x@,
        decreases list.len() - i,
    {
        if chars_eq(&list[i], x) {
            assert(views(list@)[i as int] == x@);
            return true;
        }
        i += 1;
    }
    false
}

// ---------------------------------------------------------------------------
// White space and trimming
// ---------------------------------------------------------------------------
/// Whether `c` has the Unicode property `White_Space`.
pub open spec fn is_space(c: char) -> bool {
    ||| ('\u{9}' <= c && c <= '\u{d}')
    ||| c == ' '
    ||| c == '\u{85}'
    ||| c == '\u{a0}'
    ||| c == '\u{1680}'
    ||| ('\u{2000}' <= c && c <= '\u{200a}')
    ||| c == '\u{2028}'
    ||| c == '\u{2029}'
    ||| c == '\u{202f}'
    ||| c == '\u{205f}'
    ||| c == '\u{3000}'
}

/// Whether `c` is a white-space character.
pub fn is_whitespace(c: char) -> (r: bool)
    ensures
        r == is_space(c),
{
    ('\u{9}' <= c && c <= '\u{d}') || c == ' ' || c == '\u{85}' || c == '\u{a0}' || c
        == '\u{1680}' || ('\u{2000}' <= c && c <= '\u{200a}') || c == '\u{2028}' || c
        == '\u{2029}' || c == '\u{202f}' || c == '\u{205f}' || c == '\u{3000}'
}

/// The index of the first character at or after `i` that is no white space,
/// or the length of `s` where there is none.
pub open spec fn skip_spaces(s: Seq<char>, i: int) -> int
    decreases s.len() - i,
{
    if 0 <= i < s.len() && is_space(s[i]) {
        skip_spaces(s, i + 1)
    } else {
        i
    }
}

/// The index after the last character before `j` that is no white space, or 0
/// where there is none.
pub open spec fn skip_spaces_back(s: Seq<char>, j: int) -> int
    decreases j,
{
    if 0 < j <= s.len() && is_space(s[j - 1]) {
        skip_spaces_back(s, j - 1)
    } else {
        j
    }
}

/// `s` without its leading white space.
pub open spec fn trim_start_of(s: Seq<char>) -> Seq<char> {
    s.subrange(skip_spaces(s, 0), s.len() as int)
}

/// `s` without its trailing white space.
pub open spec fn trim_end_of(s: Seq<char>) -> Seq<char> {
    s.subrange(0, skip_spaces_back(s, s.len() as int))
}

/// `s` without its leading and trailing white space.
pub open spec fn trim_of(s: Seq<char>) -> Seq<char> {
    trim_end_of(trim_start_of(s))
}

/// `s` without its leading white space.
pub fn trim_start(s: &Vec<char>) -> (r: Vec<char>)
    ensures
        r@ == trim_start_of(s@),
{
    let mut i: usize = 0;
    while i < s.len() && is_whitespace(s[i])
        invariant
            i <= s.len(),
            skip_spaces(s@, 0) == skip_spaces(s@, i as int),
        decreases s.len() - i,
    {
        i += 1;
    }
    subvec(s, i, s.len())
}

/// `s` without its trailing white space.
pub fn trim_end(s: &Vec<char>) -> (r: Vec<char>)
    ensures
        r@ == trim_end_of(s@),
{
    let mut j: usize = s.len();
    while j > 0 && is_whitespace(s[j - 1])
        invariant
            j <= s.len(),
            skip_spaces_back(s@, s.len() as int) == skip_spaces_back(s@, j as int),
        decreases j,
    {
        j -= 1;
    }
    subvec(s, 0, j)
}

/// `s` without its leading and trailing white space.
pub fn trim(s: &Vec<char>) -> (r: Vec<char>)
    ensures
        r@ == trim_of(s@),
{
    let t = trim_start(s);
    trim_end(&t)
}

// ---------------------------------------------------------------------------
// Searching
// ---------------------------------------------------------------------------
/// Whether `p` occurs in `s` at index `i`.
pub open spec fn matches_at(s: Seq<char>, p: Seq<char>, i: int) -> bool {
    0 <= i && i + p.len() <= s.len() && s.subrange(i, i + p.len()) == p
}

/// The index of the first occurrence of `p` in `s` at or after `i`.
pub open spec fn find_from(s: Seq<char>, p: Seq<char>, i: int) -> Option<int>
    decreases s.len() - i,
{
    if i < 0 || i + p.len() > s.len() {
        None
    } else if matches_at(s, p, i) {
        Some(i)
    } else if i < s.len() {
        find_from(s, p, i + 1)
    } else {
        None
    }
}

/// The index of the first occurrence of `p` in `s`.
pub open spec fn find_of(s: Seq<char>, p: Seq<char>) -> Option<int> {
    find_from(s, p, 0)
}

/// Whether `p` occurs in `s`.
pub open spec fn contains_of(s: Seq<char>, p: Seq<char>) -> bool {
    find_of(s, p) is Some
}

/// The number of characters from `i` on that come before the next `c`.
pub open spec fn run_len(s: Seq<char>, c: char, i: int) -> nat
    decreases s.len() - i,
{
    if 0 <= i < s.len() && s[i] != c {
        1 + run_len(s, c, i + 1)
    } else {
        0
    }
}

/// The index of the first `c` in `s`.
pub open spec fn find_char_of(s: Seq<char>, c: char) -> Option<int> {
    if run_len(s, c, 0) < s.len() {
        Some(run_len(s, c, 0) as int)
    } else {
        None
    }
}

/// The index of the last `c` in `s` before `j`.
pub open spec fn rfind_char_before(s: Seq<char>, c: char, j: int) -> Option<int>
    decreases j,
{
    if j <= 0 || j > s.len() {
        None
    } else if s[j - 1] == c {
        Some(j - 1)
    } else {
        rfind_char_before(s, c, j - 1)
    }
}

/// The index of the last `c` in `s`.
pub open spec fn rfind_char_of(s: Seq<char>, c: char) -> Option<int> {
    rfind_char_before(s, c, s.len() as int)
}

/// A run ends within the text, at a `c` or at the end, and holds no `c`.
pub proof fn lemma_run_len_bounds(s: Seq<char>, c: char, i: int)
    requires
        0 <= i <= s.len(),
    ensures
        i + run_len(s, c, i) <= s.len(),
        i + run_len(s, c, i) < s.len() ==> s[i + run_len(s, c, i)] == c,
        forall|k: int| i <= k < i + run_len(s, c, i) ==> s[k] != c,
    decreases s.len() - i,
{
    if i < s.len() && s[i] != c {
        lemma_run_len_bounds(s, c, i + 1);
    }
}

/// Whether `p` occurs in `s` at index `i`.
pub fn is_match_at(s: &Vec<char>, p: &Vec<char>, i: usize) -> (r: bool)
    ensures
        r == matches_at(s@, p@, i as int),
{
    if p.len() > s.len() || i > s.len() - p.len() {
        return false;
    }
    let mut k: usize = 0;
    while k < p.len()
        invariant
            k <= p.len(),
            i + p.len() <= s.len(),
            s@.subrange(i as int, i + k) == p@.take(k as int),
        decreases p.len() - k,
    {
        if s[i + k] != p[k] {
            assert(s@.subrange(i as int, i + p.len())[k as int] != p@[k as int]);
            return false;
        }
        k += 1;
        assert(s@.subrange(i as int, i + k) =~= s@.subrange(i as int, i + k - 1).push(
            s@[i + k - 1],
        ));
        assert(p@.take(k as int) =~= p@.take(k - 1).push(p@[k - 1]));
    }
    assert(p@.take(p.len() as int) =~= p@);
    true
}

/// Whether `s` begins with `p`.
pub fn starts_with(s: &Vec<char>, p: &Vec<char>) -> (r: bool)
    ensures
        r == p@.is_prefix_of(s@),
{
    is_match_at(s, p, 0)
}

/// Whether `s` begins with the literal `p`.
pub fn starts_with_str(s: &Vec<char>, p: &str) -> (r: bool)
    ensures
        r == p@.is_prefix_of(s@),
{
    let p = to_chars(p);
    starts_with(s, &p)
}

/// Whether `s` ends with `p`.
pub fn ends_with(s: &Vec<char>, p: &Vec<char>) -> (r: bool)
    ensures
        r == p@.is_suffix_of(s@),
{
    if p.len() > s.len() {
        return false;
    }
    is_match_at(s, p, s.len() - p.len())
}

/// Whether `s` ends with the literal `p`.
pub fn ends_with_str(s: &Vec<char>, p: &str) -> (r: bool)
    ensures
        r == p@.is_suffix_of(s@),
{
    let p = to_chars(p);
    ends_with(s, &p)
}

/// The index of the first occurrence of `p` in `s`.
pub fn find(s: &Vec<char>, p: &Vec<char>) -> (r: Option<usize>)
    ensures
        match r {
            Some(i) => find_of(s@, p@) == Some(i as int) && i + p@.len() <= s.len(),
            None => find_of(s@, p@) is None,
        },
{
    if p.len() > s.len() {
        return None;
    }
    let last: usize = s.len() - p.len();
    let mut i: usize = 0;
    loop
        invariant
            i <= last,
            last == s.len() - p.len(),
            find_of(s@, p@) == find_from(s@, p@, i as int),
        decreases last - i,
    {
        if is_match_at(s, p, i) {
            return Some(i);
        }
        if i == last {
            assert(find_from(s@, p@, i + 1) is None);
            return None;
        }
        i += 1;
    }
}

/// The index of the first occurrence of the literal `p` in `s`.
pub fn find_str(s: &Vec<char>, p: &str) -> (r: Option<usize>)
    ensures
        match r {
            Some(i) => find_of(s@, p@) == Some(i as int) && i + p@.len() <= s.len(),
            None => find_of(s@, p@) is None,
        },
{
    let p = to_chars(p);
    find(s, &p)
}

/// Whether the literal `p` occurs in `s`.
pub fn contains_str(s: &Vec<char>, p: &str) -> (r: bool)
    ensures
        r == contains_of(s@, p@),
{
    find_str(s, p).is_some()
}

/// The index of the first `c` in `s` at or after `from`, or the length of `s`.
pub fn next_char(s: &Vec<char>, c: char, from: usize) -> (r: usize)
    requires
        from <= s.len(),
    ensures
        r == from + run_len(s@, c, from as int),
        from <= r <= s.len(),
{
    let mut i: usize = from;
    while i < s.len() && s[i] != c
        invariant
            from <= i <= s.len(),
            from + run_len(s@, c, from as int) == i + run_len(s@, c, i as int),
        decreases s.len() - i,
    {
        i += 1;
    }
    i
}

/// The index of the first `c` in `s`.
pub fn find_char(s: &Vec<char>, c: char) -> (r: Option<usize>)
    ensures
        match r {
            Some(i) => find_char_of(s@, c) == Some(i as int) && i < s.len() && s@[i as int] == c,
            None => find_char_of(s@, c) is None,
        },
{
    let i = next_char(s, c, 0);
    proof {
        lemma_run_len_bounds(s@, c, 0);
    }
    if i < s.len() {
        Some(i)
    } else {
        None
    }
}

/// The index of the last `c` in `s`.
pub fn rfind_char(s: &Vec<char>, c: char) -> (r: Option<usize>)
    ensures
        match r {
            Some(i) => rfind_char_of(s@, c) == Some(i as int) && i < s.len(),
            None => rfind_char_of(s@, c) is None,
        },
{
    let mut j: usize = s.len();
    while j > 0
        invariant
            j <= s.len(),
            rfind_char_of(s@, c) == rfind_char_before(s@, c, j as int),
        decreases j,
    {
        if s[j - 1] == c {
            return Some(j - 1);
        }
        j -= 1;
    }
    None
}

/// What follows the prefix `p` in `s`, where `s` begins with `p`.
pub open spec fn strip_prefix_of(s: Seq<char>, p: Seq<char>) -> Option<Seq<char>> {
    if p.is_prefix_of(s) {
        Some(s.subrange(p.len() as int, s.len() as int))
    } else {
        None
    }
}

/// What follows the prefix `p` in `s`, where `s` begins with `p`.
pub fn strip_prefix(s: &Vec<char>, p: &Vec<char>) -> (r: Option<Vec<char>>)
    ensures
        match r {
            Some(rest) => strip_prefix_of(s@, p@) == Some(rest@),
            None => strip_prefix_of(s@, p@) is None,
        },
{
    if starts_with(s, p) {
        Some(subvec(s, p.len(), s.len()))
    } else {
        None
    }
}

/// What follows the literal prefix `p` in `s`, where `s` begins with `p`.
pub fn strip_prefix_str(s: &Vec<char>, p: &str) -> (r: Option<Vec<char>>)
    ensures
        match r {
            Some(rest) => strip_prefix_of(s@, p@) == Some(rest@),
            None => strip_prefix_of(s@, p@) is None,
        },
{
    let p = to_chars(p);
    strip_prefix(s, &p)
}

// ---------------------------------------------------------------------------
// Splitting and joining
// ---------------------------------------------------------------------------
/// The pieces of `s` from `start` on that lie between occurrences of `c`.
pub open spec fn split_from(s: Seq<char>, c: char, start: int) -> Seq<Seq<char>>
    decreases s.len() - start,
{
    if start < 0 || start > s.len() {
        Seq::empty()
    } else {
        let e = start + run_len(s, c, start);
        if e >= s.len() {
            seq![s.subrange(start, s.len() as int)]
        } else {
            seq![s.subrange(start, e)] + split_from(s, c, e + 1)
        }
    }
}

/// The pieces of `s` that lie between occurrences of `c`; never empty.
pub open spec fn split_of(s: Seq<char>, c: char) -> Seq<Seq<char>> {
    split_from(s, c, 0)
}

/// `l` without one trailing carriage return.
pub open spec fn strip_cr(l: Seq<char>) -> Seq<char> {
    if l.len() > 0 && l.last() == '\r' {
        l.drop_last()
    } else {
        l
    }
}

/// The lines of `s` from `start` on.
pub open spec fn lines_from(s: Seq<char>, start: int) -> Seq<Seq<char>>
    decreases s.len() - start,
{
    if start < 0 || start >= s.len() {
        Seq::empty()
    } else {
        let e = start + run_len(s, '\n', start);
        if e >= s.len() {
            seq![s.subrange(start, s.len() as int)]
        } else {
            seq![strip_cr(s.subrange(start, e))] + lines_from(s, e + 1)
        }
    }
}

/// The lines of `s`: the text between line feeds, each without the carriage
/// return that stood before its line feed. A line feed at the very end opens
/// no further line.
pub open spec fn lines_of(s: Seq<char>) -> Seq<Seq<char>> {
    lines_from(s, 0)
}

/// The texts of `parts` with `sep` between each two neighbours.
pub open spec fn join_of(parts: Seq<Seq<char>>, sep: Seq<char>) -> Seq<char>
    decreases parts.len(),
{
    if parts.len() == 0 {
        Seq::empty()
    } else if parts.len() == 1 {
        parts[0]
    } else {
        join_of(parts.drop_last(), sep) + sep + parts.last()
    }
}

/// The pieces of `s` that lie between occurrences of `c`.
pub fn split_char(s: &Vec<char>, c: char) -> (out: Vec<Vec<char>>)
    ensures
        views(out@) == split_of(s@, c),
        out.len() >= 1,
{
    let mut out: Vec<Vec<char>> = Vec::new();
    let mut start: usize = 0;
    loop
        invariant_except_break
            split_of(s@, c) == views(out@) + split_from(s@, c, start as int),
        invariant
            start <= s.len(),
        ensures
            views(out@) == split_of(s@, c),
            out.len() >= 1,
        decreases s.len() - start,
    {
        let e = next_char(s, c, start);
        let ghost before = views(out@);
        out.push(subvec(s, start, e));
        assert(views(out@) =~= before.push(s@.subrange(start as int, e as int)));
        if e >= s.len() {
            assert(s@.subrange(start as int, e as int) == s@.subrange(
                start as int,
                s.len() as int,
            ));
            assert(views(out@) =~= before + seq![s@.subrange(start as int, s.len() as int)]);
            break ;
        }
        assert(views(out@) + split_from(s@, c, e + 1) =~= before + (seq![
            s@.subrange(start as int, e as int),
        ] + split_from(s@, c, e + 1)));
        start = e + 1;
    }
    out
}

/// The lines of `s`.
pub fn lines(s: &Vec<char>) -> (out: Vec<Vec<char>>)
    ensures
        views(out@) == lines_of(s@),
{
    let mut out: Vec<Vec<char>> = Vec::new();
    let mut start: usize = 0;
    while start < s.len()
        invariant
            start <= s.len(),
            lines_of(s@) == views(out@) + lines_from(s@, start as int),
        decreases s.len() - start,
    {
        let e = next_char(s, '\n', start);
        let ghost before = views(out@);
        if e >= s.len() {
            out.push(subvec(s, start, e));
            assert(views(out@) =~= before.push(s@.subrange(start as int, s.len() as int)));
            assert(views(out@) + lines_from(s@, s.len() as int) =~= before + seq![
                s@.subrange(start as int, s.len() as int),
            ]);
            start = s.len();
        } else {
            let end: usize = if e > start && s[e - 1] == '\r' {
                e - 1
            } else {
                e
            };
            let ghost piece = s@.subrange(start as int, e as int);
            assert(s@.subrange(start as int, end as int) =~= strip_cr(piece));
            out.push(subvec(s, start, end));
            assert(views(out@) =~= before.push(strip_cr(piece)));
            assert(views(out@) + lines_from(s@, e + 1) =~= before + (seq![strip_cr(piece)]
                + lines_from(s@, e + 1)));
            start = e + 1;
        }
    }
    assert(views(out@) + Seq::<Seq<char>>::empty() =~= views(out@));
    out
}

/// The texts of `parts` with `sep` between each two neighbours.
pub fn join(parts: &Vec<Vec<char>>, sep: &Vec<char>) -> (out: Vec<char>)
    ensures
        out@ == join_of(views(parts@), sep@),
{
    let mut out: Vec<char> = Vec::new();
    let mut i: usize = 0;
    while i < parts.len()
        invariant
            i <= parts.len(),
            out@ == join_of(views(parts@).take(i as int), sep@),
        decreases parts.len() - i,
    {
        let ghost prev = views(parts@).take(i as int);
        if i > 0 {
            append(&mut out, sep);
        }
        append(&mut out, &parts[i]);
        i += 1;
        proof {
            let cur = views(parts@).take(i as int);
            assert(cur.drop_last() =~= prev);
            assert(cur.last() == parts@[i - 1]@);
            if i == 1 {
                assert(out@ =~= cur[0]);
            }
        }
    }
    assert(views(parts@).take(parts.len() as int) =~= views(parts@));
    out
}

/// `s` with every `from` turned into `to`.
pub open spec fn replace_char_of(s: Seq<char>, from: char, to: char) -> Seq<char> {
    Seq::new(
        s.len(),
        |i: int|
            if s[i] == from {
                to
            } else {
                s[i]
            },
    )
}

/// `s` with every `from` turned into `to`.
pub fn replace_char(s: &Vec<char>, from: char, to: char) -> (r: Vec<char>)
    ensures
        r@ == replace_char_of(s@, from, to),
{
    let mut r: Vec<char> = Vec::new();
    let mut i: usize = 0;
    while i < s.len()
        invariant
            i <= s.len(),
            r@ == replace_char_of(s@, from, to).take(i as int),
        decreases s.len() - i,
    {
        if s[i] == from {
            r.push(to);
        } else {
            r.push(s[i]);
        }
        i += 1;
        assert(r@ =~= replace_char_of(s@, from, to).take(i as int));
    }
    assert(replace_char_of(s@, from, to).take(s.len() as int) =~= replace_char_of(s@, from, to));
    r
}

/// A copy of `s`.
pub fn copy_chars(s: &Vec<char>) -> (r: Vec<char>)
    ensures
        r@ == s@,
{
    let r = subvec(s, 0, s.len());
    assert(s@.subrange(0, s.len() as int) =~= s@);
    r
}

/// The number of characters from `i` on that come before the next `a` or `b`.
pub open spec fn run_len2(s: Seq<char>, a: char, b: char, i: int) -> nat
    decreases s.len() - i,
{
    if 0 <= i < s.len() && s[i] != a && s[i] != b {
        1 + run_len2(s, a, b, i + 1)
    } else {
        0
    }
}

/// The index of the first `a` or `b` in `s`, or the length of `s`.
pub fn next_of_two(s: &Vec<char>, a: char, b: char) -> (r: usize)
    ensures
        r == run_len2(s@, a, b, 0),
        r <= s.len(),
{
    let mut i: usize = 0;
    while i < s.len() && s[i] != a && s[i] != b
        invariant
            i <= s.len(),
            run_len2(s@, a, b, 0) == i + run_len2(s@, a, b, i as int),
        decreases s.len() - i,
    {
        i += 1;
    }
    i
}

/// The text of `s` before its first `c`, or all of `s` where it holds none.
pub open spec fn first_segment_of(s: Seq<char>, c: char) -> Seq<char> {
    s.subrange(0, run_len(s, c, 0) as int)
}

/// The text of `s` before its first `c`, or all of `s` where it holds none.
pub fn first_segment(s: &Vec<char>, c: char) -> (r: Vec<char>)
    ensures
        r@ == first_segment_of(s@, c),
{
    let e = next_char(s, c, 0);
    subvec(s, 0, e)
}

/// The text of `s` after its last `c`, or all of `s` where it holds none.
pub open spec fn last_segment_of(s: Seq<char>, c: char) -> Seq<char> {
    match rfind_char_of(s, c) {
        Some(i) => s.subrange(i + 1, s.len() as int),
        None => s,
    }
}

/// The text of `s` after its last `c`, or all of `s` where it holds none.
pub fn last_segment(s: &Vec<char>, c: char) -> (r: Vec<char>)
    ensures
        r@ == last_segment_of(s@, c),
{
    match rfind_char(s, c) {
        Some(i) => subvec(s, i + 1, s.len()),
        None => copy_chars(s),
    }
}

/// `s` without any number of trailing copies of `suffix`.
pub open spec fn trim_end_matches_of(s: Seq<char>, suffix: Seq<char>) -> Seq<char>
    decreases s.len(),
{
    if suffix.len() > 0 && suffix.is_suffix_of(s) {
        trim_end_matches_of(s.subrange(0, s.len() - suffix.len()), suffix)
    } else {
        s
    }
}

/// `s` without any number of trailing copies of the literal `suffix`.
pub fn trim_end_matches(s: &Vec<char>, suffix: &str) -> (r: Vec<char>)
    ensures
        r@ == trim_end_matches_of(s@, suffix@),
{
    let suf = to_chars(suffix);
    let mut n: usize = s.len();
    assert(s@.subrange(0, n as int) =~= s@);
    if suf.len() == 0 {
        return copy_chars(s);
    }
    while n >= suf.len() && is_match_at(s, &suf, n - suf.len())
        invariant
            n <= s.len(),
            suf.len() > 0,
            trim_end_matches_of(s@, suf@) == trim_end_matches_of(s@.subrange(0, n as int), suf@),
        decreases n,
    {
        let ghost cur = s@.subrange(0, n as int);
        assert(cur.subrange(cur.len() - suf@.len(), cur.len() as int) =~= s@.subrange(
            n - suf@.len(),
            n as int,
        ));
        assert(cur.subrange(0, cur.len() - suf@.len()) =~= s@.subrange(0, n - suf@.len()));
        n -= suf.len();
    }
    proof {
        let cur = s@.subrange(0, n as int);
        if n >= suf@.len() {
            assert(cur.subrange(cur.len() - suf@.len(), cur.len() as int) =~= s@.subrange(
                n - suf@.len(),
                n as int,
            ));
        }
    }
    subvec(s, 0, n)
}

/// The texts `a` and `b` one after the other.
pub fn concat(a: &Vec<char>, b: &Vec<char>) -> (r: Vec<char>)
    ensures
        r@ == a@ + b@,
{
    let mut r = copy_chars(a);
    append(&mut r, b);
    r
}

/// The view of a text that may be absent.
pub open spec fn opt_view(o: Option<Vec<char>>) -> Option<Seq<char>> {
    match o {
        Some(v) => Some(v@),
        None => None,
    }
}

/// What follows the first character of `s`, where that character is `c`.
pub open spec fn strip_prefix_char_of(s: Seq<char>, c: char) -> Option<Seq<char>> {
    if s.len() > 0 && s[0] == c {
        Some(s.subrange(1, s.len() as int))
    } else {
        None
    }
}

/// What follows the first character of `s`, where that character is `c`.
pub fn strip_prefix_char(s: &Vec<char>, c: char) -> (r: Option<Vec<char>>)
    ensures
        opt_view(r) == strip_prefix_char_of(s@, c),
{
    if s.len() > 0 && s[0] == c {
        Some(subvec(s, 1, s.len()))
    } else {
        None
    }
}

/// Whether the line `t`, already trimmed, is a comment: it begins with `#`
/// or with `//`.
pub open spec fn is_comment_of(t: Seq<char>) -> bool {
    (t.len() >= 1 && t[0] == '#') || (t.len() >= 2 && t[0] == '/' && t[1] == '/')
}

/// Whether the line `t`, already trimmed, is a comment.
pub fn is_comment_line(t: &Vec<char>) -> (r: bool)
    ensures
        r == is_comment_of(t@),
{
    (t.len() >= 1 && t[0] == '#') || (t.len() >= 2 && t[0] == '/' && t[1] == '/')
}

/// Whether two strings hold the same characters.
pub fn str_eq(a: &str, b: &str) -> (r: bool)
    ensures
        r == (a@ == b@),
{
    chars_eq(&to_chars(a), &to_chars(b))
}

/// Whether `x` occurs among the first `n` texts of `list`.
pub fn list_contains_before(list: &Vec<Vec<char>>, n: usize, x: &Vec<char>) -> (r: bool)
    requires
        n <= list.len(),
    ensures
        r == views(list@).take(n as int).contains(x@),
{
    let mut i: usize = 0;
    while i < n
        invariant
            i <= n <= list.len(),
            forall|k: int| 0 <= k < i ==> views(list@).take(n as int)[k] != x@,
        decreases n - i,
    {
        if chars_eq(&list[i], x) {
            assert(views(list@).take(n as int)[i as int] == x@);
            return true;
        }
        i += 1;
    }
    false
}

/// `s` with every occurrence of `pat` from `i` on, taken from left to right
/// without overlap, turned into `with`. An empty `pat` occurs nowhere.
pub open spec fn replace_from(s: Seq<char>, pat: Seq<char>, with: Seq<char>, i: int) -> Seq<char>
    decreases s.len() - i,
{
    if i < 0 || i >= s.len() {
        Seq::empty()
    } else if pat.len() > 0 && matches_at(s, pat, i) {
        with + replace_from(s, pat, with, i + pat.len())
    } else {
        seq![s[i]] + replace_from(s, pat, with, i + 1)
    }
}

/// `s` with every occurrence of `pat` turned into `with`.
pub open spec fn replace_of(s: Seq<char>, pat: Seq<char>, with: Seq<char>) -> Seq<char> {
    replace_from(s, pat, with, 0)
}

/// `s` with every occurrence of the literal `pat` turned into `with`.
pub fn replace(s: &Vec<char>, pat: &str, with: &Vec<char>) -> (r: Vec<char>)
    ensures
        r@ == replace_of(s@, pat@, with@),
{
    let p = to_chars(pat);
    let mut r: Vec<char> = Vec::new();
    let mut i: usize = 0;
    assert(replace_of(s@, p@, with@) =~= r@ + replace_from(s@, p@, with@, 0));
    while i < s.len()
        invariant
            i <= s.len(),
            replace_of(s@, p@, with@) == r@ + replace_from(s@, p@, with@, i as int),
        decreases s.len() - i,
    {
        let ghost before = r@;
        if p.len() > 0 && is_match_at(s, &p, i) {
            append(&mut r, with);
            assert(r@ + replace_from(s@, p@, with@, i + p@.len()) =~= before + (with@
                + replace_from(s@, p@, with@, i + p@.len())));
            i += p.len();
        } else {
            r.push(s[i]);
            assert(r@ + replace_from(s@, p@, with@, i + 1) =~= before + (seq![s@[i as int]]
                + replace_from(s@, p@, with@, i + 1)));
            i += 1;
        }
    }
    assert(r@ + Seq::<char>::empty() =~= r@);
    r
}

// ---------------------------------------------------------------------------
// Numbers
// ---------------------------------------------------------------------------
/// The character of the digit `d`.
pub open spec fn digit_of(d: nat) -> char {
    if d == 0 {
        '0'
    } else if d == 1 {
        '1'
    } else if d == 2 {
        '2'
    } else if d == 3 {
        '3'
    } else if d == 4 {
        '4'
    } else if d == 5 {
        '5'
    } else if d == 6 {
        '6'
    } else if d == 7 {
        '7'
    } else if d == 8 {
        '8'
    } else {
        '9'
    }
}

/// The decimal digits of `n`, without leading zeros.
pub open spec fn decimal_of(n: nat) -> Seq<char>
    decreases n,
{
    if n < 10 {
        seq![digit_of(n)]
    } else {
        decimal_of(n / 10).push(digit_of(n % 10))
    }
}

/// `digits` with zeros in front up to the length `width`.
pub open spec fn zero_padded_of(digits: Seq<char>, width: nat) -> Seq<char>
    decreases width - digits.len(),
{
    if digits.len() >= width {
        digits
    } else {
        zero_padded_of(seq!['0'] + digits, width)
    }
}

fn digit(d: u64) -> (c: char)
    requires
        d < 10,
    ensures
        c == digit_of(d as nat),
{
    if d == 0 {
        '0'
    } else if d == 1 {
        '1'
    } else if d == 2 {
        '2'
    } else if d == 3 {
        '3'
    } else if d == 4 {
        '4'
    } else if d == 5 {
        '5'
    } else if d == 6 {
        '6'
    } else if d == 7 {
        '7'
    } else if d == 8 {
        '8'
    } else {
        '9'
    }
}

/// The decimal digits of `n`, without leading zeros.
pub fn decimal(n: u64) -> (r: Vec<char>)
    ensures
        r@ == decimal_of(n as nat),
    decreases n,
{
    if n < 10 {
        let mut r: Vec<char> = Vec::new();
        r.push(digit(n));
        assert(r@ =~= seq![digit_of(n as nat)]);
        r
    } else {
        let mut r = decimal(n / 10);
        r.push(digit(n % 10));
        r
    }
}

/// The decimal digits of `n` with zeros in front up to the length `width`.
pub fn zero_padded(n: u64, width: usize) -> (r: Vec<char>)
    ensures
        r@ == zero_padded_of(decimal_of(n as nat), width as nat),
{
    let digits = decimal(n);
    if digits.len() >= width {
        return digits;
    }
    let pad: usize = width - digits.len();
    let mut zeros: Vec<char> = Vec::new();
    assert(zeros@ + digits@ =~= digits@);
    while zeros.len() < pad
        invariant
            pad == width - digits.len(),
            zeros.len() <= pad,
            all_zeros(zeros@),
            zero_padded_of(decimal_of(n as nat), width as nat) == zero_padded_of(
                zeros@ + digits@,
                width as nat,
            ),
            digits@ == decimal_of(n as nat),
        decreases pad - zeros.len(),
    {
        let ghost before = zeros@;
        zeros.push('0');
        assert(zeros@ + digits@ =~= seq!['0'] + (before + digits@)) by {
            lemma_zeros_commute(before);
        }
    }
    append(&mut zeros, &digits);
    zeros
}

/// Whether `s` holds zeros only.
pub open spec fn all_zeros(s: Seq<char>) -> bool {
    forall|i: int| 0 <= i < s.len() ==> s[i] == '0'
}

proof fn lemma_zeros_commute(zeros: Seq<char>)
    requires
        all_zeros(zeros),
    ensures
        zeros.push('0') =~= seq!['0'] + zeros,
{
}

// ---------------------------------------------------------------------------
// Lists without repetitions
// ---------------------------------------------------------------------------
/// The names of `s`, each once, in the order of their first occurrence.
pub open spec fn dedup_of(s: Seq<Seq<char>>) -> Seq<Seq<char>>
    decreases s.len(),
{
    if s.len() == 0 {
        Seq::empty()
    } else {
        let rest = dedup_of(s.drop_last());
        if rest.contains(s.last()) {
            rest
        } else {
            rest.push(s.last())
        }
    }
}

/// The names of `s`, each once, in the order of their first occurrence.
pub fn dedup(s: &Vec<Vec<char>>) -> (out: Vec<Vec<char>>)
    ensures
        views(out@) == dedup_of(views(s@)),
{
    let mut out: Vec<Vec<char>> = Vec::new();
    let mut i: usize = 0;
    while i < s.len()
        invariant
            i <= s.len(),
            views(out@) == dedup_of(views(s@).take(i as int)),
        decreases s.len() - i,
    {
        let ghost before = views(out@);
        assert(views(s@).take(i + 1).drop_last() =~= views(s@).take(i as int));
        if !list_contains(&out, &s[i]) {
            out.push(copy_chars(&s[i]));
            assert(views(out@) =~= before.push(s@[i as int]@));
        }
        i += 1;
    }
    assert(views(s@).take(s.len() as int) =~= views(s@));
    out
}

/// A list with one more text holds what it held, and that text.
pub proof fn lemma_push_contains(s: Seq<Seq<char>>, n: Seq<char>)
    ensures
        forall|x: Seq<char>| #[trigger] s.push(n).contains(x) <==> (s.contains(x) || x == n),
{
    assert forall|x: Seq<char>| #[trigger] s.push(n).contains(x) <==> (s.contains(x) || x
        == n) by {
        if s.contains(x) {
            let i = choose|i: int| 0 <= i < s.len() && s[i] == x;
            assert(s.push(n)[i] == x);
        }
        if x == n {
            assert(s.push(n)[s.len() as int] == x);
        }
        if s.push(n).contains(x) {
            let i = choose|i: int| 0 <= i < s.push(n).len() && s.push(n)[i] == x;
            if i < s.len() {
                assert(s[i] == x);
            }
        }
    }
}

/// A list without repetitions holds each text once and the same texts, and
/// it is the list itself where the list repeats nothing.
pub proof fn lemma_dedup(s: Seq<Seq<char>>)
    ensures
        dedup_of(s).no_duplicates(),
        forall|x: Seq<char>| #[trigger] dedup_of(s).contains(x) <==> s.contains(x),
        s.no_duplicates() ==> dedup_of(s) == s,
    decreases s.len(),
{
    if s.len() > 0 {
        let init = s.drop_last();
        lemma_dedup(init);
        lemma_push_contains(dedup_of(init), s.last());
        assert(s[s.len() - 1] == s.last());
        assert forall|x: Seq<char>| s.contains(x) <==> (init.contains(x) || x == s.last()) by {
            if init.contains(x) {
                let i = choose|i: int| 0 <= i < init.len() && init[i] == x;
                assert(s[i] == x);
            }
            if s.contains(x) {
                let i = choose|i: int| 0 <= i < s.len() && s[i] == x;
                if i < s.len() - 1 {
                    assert(init[i] == x);
                }
            }
        }
        if s.no_duplicates() {
            assert(init.no_duplicates());
            if init.contains(s.last()) {
                let i = choose|i: int| 0 <= i < init.len() && init[i] == s.last();
                assert(s[i] == s[s.len() - 1]);
            }
            assert(dedup_of(s) =~= s);
        }
    }
}

// ---------------------------------------------------------------------------
// Lines and joins
// ---------------------------------------------------------------------------
/// Whether `l` can stand as a line before a line feed and be read back as
/// it is: it holds no line feed and does not end with a carriage return.
pub open spec fn is_plain_line(l: Seq<char>) -> bool {
    (forall|k: int| 0 <= k < l.len() ==> l[k] != '\n') && !(l.len() > 0 && l.last() == '\r')
}

/// A run in a text that follows another text is the run in the text itself.
pub proof fn lemma_run_len_shift(p: Seq<char>, q: Seq<char>, c: char, k: int)
    requires
        0 <= k <= q.len(),
    ensures
        run_len(p + q, c, p.len() + k) == run_len(q, c, k),
    decreases q.len() - k,
{
    if k < q.len() {
        assert((p + q)[p.len() + k] == q[k]);
        if q[k] != c {
            lemma_run_len_shift(p, q, c, k + 1);
        }
    }
}

/// The lines of a text that follows another text are the lines of the text
/// itself.
pub proof fn lemma_lines_from_shift(p: Seq<char>, q: Seq<char>, k: int)
    requires
        0 <= k <= q.len(),
    ensures
        lines_from(p + q, p.len() + k) == lines_from(q, k),
    decreases q.len() - k,
{
    if k < q.len() {
        lemma_run_len_shift(p, q, '\n', k);
        lemma_run_len_bounds(q, '\n', k);
        let e = k + run_len(q, '\n', k);
        assert((p + q).subrange(p.len() + k, (p + q).len() as int) =~= q.subrange(
            k,
            q.len() as int,
        ));
        assert((p + q).subrange(p.len() + k, p.len() + e) =~= q.subrange(k, e));
        if e < q.len() {
            lemma_lines_from_shift(p, q, e + 1);
        }
    }
}

/// The lines of a text that begins with a line and a line feed are that
/// line, without the carriage return at its end, and the lines of the rest.
pub proof fn lemma_lines_of_first(l: Seq<char>, rest: Seq<char>)
    requires
        forall|k: int| 0 <= k < l.len() ==> l[k] != '\n',
    ensures
        lines_of(l + "\n"@ + rest) == seq![strip_cr(l)] + lines_of(rest),
{
    reveal_strlit("\n");
    let head = l + "\n"@;
    let s = head + rest;
    assert(head.len() == l.len() + 1);
    assert(s[l.len() as int] == '\n');
    lemma_run_len_bounds(s, '\n', 0);
    let r = run_len(s, '\n', 0);
    assert(r == l.len()) by {
        if r < l.len() {
            assert(s[r as int] == l[r as int]);
        }
    }
    assert(s.subrange(0, r as int) =~= l);
    lemma_lines_from_shift(head, rest, 0);
}

/// The lines of a text that is one line without a line feed.
pub proof fn lemma_lines_of_last(l: Seq<char>)
    requires
        l.len() > 0,
        forall|k: int| 0 <= k < l.len() ==> l[k] != '\n',
    ensures
        lines_of(l) == seq![l],
{
    lemma_run_len_bounds(l, '\n', 0);
    let r = run_len(l, '\n', 0);
    assert(r == l.len()) by {
        if r < l.len() {
            assert(l[r as int] == '\n');
        }
    }
    assert(l.subrange(0, l.len() as int) =~= l);
}

/// Plain lines, each followed by a line feed, are read back as they are,
/// before the lines of what follows them.
pub proof fn lemma_lines_of_join_then(ls: Seq<Seq<char>>, rest: Seq<char>)
    requires
        ls.len() > 0,
        forall|i: int| 0 <= i < ls.len() ==> is_plain_line(#[trigger] ls[i]),
    ensures
        lines_of(join_of(ls, "\n"@) + "\n"@ + rest) == ls + lines_of(rest),
    decreases ls.len(),
{
    let l = ls.last();
    assert(is_plain_line(ls[ls.len() - 1]));
    lemma_lines_of_first(l, rest);
    if ls.len() == 1 {
        assert(join_of(ls, "\n"@) == l);
        assert(ls =~= seq![l]);
    } else {
        let init = ls.drop_last();
        assert forall|i: int| 0 <= i < init.len() implies is_plain_line(#[trigger] init[i]) by {
            assert(init[i] == ls[i]);
        }
        let tail = l + "\n"@ + rest;
        lemma_lines_of_join_then(init, tail);
        assert(join_of(ls, "\n"@) + "\n"@ + rest =~= join_of(init, "\n"@) + "\n"@ + tail);
        assert(init + (seq![l] + lines_of(rest)) =~= ls + lines_of(rest));
    }
}

/// Lines that are joined by line feeds are read back as they are, where
/// every line but the last is plain and the last holds no line feed and is
/// not empty.
pub proof fn lemma_lines_of_join(ls: Seq<Seq<char>>)
    requires
        forall|i: int| 0 <= i < ls.len() - 1 ==> is_plain_line(#[trigger] ls[i]),
        ls.len() > 0 ==> ls.last().len() > 0 && forall|k: int|
            0 <= k < ls.last().len() ==> ls.last()[k] != '\n',
    ensures
        lines_of(join_of(ls, "\n"@)) == ls,
{
    if ls.len() == 0 {
    } else if ls.len() == 1 {
        lemma_lines_of_last(ls.last());
        assert(join_of(ls, "\n"@) == ls.last());
        assert(ls =~= seq![ls.last()]);
    } else {
        let init = ls.drop_last();
        let l = ls.last();
        assert forall|i: int| 0 <= i < init.len() implies is_plain_line(#[trigger] init[i]) by {
            assert(init[i] == ls[i]);
        }
        lemma_lines_of_join_then(init, l);
        lemma_lines_of_last(l);
        assert(init + seq![l] =~= ls);
    }
}

/// No line of a text holds a line feed.
pub proof fn lemma_lines_hold_no_line_feed(s: Seq<char>, start: int, i: int, k: int)
    requires
        0 <= start <= s.len(),
        0 <= i < lines_from(s, start).len(),
        0 <= k < lines_from(s, start)[i].len(),
    ensures
        lines_from(s, start)[i][k] != '\n',
    decreases s.len() - start,
{
    if start < s.len() {
        lemma_run_len_bounds(s, '\n', start);
        let e = start + run_len(s, '\n', start);
        if e >= s.len() {
            assert(lines_from(s, start)[0] == s.subrange(start, s.len() as int));
            assert(s.subrange(start, s.len() as int)[k] == s[start + k]);
        } else {
            let piece = s.subrange(start, e);
            let rest = lines_from(s, e + 1);
            assert(lines_from(s, start) == seq![strip_cr(piece)] + rest);
            if i == 0 {
                assert(strip_cr(piece)[k] == piece[k]);
                assert(piece[k] == s[start + k]);
            } else {
                assert(lines_from(s, start)[i] == rest[i - 1]);
                lemma_lines_hold_no_line_feed(s, e + 1, i - 1, k);
            }
        }
    }
}

} // verus!
