//! Character-level text helpers with exact specifications over `Seq<char>`.

use vstd::prelude::*;
use vstd::string::*;

verus! {

/// Appends one character to a string (`String::push`).
#[verifier::external_body]
pub(crate) fn push_char(s: &mut String, c: char)
    ensures
        final(s)@ == old(s)@.push(c),
{
    s.push(c);
}

/// The characters of `s`, in order.
pub fn chars_of(s: &str) -> (v: Vec<char>)
    ensures
        v@ == s@,
{
    let mut v: Vec<char> = Vec::new();
    for c in it: s.chars()
        invariant
            v@ == it.seq().take(it.index() as int),
            it.seq() == s@,
    {
        v.push(c);
    }
    v
}

/// Appends the characters `v[from..to]` to `s`.
pub fn push_chars(s: &mut String, v: &[char], from: usize, to: usize)
    requires
        from <= to <= v@.len(),
    ensures
        final(s)@ == old(s)@ + v@.subrange(from as int, to as int),
{
    let mut i: usize = from;
    while i < to
        invariant
            from <= i <= to <= v@.len(),
            s@ == old(s)@ + v@.subrange(from as int, i as int),
        decreases to - i,
    {
        push_char(s, v[i]);
        assert(v@.subrange(from as int, i + 1) =~= v@.subrange(from as int, i as int).push(
            v@[i as int],
        ));
        i = i + 1;
    }
}

/// Appends the text `t` to `s`.
pub fn push_text(s: &mut String, t: &str)
    ensures
        final(s)@ == old(s)@ + t@,
{
    let v = chars_of(t);
    push_chars(s, &v, 0, v.len());
    assert(v@.subrange(0, v@.len() as int) =~= v@);
}

/// Builds a string holding exactly the given characters.
pub fn string_of(v: &[char]) -> (s: String)
    ensures
        s@ == v@,
{
    let mut s = String::new();
    push_chars(&mut s, v, 0, v.len());
    assert(v@.subrange(0, v@.len() as int) =~= v@);
    s
}

/// Whether two texts hold the same characters.
pub fn same_text(a: &str, b: &str) -> (r: bool)
    ensures
        r == (a@ == b@),
{
    let x = chars_of(a);
    let y = chars_of(b);
    same_chars(&x, &y)
}

/// Whether two character sequences are equal.
pub fn same_chars(x: &[char], y: &[char]) -> (r: bool)
    ensures
        r == (x@ == y@),
{
    if x.len() != y.len() {
        return false;
    }
    let mut i: usize = 0;
    while i < x.len()
        invariant
            x@.len() == y@.len(),
            i <= x@.len(),
            forall|j: int| 0 <= j < i ==> x@[j] == y@[j],
        decreases x@.len() - i,
    {
        if x[i] != y[i] {
            return false;
        }
        i = i + 1;
    }
    assert(x@ =~= y@);
    true
}

/// Unicode `White_Space`, the set that `char::is_whitespace` tests.
pub open spec fn is_white(c: char) -> bool {
    ||| ('\u{9}' <= c && c <= '\u{d}')
    ||| c == ' '
    ||| c == '\u{85}'
    ||| c == '\u{a0}'
    ||| c == '\u{1680}'
    ||| ('\u{2000}' <= c && c <= '\u{200a}')
    ||| c == '\u{2028}'
    ||| c == '\u{2029}'
    ||| c == '\u{202f}'
    ||| c == '\u{205f}'
    ||| c == '\u{3000}'
}

/// Tests `is_white`.
pub fn is_white_char(c: char) -> (r: bool)
    ensures
        r == is_white(c),
{
    ('\u{9}' <= c && c <= '\u{d}') || c == ' ' || c == '\u{85}' || c == '\u{a0}' || c
        == '\u{1680}' || ('\u{2000}' <= c && c <= '\u{200a}') || c == '\u{2028}' || c
        == '\u{2029}' || c == '\u{202f}' || c == '\u{205f}' || c == '\u{3000}'
}

/// The index of the first character at or after `i` that is not white space
/// (the length of `s` if there is none).
pub open spec fn skip_white(s: Seq<char>, i: int) -> int
    decreases s.len() - i,
{
    if 0 <= i < s.len() && is_white(s[i]) {
        skip_white(s, i + 1)
    } else {
        i
    }
}

/// Moving back from `j` (but not below `lo`), the index just after the last
/// character that is not white space.
pub open spec fn skip_white_back(s: Seq<char>, lo: int, j: int) -> int
    decreases j - lo,
{
    if lo < j <= s.len() && is_white(s[j - 1]) {
        skip_white_back(s, lo, j - 1)
    } else {
        j
    }
}

/// `str::trim`: `s` without its leading and trailing white space.
pub open spec fn trim(s: Seq<char>) -> Seq<char> {
    let a = skip_white(s, 0);
    s.subrange(a, skip_white_back(s, a, s.len() as int))
}

proof fn lemma_skip_white_bounds(s: Seq<char>, i: int)
    requires
        0 <= i <= s.len(),
    ensures
        i <= skip_white(s, i) <= s.len(),
    decreases s.len() - i,
{
    if i < s.len() && is_white(s[i]) {
        lemma_skip_white_bounds(s, i + 1);
    }
}

proof fn lemma_skip_white_back_bounds(s: Seq<char>, lo: int, j: int)
    requires
        0 <= lo <= j <= s.len(),
    ensures
        lo <= skip_white_back(s, lo, j) <= j,
    decreases j - lo,
{
    if lo < j && is_white(s[j - 1]) {
        lemma_skip_white_back_bounds(s, lo, j - 1);
    }
}

/// The bounds `(a, b)` such that `trim(v) == v[a..b]`.
pub fn trim_bounds(v: &[char]) -> (r: (usize, usize))
    ensures
        r.0 == skip_white(v@, 0),
        r.1 == skip_white_back(v@, r.0 as int, v@.len() as int),
        r.0 <= r.1 <= v@.len(),
        trim(v@) == v@.subrange(r.0 as int, r.1 as int),
{
    let mut a: usize = 0;
    while a < v.len() && is_white_char(v[a])
        invariant
            a <= v@.len(),
            skip_white(v@, 0) == skip_white(v@, a as int),
        decreases v@.len() - a,
    {
        a = a + 1;
    }
    let mut b: usize = v.len();
    while b > a && is_white_char(v[b - 1])
        invariant
            a <= b <= v@.len(),
            skip_white_back(v@, a as int, v@.len() as int) == skip_white_back(
                v@,
                a as int,
                b as int,
            ),
        decreases b - a,
    {
        b = b - 1;
    }
    (a, b)
}

/// `str::trim`.
pub fn trim_text(s: &str) -> (r: Vec<char>)
    ensures
        r@ == trim(s@),
{
    let v = chars_of(s);
    let (a, b) = trim_bounds(&v);
    let mut r: Vec<char> = Vec::new();
    let mut i: usize = a;
    while i < b
        invariant
            a <= i <= b <= v@.len(),
            r@ == v@.subrange(a as int, i as int),
        decreases b - i,
    {
        r.push(v[i]);
        assert(v@.subrange(a as int, i + 1) =~= v@.subrange(a as int, i as int).push(
            v@[i as int],
        ));
        i = i + 1;
    }
    r
}

} // verus!

verus! {

/// `s` holds no occurrence of `c`.
pub open spec fn lacks(s: Seq<char>, c: char) -> bool {
    forall|i: int| 0 <= i < s.len() ==> s[i] != c
}

/// A copy of `v[from..to]`.
pub fn sub_chars(v: &[char], from: usize, to: usize) -> (r: Vec<char>)
    requires
        from <= to <= v@.len(),
    ensures
        r@ == v@.subrange(from as int, to as int),
{
    let mut r: Vec<char> = Vec::new();
    let mut i: usize = from;
    while i < to
        invariant
            from <= i <= to <= v@.len(),
            r@ == v@.subrange(from as int, i as int),
        decreases to - i,
    {
        r.push(v[i]);
        assert(v@.subrange(from as int, i + 1) =~= v@.subrange(from as int, i as int).push(
            v@[i as int],
        ));
        i = i + 1;
    }
    r
}

/// Whether `p` occurs in `s` at index `i`.
pub open spec fn occurs_at(s: Seq<char>, p: Seq<char>, i: int) -> bool {
    0 <= i && i + p.len() <= s.len() && s.subrange(i, i + p.len()) == p
}

/// Whether `p` occurs in `v` at index `i`.
pub fn occurs_at_index(v: &[char], p: &[char], i: usize) -> (r: bool)
    ensures
        r == occurs_at(v@, p@, i as int),
{
    if i > v.len() || p.len() > v.len() - i {
        return false;
    }
    let mut k: usize = 0;
    while k < p.len()
        invariant
            i + p.len() <= v.len(),
            k <= p@.len(),
            forall|j: int| 0 <= j < k ==> v@[i + j] == p@[j],
        decreases p@.len() - k,
    {
        if v[i + k] != p[k] {
            assert(v@.subrange(i as int, i + p@.len())[k as int] != p@[k as int]);
            return false;
        }
        k = k + 1;
    }
    assert(v@.subrange(i as int, i + p@.len()) =~= p@);
    true
}

/// Whether `s` starts with `p`.
pub open spec fn starts_with(s: Seq<char>, p: Seq<char>) -> bool {
    occurs_at(s, p, 0)
}

/// Whether `s` ends with `p`.
pub open spec fn ends_with(s: Seq<char>, p: Seq<char>) -> bool {
    p.len() <= s.len() && occurs_at(s, p, s.len() - p.len())
}

/// The first index at which `p` occurs in `s`, if any.
#[verifier::opaque]
pub open spec fn first_occurrence(s: Seq<char>, p: Seq<char>) -> Option<int> {
    if exists|i: int| occurs_at(s, p, i) {
        Some(choose|i: int| occurs_at(s, p, i) && forall|j: int| 0 <= j < i ==> !occurs_at(s, p, j))
    } else {
        None
    }
}

/// The first index at which `p` occurs in `v`, if any.
pub fn find_chars(v: &[char], p: &[char]) -> (r: Option<usize>)
    ensures
        r matches Some(i) ==> first_occurrence(v@, p@) == Some(i as int) && occurs_at(
            v@,
            p@,
            i as int,
        ),
        r is None ==> first_occurrence(v@, p@) is None,
{
    reveal(first_occurrence);
    let mut i: usize = 0;
    loop
        invariant
            i <= v@.len(),
            forall|j: int| 0 <= j < i ==> !occurs_at(v@, p@, j),
        ensures
            i == v@.len(),
            forall|j: int| 0 <= j <= i ==> !occurs_at(v@, p@, j),
        decreases v@.len() - i,
    {
        if occurs_at_index(v, p, i) {
            proof {
                reveal(first_occurrence);
                let w = choose|w: int|
                    occurs_at(v@, p@, w) && forall|j: int| 0 <= j < w ==> !occurs_at(v@, p@, j);
                assert(occurs_at(v@, p@, w));
                if w < i {
                    assert(!occurs_at(v@, p@, w));
                }
                if i < w {
                    assert(!occurs_at(v@, p@, i as int));
                }
            }
            return Some(i);
        }
        if i >= v.len() {
            break;
        }
        i = i + 1;
    }
    assert forall|j: int| !occurs_at(v@, p@, j) by {
        if 0 <= j && j <= i {
        }
    }
    None
}

} // verus!

verus! {

/// `str::replacen(p, r, 1)` for a non-empty pattern: `s` with its first
/// occurrence of `p`, if any, replaced by `r`.
pub open spec fn replace_first(s: Seq<char>, p: Seq<char>, r: Seq<char>) -> Seq<char> {
    match first_occurrence(s, p) {
        Some(i) => s.subrange(0, i) + r + s.subrange(i + p.len(), s.len() as int),
        None => s,
    }
}

/// Replaces the first occurrence of `p` in `s` by `r`.
pub fn replace_first_text(s: &str, p: &str, r: &str) -> (out: String)
    ensures
        out@ == replace_first(s@, p@, r@),
{
    let v = chars_of(s);
    let pv = chars_of(p);
    let found = find_chars(&v, &pv);
    match found {
        Some(i) => {
            assert(i + pv@.len() <= v@.len());
            assert(i + pv.len() <= v.len());
            let mut out = String::new();
            push_chars(&mut out, &v, 0, i);
            push_text(&mut out, r);
            push_chars(&mut out, &v, i + pv.len(), v.len());
            out
        },
        None => string_of(&v),
    }
}

/// The index of the first `c` in `s`, or the length of `s` if there is none.
pub open spec fn index_of_or_len(s: Seq<char>, c: char, i: int) -> int
    decreases s.len() - i,
{
    if 0 <= i < s.len() && s[i] != c {
        index_of_or_len(s, c, i + 1)
    } else {
        i
    }
}

/// `s` up to (not including) its first line feed.
pub open spec fn before_line_feed(s: Seq<char>) -> Seq<char> {
    s.subrange(0, index_of_or_len(s, '\n', 0))
}

pub proof fn lemma_index_of_or_len_bounds(s: Seq<char>, c: char, i: int)
    requires
        0 <= i <= s.len(),
    ensures
        i <= index_of_or_len(s, c, i) <= s.len(),
    decreases s.len() - i,
{
    if i < s.len() && s[i] != c {
        lemma_index_of_or_len_bounds(s, c, i + 1);
    }
}

/// The index of the first line feed in `v`, or its length.
pub fn line_feed_index(v: &[char]) -> (r: usize)
    ensures
        r == index_of_or_len(v@, '\n', 0),
        r <= v@.len(),
{
    index_of_char_from(v, '\n', 0)
}

/// The index of the first `c` in `v` at or after `from`, or the length of `v`.
pub fn index_of_char_from(v: &[char], c: char, from: usize) -> (r: usize)
    requires
        from <= v@.len(),
    ensures
        r == index_of_or_len(v@, c, from as int),
        from <= r <= v@.len(),
{
    let mut i: usize = from;
    while i < v.len() && v[i] != c
        invariant
            from <= i <= v@.len(),
            index_of_or_len(v@, c, from as int) == index_of_or_len(v@, c, i as int),
        decreases v@.len() - i,
    {
        i = i + 1;
    }
    i
}

/// The index just after the last white-space character before `j` (0 if none).
pub open spec fn after_last_white(s: Seq<char>, j: int) -> int
    decreases j,
{
    if 0 < j <= s.len() && !is_white(s[j - 1]) {
        after_last_white(s, j - 1)
    } else {
        j
    }
}

/// The last white-space separated word of a text without surrounding white
/// space (`split_whitespace().last()`, empty for an empty text).
pub open spec fn last_word(t: Seq<char>) -> Seq<char> {
    t.subrange(after_last_white(t, t.len() as int), t.len() as int)
}

/// The start of the last word of `v`.
pub fn last_word_start(v: &[char]) -> (r: usize)
    ensures
        r == after_last_white(v@, v@.len() as int),
        r <= v@.len(),
{
    let mut j: usize = v.len();
    while j > 0 && !is_white_char(v[j - 1])
        invariant
            j <= v@.len(),
            after_last_white(v@, v@.len() as int) == after_last_white(v@, j as int),
        decreases j,
    {
        j = j - 1;
    }
    j
}

/// Whether `s` holds an ASCII digit.
pub open spec fn has_ascii_digit(s: Seq<char>) -> bool {
    exists|i: int| 0 <= i < s.len() && '0' <= s[i] && s[i] <= '9'
}

/// Whether `v[from..to]` holds an ASCII digit.
pub fn has_ascii_digit_in(v: &[char], from: usize, to: usize) -> (r: bool)
    requires
        from <= to <= v@.len(),
    ensures
        r == has_ascii_digit(v@.subrange(from as int, to as int)),
{
    let ghost w = v@.subrange(from as int, to as int);
    let mut i: usize = from;
    while i < to
        invariant
            from <= i <= to <= v@.len(),
            w == v@.subrange(from as int, to as int),
            forall|j: int| from <= j < i ==> !('0' <= v@[j] && v@[j] <= '9'),
        decreases to - i,
    {
        if '0' <= v[i] && v[i] <= '9' {
            assert(w[i - from] == v@[i as int]);
            return true;
        }
        i = i + 1;
    }
    assert forall|k: int| 0 <= k < w.len() implies !('0' <= w[k] && w[k] <= '9') by {
        assert(w[k] == v@[from + k]);
    }
    false
}

/// `n` spaces.
pub open spec fn spaces(n: nat) -> Seq<char> {
    Seq::new(n, |i: int| ' ')
}

/// Appends `n` spaces.
pub fn push_spaces(s: &mut String, n: usize)
    ensures
        final(s)@ == old(s)@ + spaces(n as nat),
{
    let mut i: usize = 0;
    while i < n
        invariant
            i <= n,
            s@ == old(s)@ + spaces(i as nat),
        decreases n - i,
    {
        push_char(s, ' ');
        assert(spaces((i + 1) as nat) =~= spaces(i as nat).push(' '));
        i = i + 1;
    }
}

} // verus!

verus! {

/// Trimming never makes a text longer.
pub proof fn lemma_trim_len(s: Seq<char>)
    ensures
        trim(s).len() <= s.len(),
{
    lemma_skip_white_bounds(s, 0);
    lemma_skip_white_back_bounds(s, skip_white(s, 0), s.len() as int);
}

} // verus!

verus! {

/// `str::replace(p, r)` applied to `s` from index `i` on: every occurrence of
/// `p` (left to right, not overlapping) replaced by `r`; for an empty `p`, `r`
/// before every character and at the end.
pub open spec fn replace_all_from(s: Seq<char>, p: Seq<char>, r: Seq<char>, i: int) -> Seq<char>
    decreases s.len() - i,
{
    if i < 0 || i > s.len() {
        seq![]
    } else if p.len() == 0 {
        if i == s.len() {
            r
        } else {
            r + seq![s[i]] + replace_all_from(s, p, r, i + 1)
        }
    } else if occurs_at(s, p, i) {
        r + replace_all_from(s, p, r, i + p.len())
    } else if i < s.len() {
        seq![s[i]] + replace_all_from(s, p, r, i + 1)
    } else {
        seq![]
    }
}

/// `str::replace(p, r)`.
pub open spec fn replace_all(s: Seq<char>, p: Seq<char>, r: Seq<char>) -> Seq<char> {
    replace_all_from(s, p, r, 0)
}

/// Replaces every occurrence of `p` in `s` by `r` (see `replace_all`).
pub fn replace_all_text(s: &str, p: &str, r: &str) -> (out: String)
    ensures
        out@ == replace_all(s@, p@, r@),
{
    let v = chars_of(s);
    let pv = chars_of(p);
    let mut out = String::new();
    let mut i: usize = 0;
    while i < v.len()
        invariant
            i <= v@.len(),
            out@ + replace_all_from(v@, pv@, r@, i as int) == replace_all(v@, pv@, r@),
        decreases v@.len() - i,
    {
        if pv.len() == 0 {
            push_text(&mut out, r);
            push_char(&mut out, v[i]);
            i = i + 1;
        } else if occurs_at_index(&v, &pv, i) {
            push_text(&mut out, r);
            i = i + pv.len();
        } else {
            push_char(&mut out, v[i]);
            i = i + 1;
        }
    }
    if pv.len() == 0 {
        push_text(&mut out, r);
    }
    out
}

/// The index of the first `a` or `b` in `v` at or after `from`, or the length
/// of `v` where there is none.
pub fn scan_until(v: &[char], from: usize, a: char, b: char) -> (r: usize)
    requires
        from <= v@.len(),
    ensures
        from <= r <= v@.len(),
        forall|j: int| from <= j < r ==> v@[j] != a && v@[j] != b,
        r < v@.len() ==> v@[r as int] == a || v@[r as int] == b,
{
    let mut i: usize = from;
    while i < v.len() && v[i] != a && v[i] != b
        invariant
            from <= i <= v@.len(),
            forall|j: int| from <= j < i ==> v@[j] != a && v@[j] != b,
        decreases v@.len() - i,
    {
        i = i + 1;
    }
    i
}

/// `skip_white` stops at a character that is not white space, or at the end.
proof fn lemma_skip_white_stops(s: Seq<char>, i: int)
    requires
        0 <= i <= s.len(),
    ensures
        skip_white(s, i) < s.len() ==> !is_white(s[skip_white(s, i)]),
    decreases s.len() - i,
{
    if i < s.len() && is_white(s[i]) {
        lemma_skip_white_stops(s, i + 1);
    }
}

/// `skip_white_back` stops after a character that is not white space, or at
/// its lower bound.
proof fn lemma_skip_white_back_stops(s: Seq<char>, lo: int, j: int)
    requires
        0 <= lo <= j <= s.len(),
    ensures
        skip_white_back(s, lo, j) > lo ==> !is_white(s[skip_white_back(s, lo, j) - 1]),
    decreases j - lo,
{
    if lo < j && is_white(s[j - 1]) {
        lemma_skip_white_back_stops(s, lo, j - 1);
    }
}

/// A trimmed text that is not empty begins and ends with a character that is
/// not white space.
pub proof fn lemma_trim_ends_not_white(s: Seq<char>)
    ensures
        trim(s).len() > 0 ==> !is_white(trim(s)[0]) && !is_white(trim(s)[trim(s).len() - 1]),
{
    lemma_skip_white_bounds(s, 0);
    let a = skip_white(s, 0);
    lemma_skip_white_back_bounds(s, a, s.len() as int);
    lemma_skip_white_stops(s, 0);
    lemma_skip_white_back_stops(s, a, s.len() as int);
}

/// In `a + "\n" + rest`, where `a` holds no line feed, the first line feed
/// from 0 is the one after `a`.
pub proof fn lemma_first_line_feed(a: Seq<char>, rest: Seq<char>)
    requires
        lacks(a, '\n'),
    ensures
        index_of_or_len(a + seq!['\n'] + rest, '\n', 0) == a.len(),
{
    let s = a + seq!['\n'] + rest;
    assert forall|i: int| 0 <= i <= a.len() implies index_of_or_len(s, '\n', i) == a.len() by {
        lemma_line_feed_from(a, rest, i);
    }
}

proof fn lemma_line_feed_from(a: Seq<char>, rest: Seq<char>, i: int)
    requires
        lacks(a, '\n'),
        0 <= i <= a.len(),
    ensures
        index_of_or_len(a + seq!['\n'] + rest, '\n', i) == a.len(),
    decreases a.len() - i,
{
    let s = a + seq!['\n'] + rest;
    if i < a.len() {
        assert(s[i] == a[i]);
        lemma_line_feed_from(a, rest, i + 1);
    } else {
        assert(s[i] == '\n');
    }
}

} // verus!
