//! Character sequences: conversion between strings and character vectors,
//! literal search, line bounds and white space.
//!
//! Every grammar rule of the message codec is built from the searches defined
//! here, so each of them has a mathematical statement (`find_from`,
//! `rfind_in`, ...) and an executable function proved equal to it.

use vstd::prelude::*;
use vstd::slice::slice_subrange;

verus! {

/// `String::push` appends exactly one character to the end of the string.
pub assume_specification[ String::push ](s: &mut String, ch: char)
    ensures
        final(s)@ == old(s)@.push(ch),
;

/// The characters of `s`, in order.
pub fn to_chars(s: &str) -> (out: Vec<char>)
    ensures
        out@ == s@,
{
    let mut out: Vec<char> = Vec::new();
    for c in it: s.chars()
        invariant
            out@ == it.seq().take(it.index() as int),
            it.seq() == s@,
    {
        out.push(c);
    }
    out
}

/// The string made of the characters of `chars`, in order.
pub fn to_text(chars: &[char]) -> (out: String)
    ensures
        out@ == chars@,
{
    let mut out = String::new();
    let mut i: usize = 0;
    while i < chars.len()
        invariant
            i <= chars@.len(),
            out@ == chars@.take(i as int),
        decreases chars@.len() - i,
    {
        out.push(chars[i]);
        i += 1;
        assert(chars@.take(i as int) == chars@.take(i - 1).push(chars@[i - 1]));
    }
    out
}

/// The string made of `chars[from..to]`.
pub fn to_text_range(chars: &[char], from: usize, to: usize) -> (out: String)
    requires
        from <= to <= chars@.len(),
    ensures
        out@ == chars@.subrange(from as int, to as int),
{
    to_text(slice_subrange(chars, from, to))
}

/// `pat` stands in `s` at index `i`.
pub open spec fn occurs_at(s: Seq<char>, pat: Seq<char>, i: int) -> bool {
    &&& 0 <= i
    &&& i + pat.len() <= s.len()
    &&& s.subrange(i, i + pat.len()) == pat
}

/// The least index `i >= from` at which `pat` stands in `s`, if there is one.
pub open spec fn find_from(s: Seq<char>, pat: Seq<char>, from: int) -> Option<int>
    decreases s.len() - from + 1,
{
    if from < 0 || from + pat.len() > s.len() {
        None
    } else if occurs_at(s, pat, from) {
        Some(from)
    } else {
        find_from(s, pat, from + 1)
    }
}

/// The greatest index `i` with `lo <= i <= hi` at which `pat` stands in `s`,
/// if there is one.
pub open spec fn rfind_in(s: Seq<char>, pat: Seq<char>, lo: int, hi: int) -> Option<int>
    decreases hi - lo + 1,
{
    if hi < lo {
        None
    } else if occurs_at(s, pat, hi) {
        Some(hi)
    } else {
        rfind_in(s, pat, lo, hi - 1)
    }
}

/// `find_from` returns the first occurrence at or after `from`: the pattern
/// stands at the index found and at no index between `from` and it; when
/// nothing is found the pattern stands nowhere from `from` on.
pub proof fn lemma_find_from(s: Seq<char>, pat: Seq<char>, from: int)
    requires
        0 <= from,
    ensures
        match find_from(s, pat, from) {
            Some(i) => from <= i && occurs_at(s, pat, i) && forall|k: int|
                from <= k < i ==> !occurs_at(s, pat, k),
            None => forall|k: int| from <= k ==> !occurs_at(s, pat, k),
        },
    decreases s.len() - from + 1,
{
    if from + pat.len() > s.len() {
    } else if occurs_at(s, pat, from) {
    } else {
        lemma_find_from(s, pat, from + 1);
    }
}

/// `rfind_in` returns the last occurrence in `lo..=hi`: the pattern stands at
/// the index found and at no later index up to `hi`; when nothing is found
/// the pattern stands nowhere in `lo..=hi`.
pub proof fn lemma_rfind_in(s: Seq<char>, pat: Seq<char>, lo: int, hi: int)
    ensures
        match rfind_in(s, pat, lo, hi) {
            Some(i) => lo <= i <= hi && occurs_at(s, pat, i) && forall|k: int|
                i < k <= hi ==> !occurs_at(s, pat, k),
            None => forall|k: int| lo <= k <= hi ==> !occurs_at(s, pat, k),
        },
    decreases hi - lo + 1,
{
    if hi < lo {
    } else if occurs_at(s, pat, hi) {
    } else {
        lemma_rfind_in(s, pat, lo, hi - 1);
    }
}

/// Whether `pat` stands in `s` at index `i`.
pub fn starts_at(s: &[char], pat: &[char], i: usize) -> (b: bool)
    ensures
        b == occurs_at(s@, pat@, i as int),
{
    if pat.len() > s.len() || i > s.len() - pat.len() {
        return false;
    }
    let mut k: usize = 0;
    while k < pat.len()
        invariant
            k <= pat.len(),
            i + pat.len() <= s.len(),
            forall|j: int| 0 <= j < k ==> s@[i + j] == pat@[j],
        decreases pat@.len() - k,
    {
        if s[i + k] != pat[k] {
            assert(s@.subrange(i as int, i + pat@.len())[k as int] == s@[i + k]);
            return false;
        }
        k += 1;
    }
    assert(s@.subrange(i as int, i + pat@.len()) =~= pat@);
    true
}

/// The first index at or after `from` at which `pat` stands in `s`.
pub fn find(s: &[char], pat: &[char], from: usize) -> (r: Option<usize>)
    ensures
        match r {
            Some(i) => find_from(s@, pat@, from as int) == Some(i as int) && from <= i && i
                + pat.len() <= s.len(),
            None => find_from(s@, pat@, from as int) is None,
        },
{
    if pat.len() > s.len() || from > s.len() - pat.len() {
        return None;
    }
    let last: usize = s.len() - pat.len();
    let mut i: usize = from;
    loop
        invariant
            from <= i <= last,
            last == s.len() - pat.len(),
            find_from(s@, pat@, from as int) == find_from(s@, pat@, i as int),
        decreases last - i,
    {
        if starts_at(s, pat, i) {
            return Some(i);
        }
        if i == last {
            assert(find_from(s@, pat@, last + 1) is None);
            return None;
        }
        i += 1;
    }
}

/// The last index in `lo..=hi` at which `pat` stands in `s`.
pub fn rfind(s: &[char], pat: &[char], lo: usize, hi: usize) -> (r: Option<usize>)
    ensures
        match r {
            Some(i) => rfind_in(s@, pat@, lo as int, hi as int) == Some(i as int) && lo <= i <= hi
                && i + pat.len() <= s.len(),
            None => rfind_in(s@, pat@, lo as int, hi as int) is None,
        },
{
    if hi < lo {
        return None;
    }
    let mut i: usize = hi;
    loop
        invariant
            lo <= i <= hi,
            rfind_in(s@, pat@, lo as int, hi as int) == rfind_in(s@, pat@, lo as int, i as int),
        decreases i - lo,
    {
        if starts_at(s, pat, i) {
            return Some(i);
        }
        if i == lo {
            assert(rfind_in(s@, pat@, lo as int, lo - 1) is None);
            return None;
        }
        i -= 1;
    }
}

/// The number of characters of `s` from `from` up to the next `c`, or up to
/// the end of `s` if no `c` follows.
pub open spec fn until(s: Seq<char>, c: char, from: int) -> nat
    decreases s.len() - from,
{
    if 0 <= from < s.len() && s[from] != c {
        1 + until(s, c, from + 1)
    } else {
        0
    }
}

/// `until` stops at the first `c` at or after `from`, or at the end of `s`.
pub proof fn lemma_until(s: Seq<char>, c: char, from: int)
    requires
        0 <= from <= s.len(),
    ensures
        from + until(s, c, from) <= s.len(),
        from + until(s, c, from) < s.len() ==> s[from + until(s, c, from)] == c,
        forall|j: int| from <= j < from + until(s, c, from) ==> s[j] != c,
    decreases s.len() - from,
{
    if from < s.len() && s[from] != c {
        lemma_until(s, c, from + 1);
    }
}

/// A stretch without `c` is passed over as a whole.
pub proof fn lemma_until_skips(s: Seq<char>, c: char, from: int, to: int)
    requires
        0 <= from <= to <= s.len(),
        forall|j: int| from <= j < to ==> s[j] != c,
    ensures
        from + until(s, c, from) == to + until(s, c, to),
    decreases to - from,
{
    if from < to {
        lemma_until_skips(s, c, from + 1, to);
    }
}

/// The index of the next `c` at or after `from`, or the length of `s`.
pub fn skip_until(s: &[char], c: char, from: usize) -> (to: usize)
    requires
        from <= s.len(),
    ensures
        to == from + until(s@, c, from as int),
        from <= to <= s.len(),
{
    let mut i: usize = from;
    while i < s.len() && s[i] != c
        invariant
            from <= i <= s.len(),
            from + until(s@, c, from as int) == i + until(s@, c, i as int),
        decreases s.len() - i,
    {
        i += 1;
    }
    i
}

/// The index just after the last line feed before `at`, or 0 if there is
/// none: the start of the line that holds index `at`.
pub open spec fn line_start(s: Seq<char>, at: int) -> int
    decreases at,
{
    if at <= 0 {
        0
    } else if at <= s.len() && s[at - 1] == '\n' {
        at
    } else {
        line_start(s, at - 1)
    }
}

/// The start of a line lies at or before the index, and no line feed
/// stands between them.
pub proof fn lemma_line_start(s: Seq<char>, at: int)
    requires
        0 <= at <= s.len(),
    ensures
        0 <= line_start(s, at) <= at,
        forall|k: int| line_start(s, at) <= k < at ==> s[k] != '\n',
    decreases at,
{
    if at > 0 && s[at - 1] != '\n' {
        lemma_line_start(s, at - 1);
    }
}

/// Indices with no line feed between them lie on one line.
pub proof fn lemma_line_start_skips(s: Seq<char>, from: int, to: int)
    requires
        0 <= from <= to <= s.len(),
        forall|k: int| from <= k < to ==> s[k] != '\n',
    ensures
        line_start(s, to) == line_start(s, from),
    decreases to - from,
{
    if from < to {
        lemma_line_start_skips(s, from, to - 1);
    }
}

/// The index of the first line feed at or after `at`, or the length of `s`
/// if there is none: the end of the line that holds index `at`.
pub open spec fn line_end(s: Seq<char>, at: int) -> int {
    at + until(s, '\n', at)
}

/// The start of the line that holds index `at`.
pub fn start_of_line(s: &[char], at: usize) -> (r: usize)
    requires
        at <= s@.len(),
    ensures
        r == line_start(s@, at as int),
        r <= at,
{
    let mut i: usize = at;
    while i > 0 && s[i - 1] != '\n'
        invariant
            i <= at <= s@.len(),
            line_start(s@, at as int) == line_start(s@, i as int),
        decreases i,
    {
        i -= 1;
    }
    i
}

/// The end of the line that holds index `at`.
pub fn end_of_line(s: &[char], at: usize) -> (r: usize)
    requires
        at <= s@.len(),
    ensures
        r == line_end(s@, at as int),
        at <= r <= s@.len(),
{
    skip_until(s, '\n', at)
}

/// White space: the characters with the Unicode property `White_Space`.
pub open spec fn white_space(c: char) -> bool {
    let u = c as u32;
    ||| 0x09 <= u <= 0x0D
    ||| u == 0x20
    ||| u == 0x85
    ||| u == 0xA0
    ||| u == 0x1680
    ||| 0x2000 <= u <= 0x200A
    ||| u == 0x2028
    ||| u == 0x2029
    ||| u == 0x202F
    ||| u == 0x205F
    ||| u == 0x3000
}

/// Whether `c` is white space.
pub fn is_white_space(c: char) -> (b: bool)
    ensures
        b == white_space(c),
{
    let u: u32 = c as u32;
    (0x09 <= u && u <= 0x0D) || u == 0x20 || u == 0x85 || u == 0xA0 || u == 0x1680 || (0x2000 <= u
        && u <= 0x200A) || u == 0x2028 || u == 0x2029 || u == 0x202F || u == 0x205F || u == 0x3000
}

/// The index of the first character at or after `from` that is not white
/// space, or the length of `s`.
pub open spec fn skip_space(s: Seq<char>, from: int) -> int
    decreases s.len() - from,
{
    if 0 <= from < s.len() && white_space(s[from]) {
        skip_space(s, from + 1)
    } else {
        from
    }
}

/// The index just after the last character before `to` that is not white
/// space, or 0.
pub open spec fn skip_space_back(s: Seq<char>, to: int) -> int
    decreases to,
{
    if 0 < to <= s.len() && white_space(s[to - 1]) {
        skip_space_back(s, to - 1)
    } else {
        to
    }
}

/// `s` without its leading and trailing white space.
pub open spec fn trimmed(s: Seq<char>) -> Seq<char> {
    let from = skip_space(s, 0);
    let to = skip_space_back(s, s.len() as int);
    if from < to {
        s.subrange(from, to)
    } else {
        Seq::empty()
    }
}

/// The bounds of `s` without its leading and trailing white space: `(0, 0)`
/// when nothing but white space is in it.
pub fn trim_bounds(s: &[char]) -> (r: (usize, usize))
    ensures
        r.0 <= r.1 <= s@.len(),
        s@.subrange(r.0 as int, r.1 as int) == trimmed(s@),
{
    let mut from: usize = 0;
    while from < s.len() && is_white_space(s[from])
        invariant
            from <= s@.len(),
            skip_space(s@, 0) == skip_space(s@, from as int),
        decreases s@.len() - from,
    {
        from += 1;
    }
    let mut to: usize = s.len();
    while to > 0 && is_white_space(s[to - 1])
        invariant
            to <= s@.len(),
            skip_space_back(s@, s@.len() as int) == skip_space_back(s@, to as int),
        decreases to,
    {
        to -= 1;
    }
    if from < to {
        (from, to)
    } else {
        assert(s@.subrange(0, 0) =~= Seq::<char>::empty());
        (0, 0)
    }
}

} // verus!
