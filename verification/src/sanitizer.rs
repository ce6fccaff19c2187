//! Removal of terminal escape sequences and of control characters.
//!
//! An escape sequence starts with the escape character. It is followed
//! either by one character in `@`..=`Z` or `\`..=`_`, or by `[`, any number
//! of parameter characters (`0`..=`?`), any number of intermediate
//! characters (space..=`/`) and one final character (`@`..=`~`). The text is
//! read from left to right; a sequence is removed as a whole and reading goes
//! on behind it. What is left is then cleared of control characters.

use vstd::prelude::*;

verus! {

/// The code point of `c` lies in `lo..=hi`.
pub open spec fn in_range(c: char, lo: u32, hi: u32) -> bool {
    lo <= c as u32 <= hi
}

/// A control character: a code point up to 0x1F, or 0x7F.
pub open spec fn control(c: char) -> bool {
    c as u32 <= 0x1F || c as u32 == 0x7F
}

/// The number of consecutive characters of `s`, starting at `from`, whose
/// code points lie in `lo..=hi`.
pub open spec fn span(s: Seq<char>, from: int, lo: u32, hi: u32) -> nat
    decreases s.len() - from,
{
    if 0 <= from < s.len() && in_range(s[from], lo, hi) {
        1 + span(s, from + 1, lo, hi)
    } else {
        0
    }
}

/// The length of the escape sequence that starts at index `i` of `s`, or 0
/// if none starts there.
pub open spec fn escape_len(s: Seq<char>, i: int) -> nat {
    if 0 <= i && i + 1 < s.len() && s[i] == '\x1b' {
        let c = s[i + 1];
        if in_range(c, 0x40, 0x5A) || in_range(c, 0x5C, 0x5F) {
            2
        } else if c == '[' {
            let params = span(s, i + 2, 0x30, 0x3F);
            let inters = span(s, i + 2 + params, 0x20, 0x2F);
            let last = i + 2 + params + inters;
            if last < s.len() && in_range(s[last], 0x40, 0x7E) {
                2 + params + inters + 1
            } else {
                0
            }
        } else {
            0
        }
    } else {
        0
    }
}

/// `s` from index `i` on, without its escape sequences.
pub open spec fn strip_escapes_from(s: Seq<char>, i: int) -> Seq<char>
    decreases s.len() - i,
{
    if i < 0 || i >= s.len() {
        Seq::empty()
    } else if escape_len(s, i) > 0 {
        strip_escapes_from(s, i + escape_len(s, i))
    } else {
        seq![s[i]] + strip_escapes_from(s, i + 1)
    }
}

/// `s` without its escape sequences.
pub open spec fn strip_escapes(s: Seq<char>) -> Seq<char> {
    strip_escapes_from(s, 0)
}

/// `s` without its control characters.
pub open spec fn strip_controls(s: Seq<char>) -> Seq<char> {
    s.filter(|c: char| !control(c))
}

/// `s` without its escape sequences and, after that, without the control
/// characters that are left.
pub open spec fn sanitized(s: Seq<char>) -> Seq<char> {
    strip_controls(strip_escapes(s))
}

/// No character of `s` is a control character.
pub open spec fn clean(s: Seq<char>) -> bool {
    forall|i: int| 0 <= i < s.len() ==> !control(#[trigger] s[i])
}

/// Whether the code point of `c` lies in `lo..=hi`.
pub fn is_in_range(c: char, lo: u32, hi: u32) -> (b: bool)
    ensures
        b == in_range(c, lo, hi),
{
    let u: u32 = c as u32;
    lo <= u && u <= hi
}

/// Whether `c` is a control character.
pub fn is_control(c: char) -> (b: bool)
    ensures
        b == control(c),
{
    let u: u32 = c as u32;
    u <= 0x1F || u == 0x7F
}

/// The index behind the characters of `s` that follow each other from
/// `from` on with code points in `lo..=hi`.
pub fn skip_span(s: &[char], from: usize, lo: u32, hi: u32) -> (to: usize)
    requires
        from <= s.len(),
    ensures
        to == from + span(s@, from as int, lo, hi),
        to <= s.len(),
{
    let mut i: usize = from;
    while i < s.len() && is_in_range(s[i], lo, hi)
        invariant
            from <= i <= s.len(),
            from + span(s@, from as int, lo, hi) == i + span(s@, i as int, lo, hi),
        decreases s.len() - i,
    {
        i += 1;
    }
    i
}

/// The index behind the escape sequence that starts at index `i` of `s`, or
/// `i` itself if none starts there.
pub fn escape_end(s: &[char], i: usize) -> (to: usize)
    requires
        i < s.len(),
    ensures
        to == i + escape_len(s@, i as int),
        to <= s.len(),
{
    if s[i] != '\x1b' || s.len() - i < 2 {
        return i;
    }
    let c = s[i + 1];
    if is_in_range(c, 0x40, 0x5A) || is_in_range(c, 0x5C, 0x5F) {
        return i + 2;
    }
    if c != '[' {
        return i;
    }
    let params = skip_span(s, i + 2, 0x30, 0x3F);
    let last = skip_span(s, params, 0x20, 0x2F);
    if last < s.len() && is_in_range(s[last], 0x40, 0x7E) {
        last + 1
    } else {
        i
    }
}

/// `s` without its escape sequences.
pub fn remove_escapes(s: &[char]) -> (out: Vec<char>)
    ensures
        out@ == strip_escapes(s@),
{
    let mut out: Vec<char> = Vec::new();
    let mut i: usize = 0;
    while i < s.len()
        invariant
            i <= s.len(),
            out@ + strip_escapes_from(s@, i as int) == strip_escapes(s@),
        decreases s.len() - i,
    {
        let to = escape_end(s, i);
        if to > i {
            i = to;
        } else {
            proof {
                let rest = strip_escapes_from(s@, i + 1);
                assert(out@.push(s@[i as int]) + rest =~= out@ + (seq![s@[i as int]] + rest));
            }
            out.push(s[i]);
            i += 1;
        }
    }
    assert(out@ + Seq::<char>::empty() =~= out@);
    out
}

/// Dropping the last character of a prefix gives the prefix that is one
/// shorter, so the filter of a prefix grows by at most its last character.
proof fn lemma_strip_controls_step(s: Seq<char>, i: int)
    requires
        0 <= i < s.len(),
    ensures
        strip_controls(s.take(i + 1)) == if control(s[i]) {
            strip_controls(s.take(i))
        } else {
            strip_controls(s.take(i)).push(s[i])
        },
{
    reveal(Seq::filter);
    assert(s.take(i + 1).drop_last() =~= s.take(i));
}

/// `s` without its control characters.
pub fn remove_controls(s: &[char]) -> (out: Vec<char>)
    ensures
        out@ == strip_controls(s@),
{
    let mut out: Vec<char> = Vec::new();
    let mut i: usize = 0;
    proof {
        reveal(Seq::filter);
        assert(s@.take(0) =~= Seq::<char>::empty());
    }
    while i < s.len()
        invariant
            i <= s.len(),
            out@ == strip_controls(s@.take(i as int)),
        decreases s.len() - i,
    {
        proof {
            lemma_strip_controls_step(s@, i as int);
        }
        if !is_control(s[i]) {
            out.push(s[i]);
        }
        i += 1;
    }
    assert(s@.take(s.len() as int) =~= s@);
    out
}

/// `s` without its escape sequences and without the control characters that
/// are left after that.
pub fn sanitize_chars(s: &[char]) -> (out: Vec<char>)
    ensures
        out@ == sanitized(s@),
{
    let plain = remove_escapes(s);
    remove_controls(plain.as_slice())
}

/// What is left when the control characters are removed holds none.
pub proof fn lemma_strip_controls_clean(s: Seq<char>)
    ensures
        clean(strip_controls(s)),
    decreases s.len(),
{
    reveal(Seq::filter);
    if s.len() > 0 {
        lemma_strip_controls_clean(s.drop_last());
    }
}

/// Removing control characters changes nothing in a text that holds none.
pub proof fn lemma_strip_controls_id(s: Seq<char>)
    requires
        clean(s),
    ensures
        strip_controls(s) == s,
    decreases s.len(),
{
    reveal(Seq::filter);
    if s.len() > 0 {
        lemma_strip_controls_id(s.drop_last());
        assert(!control(s[s.len() - 1]));
        assert(s.drop_last().push(s.last()) =~= s);
    }
}

/// Removing escape sequences changes nothing in a text that holds no
/// control character: every sequence starts with one.
pub proof fn lemma_strip_escapes_id(s: Seq<char>, i: int)
    requires
        clean(s),
        0 <= i <= s.len(),
    ensures
        strip_escapes_from(s, i) == s.subrange(i, s.len() as int),
    decreases s.len() - i,
{
    if i < s.len() {
        assert(!control(s[i]));
        lemma_strip_escapes_id(s, i + 1);
        assert(seq![s[i]] + s.subrange(i + 1, s.len() as int) =~= s.subrange(i, s.len() as int));
    } else {
        assert(s.subrange(i, s.len() as int) =~= Seq::<char>::empty());
    }
}

/// The result of `sanitized` holds no control character.
pub proof fn lemma_sanitized_clean(s: Seq<char>)
    ensures
        clean(sanitized(s)),
{
    lemma_strip_controls_clean(strip_escapes(s));
}

/// A text without control characters is left as it is.
pub proof fn lemma_sanitized_fixpoint(s: Seq<char>)
    requires
        clean(s),
    ensures
        sanitized(s) == s,
{
    lemma_strip_escapes_id(s, 0);
    assert(s.subrange(0, s.len() as int) =~= s);
    lemma_strip_controls_id(s);
}

/// Sanitizing is idempotent: a second pass changes nothing.
pub proof fn lemma_sanitized_idempotent(s: Seq<char>)
    ensures
        sanitized(sanitized(s)) == sanitized(s),
{
    lemma_sanitized_clean(s);
    lemma_sanitized_fixpoint(sanitized(s));
}

} // verus!
