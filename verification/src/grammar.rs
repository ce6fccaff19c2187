//! The grammar of a line of the message log.
//!
//! A line has the form `[timestamp] glyphs<username> content`, optionally
//! followed by the avatar marker and a token that runs to the end of the
//! line. Decorative tags in braces may stand anywhere in it. Each rule is
//! stated over character sequences and implemented on slices.

use crate::clients::{Clients, Signature};
use crate::text::{
    end_of_line, find, find_from, is_white_space, lemma_find_from, lemma_line_start,
    lemma_line_start_skips, lemma_rfind_in, lemma_until, lemma_until_skips, line_end,
    line_start, occurs_at, rfind, rfind_in, skip_until, start_of_line, until, white_space,
};
use vstd::prelude::*;

verus! {

/// The avatar marker: the control character 0x06 and the tag `!!AR!!`.
pub open spec fn marker() -> Seq<char> {
    seq!['\x06', '!', '!', 'A', 'R', '!', '!']
}

/// Where the avatar marker splits `s`: the start of the line that holds the
/// first marker of `s`, the index of the last marker on that line, and the
/// end of that line. `None` if `s` holds no marker.
pub open spec fn marker_bounds(s: Seq<char>) -> Option<(int, int, int)> {
    match find_from(s, marker(), 0) {
        None => None,
        Some(first) => {
            let lo = line_start(s, first);
            let hi = line_end(s, first);
            match rfind_in(s, marker(), first, hi - marker().len()) {
                Some(at) => Some((lo, at, hi)),
                None => Some((lo, first, hi)),
            }
        },
    }
}

/// The text that is left of a line when the avatar marker and what follows
/// it are taken away: the whole of `s` if it holds no marker, else the part
/// of the marker's line before the marker.
pub open spec fn before_marker(s: Seq<char>) -> Seq<char> {
    match marker_bounds(s) {
        None => s,
        Some((lo, at, hi)) => s.subrange(lo, at),
    }
}

/// The token behind the avatar marker: what stands between the marker and
/// the end of its line.
pub open spec fn avatar_token(s: Seq<char>) -> Option<Seq<char>> {
    match marker_bounds(s) {
        None => None,
        Some((lo, at, hi)) => Some(s.subrange(at + marker().len(), hi)),
    }
}

/// What the bounds of the marker are: the marker stands at `at`, on the
/// line from `lo` to `hi`, which holds no line feed, and no marker stands
/// behind it on that line.
pub proof fn lemma_marker_bounds(s: Seq<char>)
    ensures
        match marker_bounds(s) {
            None => forall|k: int| 0 <= k ==> !occurs_at(s, marker(), k),
            Some((lo, at, hi)) => {
                &&& 0 <= lo <= at
                &&& at + marker().len() <= hi <= s.len()
                &&& occurs_at(s, marker(), at)
                &&& forall|k: int| at < k < hi ==> !occurs_at(s, marker(), k)
                &&& forall|k: int| at <= k < hi ==> s[k] != '\n'
                &&& lo == line_start(s, at)
                &&& hi == line_end(s, at)
            },
        },
{
    let m = marker();
    lemma_find_from(s, m, 0);
    if find_from(s, m, 0) is Some {
        let first = find_from(s, m, 0)->0;
        let hi = line_end(s, first);
        assert forall|j: int| first <= j < first + m.len() implies s[j] != '\n' by {
            assert(s.subrange(first, first + m.len())[j - first] == s[j]);
        }
        lemma_until_skips(s, '\n', first, first + m.len());
        lemma_until(s, '\n', first);
        lemma_until(s, '\n', first + m.len());
        lemma_rfind_in(s, m, first, hi - m.len());
        lemma_line_start(s, first);
        let at = match rfind_in(s, m, first, hi - m.len()) {
            Some(last) => last,
            None => first,
        };
        assert(first <= at && at + m.len() <= hi);
        assert forall|k: int| at < k < hi implies !occurs_at(s, m, k) by {
            if occurs_at(s, m, k) && k + m.len() > hi {
                assert(s.subrange(k, k + m.len())[hi - k] == s[hi]);
            }
        }
        lemma_until_skips(s, '\n', first, at);
        lemma_line_start_skips(s, first, at);
    }
}

/// The marker as characters.
pub fn marker_chars() -> (m: Vec<char>)
    ensures
        m@ == marker(),
{
    let m: Vec<char> = vec!['\x06', '!', '!', 'A', 'R', '!', '!'];
    assert(m@ =~= marker());
    m
}

/// Where the avatar marker splits `s`.
pub fn find_marker(s: &[char]) -> (r: Option<(usize, usize, usize)>)
    ensures
        match r {
            None => marker_bounds(s@) is None,
            Some((lo, at, hi)) => marker_bounds(s@) == Some((lo as int, at as int, hi as int))
                && lo <= at && at + marker().len() <= hi <= s.len(),
        },
{
    let m = marker_chars();
    match find(s, m.as_slice(), 0) {
        None => None,
        Some(first) => {
            proof {
                lemma_find_from(s@, marker(), 0);
                assert forall|j: int| first <= j < first + marker().len() implies s@[j] != '\n' by {
                    assert(s@.subrange(first as int, first + marker().len())[j - first] == s@[j]);
                }
                lemma_until_skips(s@, '\n', first as int, first + marker().len());
            }
            let lo = start_of_line(s, first);
            let hi = end_of_line(s, first);
            match rfind(s, m.as_slice(), first, hi - m.len()) {
                Some(at) => Some((lo, at, hi)),
                None => {
                    proof {
                        lemma_rfind_in(s@, marker(), first as int, hi - marker().len());
                    }
                    Some((lo, first, hi))
                },
            }
        },
    }
}

/// The length of the tag that starts at index `i` of `s`, or 0 if none
/// starts there. A tag is `{`, any characters but `}`, `}` and one white
/// space character.
pub open spec fn tag_len(s: Seq<char>, i: int) -> nat {
    if 0 <= i < s.len() && s[i] == '{' {
        let body = until(s, '}', i + 1);
        let close = i + 1 + body;
        if close + 1 < s.len() && white_space(s[close + 1]) {
            body + 3
        } else {
            0
        }
    } else {
        0
    }
}

/// `s` from index `i` on, without its tags.
pub open spec fn strip_tags_from(s: Seq<char>, i: int) -> Seq<char>
    decreases s.len() - i,
{
    if i < 0 || i >= s.len() {
        Seq::empty()
    } else if tag_len(s, i) > 0 {
        strip_tags_from(s, i + tag_len(s, i))
    } else {
        seq![s[i]] + strip_tags_from(s, i + 1)
    }
}

/// `s` without its tags: read from left to right, each tag is removed as a
/// whole and reading goes on behind it.
pub open spec fn strip_tags(s: Seq<char>) -> Seq<char> {
    strip_tags_from(s, 0)
}

/// The index behind the tag that starts at index `i` of `s`, or `i` itself
/// if none starts there.
pub fn tag_end(s: &[char], i: usize) -> (to: usize)
    requires
        i < s.len(),
    ensures
        to == i + tag_len(s@, i as int),
        to <= s.len(),
{
    if s[i] != '{' {
        return i;
    }
    let close = skip_until(s, '}', i + 1);
    if s.len() - close >= 2 && is_white_space(s[close + 1]) {
        close + 2
    } else {
        i
    }
}

/// `s` without its tags.
pub fn remove_tags(s: &[char]) -> (out: Vec<char>)
    ensures
        out@ == strip_tags(s@),
{
    let mut out: Vec<char> = Vec::new();
    let mut i: usize = 0;
    while i < s.len()
        invariant
            i <= s.len(),
            out@ + strip_tags_from(s@, i as int) == strip_tags(s@),
        decreases s.len() - i,
    {
        let to = tag_end(s, i);
        if to > i {
            i = to;
        } else {
            proof {
                let rest = strip_tags_from(s@, i + 1);
                assert(out@.push(s@[i as int]) + rest =~= out@ + (seq![s@[i as int]] + rest));
            }
            out.push(s[i]);
            i += 1;
        }
    }
    assert(out@ + Seq::<char>::empty() =~= out@);
    out
}

/// The first `open` of `s` and the first `close` behind it: the index
/// behind that `open` and the index of that `close`. `None` if `s` holds no
/// `open`, or no `close` behind the first one.
pub open spec fn bracket(s: Seq<char>, open: Seq<char>, close: Seq<char>) -> Option<(int, int)> {
    match find_from(s, open, 0) {
        None => None,
        Some(at) => match find_from(s, close, at + open.len()) {
            None => None,
            Some(end) => Some((at + open.len(), end)),
        },
    }
}

/// What stands between the first `open` of `s` and the first `close` behind
/// it, and what follows that `close`.
pub open spec fn bracketed(s: Seq<char>, open: Seq<char>, close: Seq<char>) -> Option<
    (Seq<char>, Seq<char>),
> {
    match bracket(s, open, close) {
        None => None,
        Some((from, to)) => Some((s.subrange(from, to), s.subrange(to + close.len(), s.len() as int))),
    }
}

/// The time stamp and the rest of a line of the form `[timestamp] rest`:
/// the time stamp runs from the first `[` to the first `] ` behind it.
pub open spec fn envelope(s: Seq<char>) -> Option<(Seq<char>, Seq<char>)> {
    bracketed(s, seq!['['], seq![']', ' '])
}

/// The user name and the content of a text of the form
/// `glyphs<username> content`: the name runs from the first `glyphs<` to the
/// first `> ` behind it.
pub open spec fn signed(s: Seq<char>, glyphs: Seq<char>) -> Option<(Seq<char>, Seq<char>)> {
    bracketed(s, glyphs.push('<'), seq!['>', ' '])
}

/// The first rule of `rules`, from index `k` on, whose signature is found
/// in `s`: its client, and the user name and content that it yields.
pub open spec fn detect_from(s: Seq<char>, rules: Seq<(Seq<char>, Clients)>, k: int) -> Option<
    (Clients, Seq<char>, Seq<char>),
>
    decreases rules.len() - k,
{
    if k < 0 || k >= rules.len() {
        None
    } else {
        match signed(s, rules[k].0) {
            Some((username, content)) => Some((rules[k].1, username, content)),
            None => detect_from(s, rules, k + 1),
        }
    }
}

/// The first rule of `rules` whose signature is found in `s`.
pub open spec fn detect(s: Seq<char>, rules: Seq<(Seq<char>, Clients)>) -> Option<
    (Clients, Seq<char>, Seq<char>),
> {
    detect_from(s, rules, 0)
}

/// The first `open` of `s` and the first `close` behind it.
pub fn find_bracket(s: &[char], open: &[char], close: &[char]) -> (r: Option<(usize, usize)>)
    ensures
        match r {
            None => bracket(s@, open@, close@) is None,
            Some((from, to)) => bracket(s@, open@, close@) == Some((from as int, to as int))
                && from <= to && to + close.len() <= s.len(),
        },
{
    match find(s, open, 0) {
        None => None,
        Some(at) => match find(s, close, at + open.len()) {
            None => None,
            Some(end) => Some((at + open.len(), end)),
        },
    }
}

/// The bounds of the time stamp of `s`.
pub fn find_envelope(s: &[char]) -> (r: Option<(usize, usize)>)
    ensures
        match r {
            None => envelope(s@) is None,
            Some((from, to)) => from <= to && to + 2 <= s.len() && envelope(s@) == Some(
                (s@.subrange(from as int, to as int), s@.subrange(to + 2, s.len() as int)),
            ),
        },
{
    let open: Vec<char> = vec!['['];
    let close: Vec<char> = vec![']', ' '];
    assert(open@ =~= seq!['[']);
    assert(close@ =~= seq![']', ' ']);
    find_bracket(s, open.as_slice(), close.as_slice())
}

/// The bounds of the user name that the signature with `glyphs` yields in
/// `s`.
pub fn find_signed(s: &[char], glyphs: &[char]) -> (r: Option<(usize, usize)>)
    ensures
        match r {
            None => signed(s@, glyphs@) is None,
            Some((from, to)) => from <= to && to + 2 <= s.len() && signed(s@, glyphs@) == Some(
                (s@.subrange(from as int, to as int), s@.subrange(to + 2, s.len() as int)),
            ),
        },
{
    let mut open: Vec<char> = Vec::new();
    let mut i: usize = 0;
    while i < glyphs.len()
        invariant
            i <= glyphs.len(),
            open@ == glyphs@.take(i as int),
        decreases glyphs.len() - i,
    {
        open.push(glyphs[i]);
        i += 1;
        assert(glyphs@.take(i as int) =~= glyphs@.take(i - 1).push(glyphs@[i - 1]));
    }
    assert(glyphs@.take(glyphs.len() as int) =~= glyphs@);
    open.push('<');
    let close: Vec<char> = vec!['>', ' '];
    assert(close@ =~= seq!['>', ' ']);
    find_bracket(s, open.as_slice(), close.as_slice())
}

/// The first rule of `rules` whose signature is found in `s`: its client
/// and the bounds of the user name.
pub fn find_client(s: &[char], rules: &[Signature]) -> (r: Option<(Clients, usize, usize)>)
    ensures
        match r {
            None => detect(s@, rules.deep_view()) is None,
            Some((client, from, to)) => from <= to && to + 2 <= s.len() && detect(
                s@,
                rules.deep_view(),
            ) == Some(
                (client, s@.subrange(from as int, to as int), s@.subrange(to + 2, s.len() as int)),
            ),
        },
{
    let mut k: usize = 0;
    while k < rules.len()
        invariant
            k <= rules.len(),
            detect(s@, rules.deep_view()) == detect_from(s@, rules.deep_view(), k as int),
        decreases rules.len() - k,
    {
        assert(rules.deep_view()[k as int] == rules@[k as int].deep_view());
        match find_signed(s, rules[k].glyphs.as_slice()) {
            Some((from, to)) => {
                return Some((rules[k].client, from, to));
            },
            None => {},
        }
        k += 1;
    }
    None
}

/// A pattern that stands somewhere at or after `from` is found.
pub proof fn lemma_found(s: Seq<char>, pat: Seq<char>, from: int, at: int)
    requires
        0 <= from <= at,
        occurs_at(s, pat, at),
    ensures
        find_from(s, pat, from) is Some,
        from <= find_from(s, pat, from)->0 <= at,
{
    lemma_find_from(s, pat, from);
}

/// The signature without glyphs is found in every text in which a signature
/// with glyphs is found: it is the fallback.
pub proof fn lemma_fallback_covers(s: Seq<char>, glyphs: Seq<char>)
    requires
        signed(s, glyphs) is Some,
    ensures
        signed(s, Seq::empty()) is Some,
{
    let open = glyphs.push('<');
    let close = seq!['>', ' '];
    let bare = Seq::<char>::empty().push('<');
    lemma_find_from(s, open, 0);
    let at = find_from(s, open, 0)->0;
    lemma_find_from(s, close, at + open.len());
    let end = find_from(s, close, at + open.len())->0;
    let angle = at + glyphs.len();
    assert(s.subrange(angle, angle + 1) =~= bare) by {
        assert(s.subrange(at, at + open.len())[glyphs.len() as int] == '<');
    }
    lemma_found(s, bare, 0, angle);
    let first = find_from(s, bare, 0)->0;
    lemma_found(s, close, first + 1, end);
}

/// The first match wins: the rule at index `k` decides if its signature is
/// found and that of no rule from `from` up to `k` is.
pub proof fn lemma_first_match_wins(
    s: Seq<char>,
    rules: Seq<(Seq<char>, Clients)>,
    from: int,
    k: int,
)
    requires
        0 <= from <= k < rules.len(),
        signed(s, rules[k].0) is Some,
        forall|j: int| from <= j < k ==> signed(s, #[trigger] rules[j].0) is None,
    ensures
        match signed(s, rules[k].0) {
            Some((username, content)) => detect_from(s, rules, from) == Some(
                (rules[k].1, username, content),
            ),
            None => false,
        },
    decreases k - from,
{
    if from < k {
        assert(signed(s, rules[from].0) is None);
        lemma_first_match_wins(s, rules, from + 1, k);
    }
}

/// Where a rule is chosen, it is the first whose signature is found; where
/// none is chosen, no signature is found.
pub proof fn lemma_detect_from(s: Seq<char>, rules: Seq<(Seq<char>, Clients)>, from: int)
    requires
        0 <= from,
    ensures
        match detect_from(s, rules, from) {
            Some((client, username, content)) => exists|k: int|
                {
                    &&& from <= k < rules.len()
                    &&& client == rules[k].1
                    &&& #[trigger] signed(s, rules[k].0) == Some((username, content))
                    &&& forall|j: int| from <= j < k ==> signed(s, #[trigger] rules[j].0) is None
                },
            None => forall|j: int| from <= j < rules.len() ==> signed(s, #[trigger] rules[j].0) is None,
        },
    decreases rules.len() - from,
{
    if from < rules.len() {
        match signed(s, rules[from].0) {
            Some((username, content)) => {
                assert(signed(s, rules[from].0) == Some((username, content)));
            },
            None => {
                lemma_detect_from(s, rules, from + 1);
                match detect_from(s, rules, from + 1) {
                    Some((client, username, content)) => {
                        let k = choose|k: int|
                            {
                                &&& from + 1 <= k < rules.len()
                                &&& client == rules[k].1
                                &&& #[trigger] signed(s, rules[k].0) == Some((username, content))
                                &&& forall|j: int|
                                    from + 1 <= j < k ==> signed(s, #[trigger] rules[j].0) is None
                            };
                        assert forall|j: int| from <= j < k implies signed(
                            s,
                            #[trigger] rules[j].0,
                        ) is None by {}
                        assert(signed(s, rules[k].0) == Some((username, content)));
                    },
                    None => {
                        assert forall|j: int| from <= j < rules.len() implies signed(
                            s,
                            #[trigger] rules[j].0,
                        ) is None by {}
                    },
                }
            },
        }
    }
}

/// A text in which the signature of a client with glyphs is found is never
/// attributed to the fallback, though the fallback's signature is found in
/// the text as well.
pub proof fn lemma_specific_beats_fallback(s: Seq<char>, client: Clients)
    requires
        client != Clients::clRAC,
        signed(s, client.glyphs()) is Some,
    ensures
        signed(s, Clients::clRAC.glyphs()) is Some,
        match detect(s, crate::clients::rules()) {
            Some((chosen, username, content)) => chosen != Clients::clRAC,
            None => false,
        },
{
    let rules = crate::clients::rules();
    lemma_fallback_covers(s, client.glyphs());
    lemma_detect_from(s, rules, 0);
    let at: int = match client {
        Clients::Tower => 0,
        Clients::bRAC => 1,
        Clients::CRAB => 2,
        Clients::Mefedroniy => 3,
        _ => 4,
    };
    assert(rules[at].0 == client.glyphs());
    assert(signed(s, rules[at].0) is Some);
    match detect(s, rules) {
        Some((chosen, username, content)) => {
            let k = choose|k: int|
                {
                    &&& 0 <= k < rules.len()
                    &&& chosen == rules[k].1
                    &&& #[trigger] signed(s, rules[k].0) == Some((username, content))
                    &&& forall|j: int| 0 <= j < k ==> signed(s, #[trigger] rules[j].0) is None
                };
            if k > at {
                assert(signed(s, rules[at].0) is None);
            }
        },
        None => {},
    }
}

} // verus!
