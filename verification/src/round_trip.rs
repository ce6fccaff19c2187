//! Decoding gives back what encoding wrote.
//!
//! The law holds for the user names, texts and time stamps that the grammar
//! can carry: without control characters and braces, without `> ` in the
//! name and `] ` in the time stamp, and with a text that does not end in
//! white space (which decoding drops).

use crate::clients::{rules, Clients};
use crate::formatter::{decoded, encoded, working_text};
use crate::grammar::{
    avatar_token, before_marker, bracket, bracketed, detect, envelope, marker, marker_bounds,
    signed, strip_tags, strip_tags_from,
};
use crate::message::{MessageResponseView, MessageView};
use crate::sanitizer::{clean, control, lemma_sanitized_fixpoint, sanitized};
use crate::text::{
    find_from, lemma_find_from, lemma_rfind_in, lemma_until_skips, line_end, line_start,
    occurs_at, rfind_in, skip_space, skip_space_back, trimmed, until, white_space,
};
use vstd::prelude::*;

verus! {

/// A line with time stamp: `[timestamp] body`.
pub open spec fn stamped(timestamp: Seq<char>, body: Seq<char>) -> Seq<char> {
    seq!['['] + timestamp + seq![']', ' '] + body
}

/// Somewhere in `s` the character `a` is directly followed by `b`.
pub open spec fn has_pair(s: Seq<char>, a: char, b: char) -> bool {
    exists|j: int| 0 <= j && j + 1 < s.len() && s[j] == a && #[trigger] s[j + 1] == b
}

/// `s` holds neither a control character nor an opening brace.
pub open spec fn plain(s: Seq<char>) -> bool {
    forall|i: int| 0 <= i < s.len() ==> !control(#[trigger] s[i]) && s[i] != '{'
}

/// A pattern whose first character is nowhere in `s` is not found.
pub proof fn lemma_absent(s: Seq<char>, pat: Seq<char>, from: int)
    requires
        pat.len() > 0,
        forall|i: int| 0 <= i < s.len() ==> #[trigger] s[i] != pat[0],
    ensures
        find_from(s, pat, from) is None,
{
    if from >= 0 {
        lemma_find_from(s, pat, from);
        if find_from(s, pat, from) is Some {
            let at = find_from(s, pat, from)->0;
            assert(s.subrange(at, at + pat.len())[0] == s[at]);
        }
    }
}

/// A pattern that stands at `at` and nowhere from `from` up to `at` is
/// found at `at`.
pub proof fn lemma_find_is(s: Seq<char>, pat: Seq<char>, from: int, at: int)
    requires
        0 <= from <= at,
        occurs_at(s, pat, at),
        forall|k: int| from <= k < at ==> !occurs_at(s, pat, k),
    ensures
        find_from(s, pat, from) == Some(at),
    decreases at - from,
{
    if from < at {
        lemma_find_is(s, pat, from + 1, at);
    }
}

/// A text without an opening brace holds no tag.
pub proof fn lemma_strip_tags_id(s: Seq<char>, i: int)
    requires
        forall|k: int| 0 <= k < s.len() ==> #[trigger] s[k] != '{',
        0 <= i <= s.len(),
    ensures
        strip_tags_from(s, i) == s.subrange(i, s.len() as int),
    decreases s.len() - i,
{
    if i < s.len() {
        assert(s[i] != '{');
        lemma_strip_tags_id(s, i + 1);
        assert(seq![s[i]] + s.subrange(i + 1, s.len() as int) =~= s.subrange(i, s.len() as int));
    } else {
        assert(s.subrange(i, s.len() as int) =~= Seq::<char>::empty());
    }
}

/// Where no line feed stands before `at`, the line of `at` starts at 0.
pub proof fn lemma_first_line(s: Seq<char>, at: int)
    requires
        0 <= at <= s.len(),
        forall|k: int| 0 <= k < at ==> #[trigger] s[k] != '\n',
    ensures
        line_start(s, at) == 0,
    decreases at,
{
    if at > 0 {
        assert(s[at - 1] != '\n');
        lemma_first_line(s, at - 1);
    }
}

/// In `open + inner + close + rest`, where `close` is a pair of two
/// different characters that `inner` does not hold, `open` is found at the
/// start and `close` directly behind `inner`: the brackets hold `inner` and
/// `rest` follows them.
proof fn lemma_bracketed(
    open: Seq<char>,
    inner: Seq<char>,
    a: char,
    b: char,
    rest: Seq<char>,
)
    requires
        open.len() > 0,
        a != b,
        !has_pair(inner, a, b),
    ensures
        bracketed(open + inner + seq![a, b] + rest, open, seq![a, b]) == Some((inner, rest)),
{
    let close = seq![a, b];
    let s = open + inner + close + rest;
    let n = open.len() as int;
    let m = inner.len() as int;
    assert(s.subrange(0, n) =~= open);
    assert(find_from(s, open, 0) == Some(0int));
    assert(s.subrange(n + m, n + m + 2) =~= close);
    assert forall|k: int| n <= k < n + m implies !occurs_at(s, close, k) by {
        if occurs_at(s, close, k) {
            assert(s.subrange(k, k + 2)[0] == s[k]);
            assert(s.subrange(k, k + 2)[1] == s[k + 1]);
            assert(s[k] == inner[k - n]);
            if k + 1 < n + m {
                assert(s[k + 1] == inner[k - n + 1]);
                assert(inner[k - n] == a && inner[(k - n) + 1] == b);
            } else {
                assert(s[k + 1] == a);
            }
        }
    }
    lemma_find_is(s, close, n, n + m);
    assert(bracket(s, open, close) == Some((n, n + m)));
    assert(s.subrange(n, n + m) =~= inner);
    assert(s.subrange(n + m + 2, s.len() as int) =~= rest);
}

/// The working text of a line that is plain, starts with `[` and does not
/// end in white space is the line itself, if no avatar marker is in it.
proof fn lemma_working_text_id(w: Seq<char>)
    requires
        plain(w),
        w.len() > 0,
        !white_space(w[0]),
        !white_space(w.last()),
    ensures
        sanitized(strip_tags(trimmed(w))) == w,
{
    assert(skip_space(w, 0) == 0);
    assert(skip_space_back(w, w.len() as int) == w.len());
    assert(w.subrange(0, w.len() as int) =~= w);
    lemma_strip_tags_id(w, 0);
    assert(clean(w)) by {
        assert forall|i: int| 0 <= i < w.len() implies !control(#[trigger] w[i]) by {}
    }
    lemma_sanitized_fixpoint(w);
}

/// Decoding gives back what encoding wrote. A line made of a time stamp and
/// an encoded message decodes to that time stamp, the user name, the text
/// and the avatar of the message, and to the client `Tower`, whose
/// signature `encode` writes.
pub proof fn lemma_round_trip(
    timestamp: Seq<char>,
    username: Seq<char>,
    text: Seq<char>,
    avatar_url: Option<Seq<char>>,
)
    requires
        plain(timestamp),
        plain(username),
        plain(text),
        !has_pair(timestamp, ']', ' '),
        !has_pair(username, '>', ' '),
        text.len() > 0,
        !white_space(text.last()),
        avatar_url is Some ==> clean(avatar_url->0),
    ensures
        decoded(stamped(timestamp, encoded(username, text, avatar_url))) == (MessageResponseView {
            message: Some(
                MessageView {
                    content: text,
                    username,
                    timestamp: Some(timestamp),
                    client: Some(Clients::Tower),
                    avatar_url,
                },
            ),
            raw_string: stamped(timestamp, encoded(username, text, avatar_url)),
        }),
{
    let glyphs = Clients::Tower.glyphs();
    let body = glyphs.push('<') + username + seq!['>', ' '] + text;
    let w = stamped(timestamp, body);
    let line = stamped(timestamp, encoded(username, text, avatar_url));
    let m = marker();

    // The line without marker and avatar is plain and not to be trimmed.
    assert(encoded(username, text, None) == body);
    assert(w.len() == 1 + timestamp.len() + 2 + 2 + username.len() + 2 + text.len());
    assert forall|i: int| 0 <= i < w.len() implies !control(#[trigger] w[i]) && w[i] != '{' by {
        let t = timestamp.len() as int;
        let u = username.len() as int;
        if i < 1 {
            assert(w[i] == '[');
        } else if i < 1 + t {
            assert(w[i] == timestamp[i - 1]);
        } else if i < 3 + t {
            assert(w[i] == seq![']', ' '][i - 1 - t]);
        } else if i < 5 + t {
            assert(w[i] == glyphs.push('<')[i - 3 - t]);
        } else if i < 5 + t + u {
            assert(w[i] == username[i - 5 - t]);
        } else if i < 7 + t + u {
            assert(w[i] == seq!['>', ' '][i - 5 - t - u]);
        } else {
            assert(w[i] == text[i - 7 - t - u]);
        }
    }
    assert(w[0] == '[');
    assert(w.last() == text.last());

    // The marker splits the line into that text and the avatar.
    match avatar_url {
        None => {
            assert(line == w);
            lemma_absent(w, m, 0);
            assert(marker_bounds(line) is None);
        },
        Some(url) => {
            assert(line =~= w + m + url);
            let at = w.len() as int;
            let end = line.len() as int;
            assert forall|i: int| 0 <= i < line.len() && i != at implies #[trigger] line[i]
                != '\x06' by {
                if i < at {
                    assert(line[i] == w[i]);
                } else if i < at + m.len() {
                    assert(line[i] == m[i - at]);
                } else {
                    assert(line[i] == url[i - at - m.len()]);
                }
            }
            assert(line.subrange(at, at + m.len()) =~= m);
            assert forall|k: int| 0 <= k < at implies !occurs_at(line, m, k) by {
                if occurs_at(line, m, k) {
                    assert(line.subrange(k, k + m.len())[0] == line[k]);
                }
            }
            lemma_find_is(line, m, 0, at);
            assert forall|k: int| 0 <= k < line.len() implies #[trigger] line[k] != '\n' by {
                if k == at {
                    assert(line[k] == m[0]);
                }
            }
            lemma_first_line(line, at);
            lemma_until_skips(line, '\n', at, end);
            assert(until(line, '\n', end) == 0);
            assert(line_end(line, at) == end);
            lemma_rfind_in(line, m, at, end - m.len());
            match rfind_in(line, m, at, end - m.len()) {
                Some(last) => {
                    assert(line.subrange(last, last + m.len())[0] == line[last]);
                    assert(last == at);
                },
                None => {
                    assert(!occurs_at(line, m, at));
                },
            }
            assert(marker_bounds(line) == Some((0int, at, end)));
            assert(line.subrange(0, at) =~= w);
            assert(line.subrange(at + m.len(), end) =~= url);
        },
    }
    assert(before_marker(line) == w);
    assert(avatar_token(line) == avatar_url);

    lemma_working_text_id(w);
    assert(working_text(line) == w);

    // The time stamp stands in the brackets, the message behind them.
    assert(w =~= seq!['['] + timestamp + seq![']', ' '] + body);
    lemma_bracketed(seq!['['], timestamp, ']', ' ', body);
    assert(envelope(w) == Some((timestamp, body)));

    // The signature of Tower, the first rule, yields name and text.
    lemma_bracketed(glyphs.push('<'), username, '>', ' ', text);
    assert(signed(body, glyphs) == Some((username, text)));
    assert(rules()[0] == (glyphs, Clients::Tower));
    assert(detect(body, rules()) == Some((Clients::Tower, username, text)));
}

} // verus!
