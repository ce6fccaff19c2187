//! The wire format: the bytes of each request, the count response, and the
//! lines of a batch.
//!
//! | request      | bytes                              | response                         |
//! |--------------|------------------------------------|----------------------------------|
//! | get count    | `0x00`                             | the count in decimal digits      |
//! | get delta    | `0x02`, the cursor in decimal      | exactly `count - cursor` bytes   |
//! | post message | `0x01`, the encoded message        | none                             |

use crate::clients::registry;
use crate::formatter::{decode_chars, decoded, encode, encoded};
use crate::message::{views, MessageResponse};
use crate::text::{lemma_until, skip_until, to_chars, until};
use vstd::prelude::*;
use vstd::slice::slice_subrange;
use vstd::utf8::{decode_utf8, encode_utf8, valid_utf8};

verus! {

/// The byte that asks for the count of the log.
pub const COUNT_REQUEST: u8 = 0x00;

/// The byte that starts a message to be posted.
pub const POST_REQUEST: u8 = 0x01;

/// The byte that asks for the log from a given offset on.
pub const DELTA_REQUEST: u8 = 0x02;

/// The most bytes that are read of a count response.
pub const COUNT_RESPONSE_MAX: usize = 1024;

/// The value of the decimal digit `b`; 0 for any other byte.
pub open spec fn digit_of(b: u8) -> nat {
    if 0x30 <= b <= 0x39 {
        (b - 0x30) as nat
    } else {
        0
    }
}

/// Every byte of `s` is a decimal digit.
pub open spec fn all_digits(s: Seq<u8>) -> bool {
    forall|i: int| 0 <= i < s.len() ==> 0x30 <= #[trigger] s[i] <= 0x39
}

/// The number that the decimal digits `s` write.
pub open spec fn digits_value(s: Seq<u8>) -> nat
    decreases s.len(),
{
    if s.len() == 0 {
        0
    } else {
        digits_value(s.drop_last()) * 10 + digit_of(s.last())
    }
}

/// The digits of a count response: the response without a leading `+`.
pub open spec fn count_digits(s: Seq<u8>) -> Seq<u8> {
    if s.len() > 0 && s[0] == 0x2B {
        s.subrange(1, s.len() as int)
    } else {
        s
    }
}

/// The count that a response writes: one or more decimal digits, which a
/// `+` may precede. `None` for any other response, the empty one too.
pub open spec fn count_of(s: Seq<u8>) -> Option<nat> {
    let digits = count_digits(s);
    if digits.len() > 0 && all_digits(digits) {
        Some(digits_value(digits))
    } else {
        None
    }
}

/// The decimal digits of `n`, without leading zeros.
pub open spec fn decimal(n: nat) -> Seq<u8>
    decreases n,
{
    if n < 10 {
        seq![(0x30 + n) as u8]
    } else {
        decimal(n / 10).push((0x30 + n % 10) as u8)
    }
}

/// The request for the count.
pub open spec fn count_request() -> Seq<u8> {
    seq![COUNT_REQUEST]
}

/// The request for what the log holds from offset `cursor` on.
pub open spec fn delta_request(cursor: nat) -> Seq<u8> {
    seq![DELTA_REQUEST] + decimal(cursor)
}

/// The request that posts `payload`.
pub open spec fn post_request(payload: Seq<char>) -> Seq<u8> {
    seq![POST_REQUEST] + encode_utf8(payload)
}

/// The lines of `s` from index `from` on: what stands between line feeds,
/// without the empty lines.
pub open spec fn lines_from(s: Seq<char>, from: int) -> Seq<Seq<char>>
    decreases s.len() - from,
{
    if from < 0 || from >= s.len() {
        Seq::empty()
    } else {
        let n = until(s, '\n', from);
        let rest = if from + n < s.len() {
            lines_from(s, from + n + 1)
        } else {
            Seq::empty()
        };
        if n > 0 {
            seq![s.subrange(from, from + n)] + rest
        } else {
            rest
        }
    }
}

/// The lines of `s`, without the empty ones.
pub open spec fn lines_of(s: Seq<char>) -> Seq<Seq<char>> {
    lines_from(s, 0)
}

/// What the lines of `text` decode to, in order.
pub open spec fn batch_of(text: Seq<char>) -> Seq<crate::message::MessageResponseView> {
    lines_of(text).map_values(|line: Seq<char>| decoded(line))
}

/// No line of a batch is empty, and none holds a line feed.
pub proof fn lemma_lines_from(s: Seq<char>, from: int)
    requires
        0 <= from,
    ensures
        forall|k: int|
            0 <= k < lines_from(s, from).len() ==> {
                let line = #[trigger] lines_from(s, from)[k];
                line.len() > 0 && forall|j: int| 0 <= j < line.len() ==> line[j] != '\n'
            },
    decreases s.len() - from,
{
    if from < s.len() {
        let n = until(s, '\n', from);
        lemma_until(s, '\n', from);
        if from + n < s.len() {
            lemma_lines_from(s, from + n + 1);
        }
        let rest = if from + n < s.len() {
            lines_from(s, from + n + 1)
        } else {
            Seq::empty()
        };
        assert forall|k: int| 0 <= k < lines_from(s, from).len() implies {
            let line = #[trigger] lines_from(s, from)[k];
            line.len() > 0 && forall|j: int| 0 <= j < line.len() ==> line[j] != '\n'
        } by {
            if n > 0 {
                if k == 0 {
                    let line = s.subrange(from, from + n);
                    assert(lines_from(s, from)[0] == line);
                    assert forall|j: int| 0 <= j < line.len() implies line[j] != '\n' by {
                        assert(line[j] == s[from + j]);
                    }
                } else {
                    assert(lines_from(s, from)[k] == rest[k - 1]);
                }
            } else {
                assert(lines_from(s, from)[k] == rest[k]);
            }
        }
    }
}

/// The value of a digit string is at least the value of each of its
/// prefixes.
proof fn lemma_value_prefix(s: Seq<u8>, k: int)
    requires
        0 <= k <= s.len(),
    ensures
        digits_value(s.subrange(0, k)) <= digits_value(s),
    decreases s.len(),
{
    if k < s.len() {
        lemma_value_prefix(s.drop_last(), k);
        assert(s.drop_last().subrange(0, k) =~= s.subrange(0, k));
    } else {
        assert(s.subrange(0, k) =~= s);
    }
}

/// The decimal digits of a number write that number, and they are a count
/// response: an offset that is sent as `decimal` names that offset and no
/// other.
pub proof fn lemma_decimal_is_count(n: nat)
    ensures
        decimal(n).len() > 0,
        all_digits(decimal(n)),
        digits_value(decimal(n)) == n,
        count_of(decimal(n)) == Some(n),
    decreases n,
{
    if n < 10 {
        let d = decimal(n);
        assert(d.drop_last() =~= Seq::<u8>::empty());
        assert(digits_value(d.drop_last()) == 0);
    } else {
        lemma_decimal_is_count(n / 10);
        let d = decimal(n);
        assert(d.drop_last() =~= decimal(n / 10));
        assert(d[0] == decimal(n / 10)[0]);
    }
}

/// The count that `response` writes, if it writes one that fits.
pub fn parse_count(response: &[u8]) -> (r: Option<u64>)
    ensures
        r == match count_of(response@) {
            Some(n) => if n <= u64::MAX {
                Some(n as u64)
            } else {
                None
            },
            None => None,
        },
{
    let start: usize = if response.len() > 0 && response[0] == 0x2B {
        1
    } else {
        0
    };
    let digits = slice_subrange(response, start, response.len());
    assert(digits@ =~= count_digits(response@));
    if digits.len() == 0 {
        return None;
    }
    let mut value: u64 = 0;
    let mut i: usize = 0;
    assert(digits@.subrange(0, 0) =~= Seq::<u8>::empty());
    while i < digits.len()
        invariant
            i <= digits.len(),
            digits.len() > 0,
            digits@ == count_digits(response@),
            all_digits(digits@.subrange(0, i as int)),
            value == digits_value(digits@.subrange(0, i as int)),
        decreases digits.len() - i,
    {
        let b = digits[i];
        if b < 0x30 || b > 0x39 {
            assert(!(0x30 <= digits@[i as int] <= 0x39));
            return None;
        }
        proof {
            let head = digits@.subrange(0, i + 1);
            assert(head.drop_last() =~= digits@.subrange(0, i as int));
            assert(head.last() == b);
            assert(digits_value(head) == value * 10 + (b - 0x30));
            lemma_value_prefix(digits@, i + 1);
            assert forall|k: int| 0 <= k < head.len() implies 0x30 <= #[trigger] head[k] <= 0x39 by {
                if k < i {
                    assert(head[k] == digits@.subrange(0, i as int)[k]);
                }
            }
        }
        let next = match value.checked_mul(10) {
            Some(tens) => tens.checked_add((b - 0x30) as u64),
            None => None,
        };
        match next {
            Some(v) => {
                value = v;
            },
            None => {
                return None;
            },
        }
        i += 1;
    }
    assert(digits@.subrange(0, digits.len() as int) =~= digits@);
    Some(value)
}

/// The decimal digits of `n`.
pub fn render_decimal(n: usize) -> (out: Vec<u8>)
    ensures
        out@ == decimal(n as nat),
    decreases n,
{
    if n < 10 {
        let out: Vec<u8> = vec![0x30 + n as u8];
        assert(out@ =~= decimal(n as nat));
        out
    } else {
        let mut out = render_decimal(n / 10);
        out.push(0x30 + (n % 10) as u8);
        out
    }
}

/// The bytes of the request for the count.
pub fn build_count_request() -> (out: Vec<u8>)
    ensures
        out@ == count_request(),
{
    let out: Vec<u8> = vec![COUNT_REQUEST];
    assert(out@ =~= count_request());
    out
}

/// The bytes of the request for what the log holds from offset `cursor` on.
pub fn build_delta_request(cursor: usize) -> (out: Vec<u8>)
    ensures
        out@ == delta_request(cursor as nat),
{
    let mut out: Vec<u8> = vec![DELTA_REQUEST];
    let mut digits = render_decimal(cursor);
    assert(out@ =~= seq![DELTA_REQUEST]);
    out.append(&mut digits);
    out
}

/// The bytes of the request that posts a message of `username`.
pub fn build_post_request(username: &str, text: &str, avatar_url: Option<&str>) -> (out: Vec<u8>)
    ensures
        out@ == post_request(
            encoded(
                username@,
                text@,
                match avatar_url {
                    Some(url) => Some(url@),
                    None => None,
                },
            ),
        ),
{
    let payload = encode(username, text, avatar_url);
    let mut out: Vec<u8> = vec![POST_REQUEST];
    assert(out@ =~= seq![POST_REQUEST]);
    out.extend_from_slice(payload.as_str().as_bytes());
    out
}

/// Decodes the lines of `text`, in order, leaving out the empty ones.
pub fn decode_batch(text: &str) -> (out: Vec<MessageResponse>)
    ensures
        views(out@) == batch_of(text@),
{
    let rules = registry();
    let chars = to_chars(text);
    let s: &[char] = chars.as_slice();
    let mut out: Vec<MessageResponse> = Vec::new();
    let mut from: usize = 0;
    assert(views(out@) =~= Seq::empty());
    while from < s.len()
        invariant
            from <= s.len(),
            s@ == text@,
            rules.deep_view() == crate::clients::rules(),
            views(out@) + lines_from(s@, from as int).map_values(|line: Seq<char>| decoded(line))
                == batch_of(text@),
        decreases s.len() - from,
    {
        let to = skip_until(s, '\n', from);
        let next: usize = if to < s.len() {
            to + 1
        } else {
            to
        };
        proof {
            assert(lines_from(s@, s.len() as int) =~= Seq::empty());
            let rest = lines_from(s@, next as int).map_values(|line: Seq<char>| decoded(line));
            if to > from {
                let line = s@.subrange(from as int, to as int);
                assert(lines_from(s@, from as int) == seq![line] + lines_from(s@, next as int));
                assert((seq![line] + lines_from(s@, next as int)).map_values(
                    |line: Seq<char>| decoded(line),
                ) =~= seq![decoded(line)] + rest);
            } else {
                assert(lines_from(s@, from as int) == lines_from(s@, next as int));
            }
        }
        if to > from {
            let ghost before = views(out@);
            let item = decode_chars(rules.as_slice(), slice_subrange(s, from, to));
            out.push(item);
            proof {
                let rest = lines_from(s@, next as int).map_values(|line: Seq<char>| decoded(line));
                assert(views(out@) =~= before.push(item@));
                assert(before.push(item@) + rest =~= before + (seq![item@] + rest));
            }
        }
        from = next;
    }
    assert(lines_from(s@, from as int) =~= Seq::empty());
    assert(views(out@) + Seq::empty() =~= views(out@));
    out
}

/// What `String::from_utf8_lossy` makes of `bytes`: the text that they
/// encode, with the replacement character in place of what is not UTF-8.
pub uninterp spec fn utf8_lossy(bytes: Seq<u8>) -> Seq<char>;

/// Calls `String::from_utf8_lossy` and takes the text as its own string.
/// The text depends on the bytes alone; where the bytes are valid UTF-8 it
/// is the text that they encode.
#[verifier::external_body]
fn lossy_text(bytes: &[u8]) -> (text: String)
    ensures
        text@ == utf8_lossy(bytes@),
        valid_utf8(bytes@) ==> text@ == decode_utf8(bytes@),
{
    String::from_utf8_lossy(bytes).into_owned()
}

/// Decodes the lines of a delta, read as UTF-8 text.
pub fn decode_delta(bytes: &[u8]) -> (out: Vec<MessageResponse>)
    ensures
        views(out@) == batch_of(utf8_lossy(bytes@)),
        valid_utf8(bytes@) ==> views(out@) == batch_of(decode_utf8(bytes@)),
{
    let text = lossy_text(bytes);
    decode_batch(text.as_str())
}

} // verus!
