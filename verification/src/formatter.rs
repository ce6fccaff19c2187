//! The message codec: from a raw line to a structured message and from an
//! outgoing message to its wire text.

use crate::clients::{registry, rules, Clients, Signature};
use crate::grammar::{
    avatar_token, before_marker, detect, envelope, find_client, find_envelope, find_marker,
    marker, marker_chars, remove_tags, strip_tags,
};
use crate::message::{Message, MessageResponse, MessageResponseView, MessageView};
use crate::sanitizer::{sanitize_chars, sanitized};
use crate::text::{to_chars, to_text, to_text_range, trim_bounds, trimmed};
use std::borrow::Cow;
use vstd::prelude::*;
use vstd::slice::slice_subrange;

verus! {

/// The text in which the time stamp and the signature of `line` are looked
/// for: the line without the avatar marker and what follows it, without
/// surrounding white space, without tags, sanitized.
pub open spec fn working_text(line: Seq<char>) -> Seq<char> {
    sanitized(strip_tags(trimmed(before_marker(line))))
}

/// What `line` decodes to under the registry `rules`.
///
/// The raw string is the line as it came. The message is absent if the
/// working text has no time stamp. Else it holds the time stamp, the avatar
/// token of the line, and the client, user name and content that the first
/// matching rule yields; where no rule matches, the client is absent and
/// user name and content are empty.
pub open spec fn decoded_with(line: Seq<char>, rules: Seq<(Seq<char>, Clients)>) -> MessageResponseView {
    MessageResponseView {
        message: match envelope(working_text(line)) {
            None => None,
            Some((timestamp, rest)) => Some(
                match detect(rest, rules) {
                    Some((client, username, content)) => MessageView {
                        content,
                        username,
                        timestamp: Some(timestamp),
                        client: Some(client),
                        avatar_url: avatar_token(line),
                    },
                    None => MessageView {
                        content: Seq::empty(),
                        username: Seq::empty(),
                        timestamp: Some(timestamp),
                        client: None,
                        avatar_url: avatar_token(line),
                    },
                },
            ),
        },
        raw_string: line,
    }
}

/// What `line` decodes to under the registry of the known clients.
pub open spec fn decoded(line: Seq<char>) -> MessageResponseView {
    decoded_with(line, rules())
}

/// The wire text of an outgoing message: the signature of `Tower`, the user
/// name between `<` and `> `, the text, and, where an avatar is given, the
/// avatar marker and the avatar's address.
pub open spec fn encoded(username: Seq<char>, text: Seq<char>, avatar_url: Option<Seq<char>>) -> Seq<
    char,
> {
    let line = Clients::Tower.glyphs().push('<') + username + seq!['>', ' '] + text;
    match avatar_url {
        Some(url) => line + marker() + url,
        None => line,
    }
}

/// `text` without escape sequences and control characters.
pub fn sanitize(text: &str) -> (out: String)
    ensures
        out@ == sanitized(text@),
{
    let chars = to_chars(text);
    let plain = sanitize_chars(chars.as_slice());
    to_text(plain.as_slice())
}

/// Decodes the line made of the characters `whole` under the registry
/// `rules`.
pub fn decode_chars(rules: &[Signature], whole: &[char]) -> (out: MessageResponse)
    ensures
        out@ == decoded_with(whole@, rules.deep_view()),
{
    let (work, avatar_url): (&[char], Option<String>) = match find_marker(whole) {
        None => {
            assert(whole@.subrange(0, whole.len() as int) =~= whole@);
            (whole, None)
        },
        Some((lo, at, hi)) => {
            let m = marker_chars();
            (slice_subrange(whole, lo, at), Some(to_text_range(whole, at + m.len(), hi)))
        },
    };
    assert(work@ == before_marker(whole@));
    let (from, to) = trim_bounds(work);
    let bare = remove_tags(slice_subrange(work, from, to));
    let text = sanitize_chars(bare.as_slice());
    assert(text@ == working_text(whole@));
    let message = match find_envelope(text.as_slice()) {
        None => None,
        Some((open, close)) => {
            let timestamp = to_text_range(text.as_slice(), open, close);
            let rest = slice_subrange(text.as_slice(), close + 2, text.len());
            match find_client(rest, rules) {
                Some((client, name, end)) => Some(
                    Message {
                        content: to_text_range(rest, end + 2, rest.len()),
                        username: to_text_range(rest, name, end),
                        timestamp: Some(timestamp),
                        client: Some(client),
                        avatar_url,
                    },
                ),
                None => Some(
                    Message {
                        content: String::new(),
                        username: String::new(),
                        timestamp: Some(timestamp),
                        client: None,
                        avatar_url,
                    },
                ),
            }
        },
    };
    MessageResponse { message, raw_string: to_text(whole) }
}

/// Decodes `line` under the registry `rules`.
pub fn decode_with(rules: &[Signature], line: &str) -> (out: MessageResponse)
    ensures
        out@ == decoded_with(line@, rules.deep_view()),
{
    let chars = to_chars(line);
    decode_chars(rules, chars.as_slice())
}

/// Decodes `line` under the registry of the known clients.
pub fn decode(line: &str) -> (out: MessageResponse)
    ensures
        out@ == decoded(line@),
{
    let rules = registry();
    decode_with(rules.as_slice(), line)
}

/// Appends the characters of `chars` to `out`.
fn push_chars(out: &mut String, chars: &[char])
    ensures
        final(out)@ == old(out)@ + chars@,
{
    let mut i: usize = 0;
    assert(out@ + chars@.take(0) =~= out@);
    while i < chars.len()
        invariant
            i <= chars.len(),
            out@ == old(out)@ + chars@.take(i as int),
        decreases chars.len() - i,
    {
        out.push(chars[i]);
        i += 1;
        assert(chars@.take(i as int) =~= chars@.take(i - 1).push(chars@[i - 1]));
        assert(old(out)@ + chars@.take(i - 1).push(chars@[i - 1]) =~= (old(out)@ + chars@.take(
            i - 1,
        )).push(chars@[i - 1]));
    }
    assert(chars@.take(chars.len() as int) =~= chars@);
}

/// The wire text of an outgoing message.
pub fn encode(username: &str, text: &str, avatar_url: Option<&str>) -> (out: String)
    ensures
        out@ == encoded(
            username@,
            text@,
            match avatar_url {
                Some(url) => Some(url@),
                None => None,
            },
        ),
{
    let mut out = String::new();
    let glyphs = Clients::Tower.signature();
    push_chars(&mut out, glyphs.as_slice());
    out.push('<');
    push_chars(&mut out, to_chars(username).as_slice());
    out.push('>');
    out.push(' ');
    push_chars(&mut out, to_chars(text).as_slice());
    assert(out@ =~= Clients::Tower.glyphs().push('<') + username@ + seq!['>', ' '] + text@);
    match avatar_url {
        Some(url) => {
            push_chars(&mut out, marker_chars().as_slice());
            push_chars(&mut out, to_chars(url).as_slice());
        },
        None => {},
    }
    out
}

/// Decodes every line of a batch, in order.
pub fn format_messages(messages: Vec<Cow<str>>) -> (out: Vec<MessageResponse>)
    ensures
        out.len() == messages.len(),
        forall|i: int| 0 <= i < messages.len() ==> (#[trigger] out[i])@ == decoded(messages[i]@),
{
    let rules = registry();
    let mut out: Vec<MessageResponse> = Vec::new();
    let mut i: usize = 0;
    while i < messages.len()
        invariant
            i <= messages.len(),
            out.len() == i,
            rules.deep_view() == crate::clients::rules(),
            forall|k: int| 0 <= k < i ==> (#[trigger] out[k])@ == decoded(messages[k]@),
        decreases messages.len() - i,
    {
        let line: &str = match &messages[i] {
            Cow::Borrowed(s) => s,
            Cow::Owned(s) => s.as_str(),
        };
        out.push(decode_with(rules.as_slice(), line));
        i += 1;
    }
    out
}

/// Decoding is a function of the line: two responses decoded from lines
/// with the same characters hold the same values, whatever was decoded
/// before.
pub proof fn lemma_decode_pure(first: MessageResponse, second: MessageResponse, line: Seq<char>)
    requires
        first@ == decoded(line),
        second@ == decoded(line),
    ensures
        first@ == second@,
{
}

/// A line in whose text the signature of a client with glyphs is found
/// behind the time stamp is attributed to a client with glyphs, never to
/// the fallback, whose signature is found in it too.
pub proof fn lemma_decode_prefers_specific(line: Seq<char>, client: Clients)
    requires
        client != Clients::clRAC,
        match envelope(working_text(line)) {
            Some((timestamp, rest)) => crate::grammar::signed(rest, client.glyphs()) is Some,
            None => false,
        },
    ensures
        match envelope(working_text(line)) {
            Some((timestamp, rest)) => crate::grammar::signed(rest, Clients::clRAC.glyphs())
                is Some,
            None => false,
        },
        match decoded(line).message {
            Some(message) => message.client is Some && message.client != Some(Clients::clRAC),
            None => false,
        },
{
    match envelope(working_text(line)) {
        Some((timestamp, rest)) => {
            crate::grammar::lemma_specific_beats_fallback(rest, client);
        },
        None => {},
    }
}

} // verus!
