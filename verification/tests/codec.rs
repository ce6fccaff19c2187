//! Decoding and encoding of single lines.

use rac_client::clients::{registry, Clients};
use rac_client::formatter::{decode, decode_with, encode, format_messages, sanitize};
use rac_client::message::{Message, MessageResponse};
use std::borrow::Cow;

fn parsed(line: &str) -> Message {
    decode(line).message.expect("the line has a time stamp")
}

#[test]
fn decode_recovers_what_encode_wrote() {
    let line = format!("[12:00] {}", encode("alice", "hello", None));
    let out = decode(&line);
    assert_eq!(out.raw_string, line);
    assert_eq!(
        out.message,
        Some(Message {
            content: "hello".to_string(),
            username: "alice".to_string(),
            timestamp: Some("12:00".to_string()),
            client: Some(Clients::Tower),
            avatar_url: None,
        })
    );
}

#[test]
fn decode_recovers_the_avatar_that_encode_wrote() {
    let line = format!("[12:00] {}", encode("alice", "hello", Some("https://a.example/me.png")));
    let message = parsed(&line);
    assert_eq!(message.username, "alice");
    assert_eq!(message.content, "hello");
    assert_eq!(message.client, Some(Clients::Tower));
    assert_eq!(message.avatar_url, Some("https://a.example/me.png".to_string()));
}

#[test]
fn encode_writes_the_tower_signature() {
    assert_eq!(encode("alice", "hello", None), "\u{25B2}<alice> hello");
    assert_eq!(encode("", "", None), "\u{25B2}<> ");
}

#[test]
fn encode_appends_marker_and_avatar() {
    assert_eq!(encode("bob", "hi", Some("url")), "\u{25B2}<bob> hi\x06!!AR!!url");
    assert_eq!(encode("bob", "hi", Some("")), "\u{25B2}<bob> hi\x06!!AR!!");
}

#[test]
fn each_signature_is_attributed_to_its_client() {
    let cases = [
        ("[1] \u{25B2}<u> c", Clients::Tower),
        ("[1] \u{B9AC}\u{3E70}<u> c", Clients::bRAC),
        ("[1] \u{2550}\u{2550}\u{2550}<u> c", Clients::CRAB),
        ("[1] \u{00B0}\u{0298}<u> c", Clients::Mefedroniy),
        ("[1] \u{0D9E}<u> c", Clients::Snowdrop),
        ("[1] <u> c", Clients::clRAC),
    ];
    for (line, client) in cases.iter() {
        let message = parsed(line);
        assert_eq!(message.client, Some(*client), "line {:?}", line);
        assert_eq!(message.username, "u");
        assert_eq!(message.content, "c");
        assert_eq!(message.timestamp, Some("1".to_string()));
    }
}

#[test]
fn glyphs_win_over_the_fallback() {
    // The fallback's signature `<a> ` stands before the glyphs and would
    // yield another user name.
    let message = parsed("[1] <a> \u{0D9E}<b> c");
    assert_eq!(message.client, Some(Clients::Snowdrop));
    assert_eq!(message.username, "b");
    assert_eq!(message.content, "c");
}

#[test]
fn earlier_rule_wins_over_later_rule() {
    let message = parsed("[1] \u{0D9E}<s> x \u{25B2}<t> y");
    assert_eq!(message.client, Some(Clients::Tower));
    assert_eq!(message.username, "t");
    assert_eq!(message.content, "y");
}

#[test]
fn incomplete_glyphs_fall_back() {
    // Two of CRAB's three glyphs are no signature of CRAB.
    let message = parsed("[1] \u{2550}\u{2550}<u> c");
    assert_eq!(message.client, Some(Clients::clRAC));
    assert_eq!(message.username, "u");
}

#[test]
fn line_without_time_stamp_is_not_parsed() {
    let out = decode("\u{25B2}<alice> hello");
    assert_eq!(out.message, None);
    assert_eq!(out.raw_string, "\u{25B2}<alice> hello");
    assert_eq!(decode("").message, None);
    assert_eq!(decode("[12:00]\u{25B2}<alice> hello").message, None);
}

#[test]
fn time_stamp_without_signature_is_parsed_and_unattributed() {
    let out = decode("[12:00] server restarted");
    assert_eq!(
        out.message,
        Some(Message {
            content: String::new(),
            username: String::new(),
            timestamp: Some("12:00".to_string()),
            client: None,
            avatar_url: None,
        })
    );
    assert_eq!(out.raw_string, "[12:00] server restarted");
}

#[test]
fn raw_string_is_the_line_as_it_came() {
    let line = "  [1] {tag} \x1b[31m<u>\x1b[0m c\x06!!AR!!pic  ";
    let out = decode(line);
    assert_eq!(out.raw_string, line);
    let message = out.message.unwrap();
    assert_eq!(message.username, "u");
    assert_eq!(message.content, "c");
    assert_eq!(message.avatar_url, Some("pic  ".to_string()));
}

#[test]
fn marker_is_read_before_control_characters_are_removed() {
    let message = parsed("[1] <u> c\x06!!AR!!http://x/\x1b[0m");
    assert_eq!(message.content, "c");
    assert_eq!(message.avatar_url, Some("http://x/\x1b[0m".to_string()));
}

#[test]
fn last_marker_of_the_line_splits_it() {
    let message = parsed("[1] <u> a\x06!!AR!!b\x06!!AR!!c");
    assert_eq!(message.avatar_url, Some("c".to_string()));
    // The first marker stays in the text, where its control character is
    // removed.
    assert_eq!(message.content, "a!!AR!!b");
}

#[test]
fn tags_are_removed_everywhere() {
    let message = parsed("{a} [1] {b} <{c} u> {d} c{e}\t!");
    assert_eq!(message.timestamp, Some("1".to_string()));
    assert_eq!(message.username, "u");
    assert_eq!(message.content, "c!");
}

#[test]
fn tag_needs_white_space_behind_it() {
    let message = parsed("[1] <u> {a}b {c}");
    assert_eq!(message.content, "{a}b {c}");
}

#[test]
fn surrounding_white_space_is_dropped() {
    let message = parsed(" \t[1] <u> c \u{3000}");
    assert_eq!(message.content, "c");
}

#[test]
fn time_stamp_runs_to_the_first_closing_bracket_with_space() {
    let message = parsed("x[a]b] [c] <u> d");
    assert_eq!(message.timestamp, Some("a]b".to_string()));
    assert_eq!(message.username, "u");
    assert_eq!(message.content, "d");
}

#[test]
fn user_name_runs_to_the_first_closing_angle_with_space() {
    let message = parsed("[1] <a>b> c> d");
    assert_eq!(message.username, "a>b");
    assert_eq!(message.content, "c> d");
}

#[test]
fn sanitize_removes_escape_sequences_and_control_characters() {
    assert_eq!(sanitize("\x1b[31mred\x1b[0m"), "red");
    assert_eq!(sanitize("\x1b[1;31;40 /mx"), "x");
    assert_eq!(sanitize("a\x1bZb\x1b\\c\x1b_d"), "abcd");
    assert_eq!(sanitize("a\x00b\x1fc\x7fd\ne\tf"), "abcdef");
    // An escape character that starts no sequence is a control character.
    assert_eq!(sanitize("a\x1b[b"), "a");
    assert_eq!(sanitize("a\x1b[\u{e9}"), "a[\u{e9}");
    assert_eq!(sanitize("a\x1b[12"), "a[12");
    assert_eq!(sanitize("a\x1b"), "a");
    assert_eq!(sanitize("\u{25B2}<\u{e9}> \u{80}"), "\u{25B2}<\u{e9}> \u{80}");
    assert_eq!(sanitize(""), "");
}

#[test]
fn sanitize_twice_is_sanitize_once() {
    let texts = [
        "\x1b\x1b[0mm",
        "\x1b[\x1b[0mm",
        "\x1b\x00[0m",
        "\x1b[3\x071m",
        "plain",
        "\x1b[0m\x1b",
        "\x1b\x1bZZ",
    ];
    for text in texts.iter() {
        let once = sanitize(text);
        assert_eq!(sanitize(&once), once, "text {:?}", text);
    }
}

#[test]
fn sanitize_goes_on_behind_a_sequence() {
    // The sequence `ESC [ 0 m` is removed as a whole; the `m` behind it
    // stays although `ESC m` would not be a sequence anyway, and the second
    // escape starts a sequence of its own.
    assert_eq!(sanitize("\x1b[0m\x1bZm"), "m");
    assert_eq!(sanitize("\x1b\x1b[0mm"), "m");
}

#[test]
fn decode_is_the_same_on_every_call() {
    let line = "[1] \u{25B2}<u> c\x06!!AR!!a";
    let first = decode(line);
    let _ = decode("[2] <other> line");
    let second = decode(line);
    assert_eq!(first, second);
}

#[test]
fn decode_with_follows_the_order_of_the_registry() {
    let mut rules = registry();
    let line = "[1] \u{25B2}<t> x";
    assert_eq!(decode_with(&rules, line).message.unwrap().client, Some(Clients::Tower));
    // With the fallback first, every line is attributed to it.
    rules.reverse();
    assert_eq!(decode_with(&rules, line).message.unwrap().client, Some(Clients::clRAC));
    assert_eq!(decode_with(&[], line).message.unwrap().client, None);
}

#[test]
fn registry_is_in_priority_order() {
    let order: Vec<Clients> = registry().iter().map(|rule| rule.client).collect();
    assert_eq!(
        order,
        vec![
            Clients::Tower,
            Clients::bRAC,
            Clients::CRAB,
            Clients::Mefedroniy,
            Clients::Snowdrop,
            Clients::clRAC
        ]
    );
    for rule in registry().iter() {
        assert_eq!(rule.glyphs, rule.client.signature());
    }
    assert_eq!(Clients::clRAC.signature(), Vec::<char>::new());
    assert_eq!(Clients::CRAB.signature(), vec!['\u{2550}'; 3]);
}

#[test]
fn client_names() {
    assert_eq!(Clients::Tower.name(), "Tower");
    assert_eq!(Clients::bRAC.name(), "bRAC");
    assert_eq!(Clients::Mefedroniy.name(), "Mefedroniy");
    assert_eq!(Clients::CRAB.name(), "CRAB");
    assert_eq!(Clients::clRAC.name(), "clRAC");
    assert_eq!(Clients::Snowdrop.name(), "Snowdrop");
}

#[test]
fn client_is_found_by_its_name() {
    let all = [
        Clients::Tower,
        Clients::bRAC,
        Clients::Mefedroniy,
        Clients::CRAB,
        Clients::clRAC,
        Clients::Snowdrop,
    ];
    for client in all.iter() {
        assert_eq!(Clients::from_name(&client.name()), Some(*client));
    }
    assert_eq!(Clients::from_name(""), None);
    assert_eq!(Clients::from_name("tower"), None);
    assert_eq!(Clients::from_name("Tower "), None);
    assert_eq!(Clients::from_name("CRABs"), None);
}

#[test]
fn format_messages_decodes_each_line_in_order() {
    let lines: Vec<Cow<str>> = vec![
        Cow::Borrowed("[1] <a> x"),
        Cow::Owned("nothing".to_string()),
        Cow::Borrowed("[2] \u{25B2}<b> y"),
    ];
    let out: Vec<MessageResponse> = format_messages(lines);
    assert_eq!(out.len(), 3);
    assert_eq!(out[0], decode("[1] <a> x"));
    assert_eq!(out[1], decode("nothing"));
    assert_eq!(out[2], decode("[2] \u{25B2}<b> y"));
    assert_eq!(out[1].message, None);
    assert_eq!(out[2].message.as_ref().unwrap().client, Some(Clients::Tower));
    assert_eq!(format_messages(Vec::new()), Vec::new());
}
