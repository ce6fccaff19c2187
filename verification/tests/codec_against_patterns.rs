//! The codec's grammar, held against the same grammar written as regular
//! expressions.

use rac_client::clients::Clients;
use rac_client::formatter::{decode, sanitize};
use regex::Regex;

struct Patterns {
    date: Regex,
    clients: Vec<(Regex, Clients)>,
    braces: Regex,
    ansi: Regex,
    control: Regex,
    avatar: Regex,
}

fn patterns() -> Patterns {
    Patterns {
        date: Regex::new(r"\[(.*?)\] (.*)").unwrap(),
        clients: vec![
            (Regex::new(r"\u{25B2}<(.*?)> (.*)").unwrap(), Clients::Tower),
            (Regex::new(r"\u{B9AC}\u{3E70}<(.*?)> (.*)").unwrap(), Clients::bRAC),
            (Regex::new(r"\u{2550}\u{2550}\u{2550}<(.*?)> (.*)").unwrap(), Clients::CRAB),
            (Regex::new(r"\u{00B0}\u{0298}<(.*?)> (.*)").unwrap(), Clients::Mefedroniy),
            (Regex::new(r"\u{0D9E}<(.*?)> (.*)").unwrap(), Clients::Snowdrop),
            (Regex::new(r"<(.*?)> (.*)").unwrap(), Clients::clRAC),
        ],
        braces: Regex::new(r"\{[^}]*\}\s").unwrap(),
        ansi: Regex::new(r"\x1B(?:[@-Z\\-_]|\[[0-?]*[ -/]*[@-~])").unwrap(),
        control: Regex::new(r"[\x00-\x1F\x7F]").unwrap(),
        avatar: Regex::new(r"(.*)\x06!!AR!!(.*)").unwrap(),
    }
}

fn sanitize_by_patterns(p: &Patterns, text: &str) -> String {
    let removed_ansi = p.ansi.replace_all(text, "");
    p.control.replace_all(&removed_ansi, "").into_owned()
}

/// (content, username, timestamp, client, avatar) where the line has a time
/// stamp.
type Fields = (String, String, Option<String>, Option<Clients>, Option<String>);

fn decode_by_patterns(p: &Patterns, line: &str) -> Option<Fields> {
    let (message, avatar) = match p.avatar.captures(line) {
        Some(caps) => (
            caps.get(1).unwrap().as_str().to_string(),
            Some(caps.get(2).unwrap().as_str().to_string()),
        ),
        None => (line.to_string(), None),
    };
    let cleaned = p.braces.replace_all(message.trim(), "");
    let sanitized = sanitize_by_patterns(p, &cleaned);
    let date = p.date.captures(&sanitized)?;
    let timestamp = date.get(1).unwrap().as_str().to_string();
    let rest = date.get(2).unwrap().as_str();
    for (pattern, client) in p.clients.iter() {
        if let Some(cap) = pattern.captures(rest) {
            return Some((
                cap.get(2).unwrap().as_str().to_string(),
                cap.get(1).unwrap().as_str().to_string(),
                Some(timestamp),
                Some(*client),
                avatar,
            ));
        }
    }
    Some((String::new(), String::new(), Some(timestamp), None, avatar))
}

fn decode_fields(line: &str) -> Option<Fields> {
    let out = decode(line);
    assert_eq!(out.raw_string, line);
    out.message.map(|m| (m.content, m.username, m.timestamp, m.client, m.avatar_url))
}

/// A deterministic stream of numbers.
struct Stream(u64);

impl Stream {
    fn next(&mut self, bound: usize) -> usize {
        self.0 = self.0.wrapping_mul(6364136223846793005).wrapping_add(1442695040888963407);
        ((self.0 >> 33) as usize) % bound
    }
}

const PIECES: [&str; 44] = [
    "[", "]", "] ", " ", "<", ">", "> ", "{", "}", "} ", "\u{25B2}", "\u{25B2}<", "\u{B9AC}",
    "\u{3E70}", "\u{B9AC}\u{3E70}<", "\u{2550}", "\u{2550}\u{2550}\u{2550}<", "\u{00B0}",
    "\u{0298}", "\u{00B0}\u{0298}<", "\u{0D9E}", "\u{0D9E}<", "\x06", "!!AR!!", "\x06!!AR!!",
    "!", "A", "R", "\x1b", "\x1b[", "0", ";", "?", "/", "m", "~", "\\", "_", "\n", "\r", "\t",
    "\u{7f}", "\u{a0}", "a",
];

fn random_line(stream: &mut Stream, max_pieces: usize) -> String {
    let n = stream.next(max_pieces + 1);
    let mut line = String::new();
    for _ in 0..n {
        line.push_str(PIECES[stream.next(PIECES.len())]);
    }
    line
}

#[test]
fn sanitize_agrees_with_patterns_on_random_text() {
    let p = patterns();
    let mut stream = Stream(7);
    for _ in 0..20000 {
        let text = random_line(&mut stream, 12);
        assert_eq!(sanitize(&text), sanitize_by_patterns(&p, &text), "text {:?}", text);
    }
}

#[test]
fn sanitize_is_idempotent_on_random_text() {
    let mut stream = Stream(5);
    for _ in 0..20000 {
        let text = random_line(&mut stream, 12);
        let once = sanitize(&text);
        assert_eq!(sanitize(&once), once, "text {:?}", text);
    }
}

#[test]
fn decode_agrees_with_patterns_on_random_lines() {
    let p = patterns();
    let mut stream = Stream(11);
    for _ in 0..20000 {
        let line = random_line(&mut stream, 14);
        assert_eq!(decode_fields(&line), decode_by_patterns(&p, &line), "line {:?}", line);
    }
}

#[test]
fn decode_agrees_with_patterns_on_stamped_random_lines() {
    let p = patterns();
    let mut stream = Stream(13);
    for _ in 0..20000 {
        let line = format!("[12:00] {}", random_line(&mut stream, 10));
        assert_eq!(decode_fields(&line), decode_by_patterns(&p, &line), "line {:?}", line);
    }
}

#[test]
fn decode_agrees_with_patterns_on_chosen_lines() {
    let p = patterns();
    let lines = [
        "",
        "[12:00] \u{25B2}<alice> hello",
        "[12:00] <alice> hello",
        "[12:00] \u{B9AC}\u{3E70}<bob> hi there",
        "[12:00] \u{2550}\u{2550}\u{2550}<carol> x",
        "[12:00] \u{00B0}\u{0298}<dave> y",
        "[12:00] \u{0D9E}<erin> z",
        "[12:00] \u{25B2}<alice> hello\x06!!AR!!https://example.org/a.png",
        "[12:00] \u{25B2}<alice> a\x06!!AR!!b\x06!!AR!!c",
        "first\n[12:00] <a> b\x06!!AR!!url\nlast",
        "first\x06!!AR!!one\nsecond\x06!!AR!!two",
        "  [12:00] {tag} \u{25B2}<alice> {x}\thello  ",
        "[12:00] {a{b} <n> {}{} c",
        "[12:00] \x1b[31m<red>\x1b[0m text",
        "[12:00] \x1b[1;2 /m<n> \x1bZ c \x1b[ x",
        "[a[b] c] <n> d",
        "no stamp <n> d",
        "[12:00]x <n> d",
        "[12:00] nothing to see",
        "[12:00] <> ",
        "[12:00] x\u{25B2}<a\u{25B2}<b> c> d",
        "[12:00] <a> \u{0D9E}<b> c",
        "[12:00] \u{0D9E}<b c",
        "\u{a0}[12:00] <a> b\u{3000}",
    ];
    for line in lines.iter() {
        assert_eq!(decode_fields(line), decode_by_patterns(&p, line), "line {:?}", line);
    }
}
