//! Characters, searches and the single rules of the grammar.

use rac_client::clients::{registry, Clients};
use rac_client::grammar::{
    find_bracket, find_client, find_envelope, find_marker, find_signed, marker_chars,
    remove_tags, tag_end,
};
use rac_client::sanitizer::{
    escape_end, is_control, is_in_range, remove_controls, remove_escapes, sanitize_chars,
    skip_span,
};
use rac_client::text::{
    end_of_line, find, is_white_space, rfind, skip_until, start_of_line, starts_at, to_chars,
    to_text, to_text_range, trim_bounds,
};
use regex::Regex;

fn chars(s: &str) -> Vec<char> {
    s.chars().collect()
}

fn text(c: &[char]) -> String {
    c.iter().collect()
}

#[test]
fn strings_and_characters_convert_both_ways() {
    for s in ["", "a", "h\u{e9}llo \u{25B2} \u{1F600}\n", "\x00\x06\x7f"] {
        assert_eq!(to_chars(s), chars(s));
        assert_eq!(to_text(&chars(s)), s);
    }
    assert_eq!(to_text_range(&chars("h\u{e9}llo"), 1, 3), "\u{e9}l");
    assert_eq!(to_text_range(&chars("abc"), 3, 3), "");
    assert_eq!(to_text_range(&chars("abc"), 0, 3), "abc");
}

#[test]
fn white_space_is_the_unicode_property() {
    let pattern = Regex::new(r"^\s$").unwrap();
    let mut buffer = [0u8; 4];
    for code in 0..=0x10FFFFu32 {
        if let Some(c) = char::from_u32(code) {
            assert_eq!(is_white_space(c), c.is_whitespace(), "code point {:#x}", code);
            if code < 0x4000 {
                let s: &str = c.encode_utf8(&mut buffer);
                assert_eq!(is_white_space(c), pattern.is_match(s), "code point {:#x}", code);
            }
        }
    }
}

#[test]
fn control_characters() {
    for code in 0..=0x10FFFFu32 {
        if let Some(c) = char::from_u32(code) {
            assert_eq!(is_control(c), code <= 0x1F || code == 0x7F, "code point {:#x}", code);
        }
    }
    assert!(is_in_range('0', 0x30, 0x3F));
    assert!(is_in_range('?', 0x30, 0x3F));
    assert!(!is_in_range('/', 0x30, 0x3F));
    assert!(!is_in_range('@', 0x30, 0x3F));
}

#[test]
fn trim_bounds_agree_with_trim() {
    for s in [
        "",
        " ",
        " \t\n",
        "a",
        " a",
        "a ",
        "  a b  ",
        "\u{a0}\u{2003}x\u{3000}\u{85}",
        "\u{200b}x\u{200b}",
        "\u{180e}x",
    ] {
        let c = chars(s);
        let (from, to) = trim_bounds(&c);
        assert!(from <= to && to <= c.len());
        assert_eq!(text(&c[from..to]), s.trim(), "text {:?}", s);
    }
    assert_eq!(trim_bounds(&chars("   ")), (0, 0));
    assert_eq!(trim_bounds(&chars(" ab ")), (1, 3));
}

#[test]
fn starts_at_compares_in_place() {
    let s = chars("abcabc");
    assert!(starts_at(&s, &chars("abc"), 0));
    assert!(starts_at(&s, &chars("abc"), 3));
    assert!(!starts_at(&s, &chars("abc"), 1));
    assert!(!starts_at(&s, &chars("abc"), 4));
    assert!(!starts_at(&s, &chars("abc"), usize::MAX));
    assert!(starts_at(&s, &chars(""), 6));
    assert!(!starts_at(&s, &chars(""), 7));
    assert!(!starts_at(&chars("ab"), &chars("abc"), 0));
}

#[test]
fn find_returns_the_first_occurrence() {
    let s = chars("xx> a> b");
    assert_eq!(find(&s, &chars("> "), 0), Some(2));
    assert_eq!(find(&s, &chars("> "), 2), Some(2));
    assert_eq!(find(&s, &chars("> "), 3), Some(5));
    assert_eq!(find(&s, &chars("> "), 6), None);
    assert_eq!(find(&s, &chars("> "), 100), None);
    assert_eq!(find(&s, &chars(""), 8), Some(8));
    assert_eq!(find(&s, &chars(""), 9), None);
    assert_eq!(find(&chars(""), &chars("a"), 0), None);
    assert_eq!(find(&chars("aaa"), &chars("aa"), 0), Some(0));
    assert_eq!(find(&chars("aaa"), &chars("aa"), 1), Some(1));
    assert_eq!(find(&chars("aaa"), &chars("aa"), 2), None);
}

#[test]
fn find_agrees_with_the_standard_search() {
    let hay = "ab\u{25B2}<ab> \u{25B2}<\u{25B2}<> > ab";
    let s = chars(hay);
    for pat in ["a", "ab", "\u{25B2}<", "> ", "<>", "zz", "b> "] {
        let p = chars(pat);
        for from in 0..=s.len() + 1 {
            let expected = if from <= s.len() {
                let skipped: String = s[from..].iter().collect();
                skipped.find(pat).map(|byte| from + skipped[..byte].chars().count())
            } else {
                None
            };
            assert_eq!(find(&s, &p, from), expected, "pattern {:?} from {}", pat, from);
        }
    }
}

#[test]
fn rfind_returns_the_last_occurrence_in_range() {
    let s = chars("a.b.c.d");
    let dot = chars(".");
    assert_eq!(rfind(&s, &dot, 0, 6), Some(5));
    assert_eq!(rfind(&s, &dot, 0, 4), Some(3));
    assert_eq!(rfind(&s, &dot, 2, 2), None);
    assert_eq!(rfind(&s, &dot, 1, 1), Some(1));
    assert_eq!(rfind(&s, &dot, 4, 3), None);
    assert_eq!(rfind(&s, &dot, 0, 100), Some(5));
    assert_eq!(rfind(&s, &chars("zz"), 0, 6), None);
}

#[test]
fn line_bounds() {
    let s = chars("ab\ncd\n\nef");
    assert_eq!(start_of_line(&s, 0), 0);
    assert_eq!(start_of_line(&s, 2), 0);
    assert_eq!(start_of_line(&s, 3), 3);
    assert_eq!(start_of_line(&s, 4), 3);
    assert_eq!(start_of_line(&s, 6), 6);
    assert_eq!(start_of_line(&s, 9), 7);
    assert_eq!(end_of_line(&s, 0), 2);
    assert_eq!(end_of_line(&s, 2), 2);
    assert_eq!(end_of_line(&s, 3), 5);
    assert_eq!(end_of_line(&s, 6), 6);
    assert_eq!(end_of_line(&s, 7), 9);
    assert_eq!(end_of_line(&s, 9), 9);
    assert_eq!(skip_until(&s, 'd', 0), 4);
    assert_eq!(skip_until(&s, 'z', 0), 9);
    assert_eq!(skip_until(&s, 'a', 0), 0);
}

#[test]
fn escape_sequences() {
    let s = chars("\x1b[1;31 /m.\x1bZ.\x1b[.\x1b");
    assert_eq!(escape_end(&s, 0), 9);
    assert_eq!(escape_end(&s, 1), 1);
    assert_eq!(escape_end(&s, 10), 12);
    // `ESC [ .` has no final character, and the last escape stands alone.
    assert_eq!(escape_end(&s, 13), 13);
    assert_eq!(escape_end(&s, 16), 16);
    assert_eq!(skip_span(&s, 2, 0x30, 0x3F), 6);
    assert_eq!(skip_span(&s, 6, 0x20, 0x2F), 8);
    assert_eq!(skip_span(&s, 8, 0x20, 0x2F), 8);
    assert_eq!(skip_span(&s, s.len(), 0x20, 0x2F), s.len());
    assert_eq!(text(&remove_escapes(&s)), "..\x1b[.\x1b");
    assert_eq!(text(&remove_controls(&s)), "[1;31 /m.Z.[.");
    assert_eq!(text(&sanitize_chars(&s)), "..[.");
    // `[` itself ends no two-character sequence.
    assert_eq!(escape_end(&chars("\x1b["), 0), 0);
    assert_eq!(escape_end(&chars("\x1b\\"), 0), 2);
    assert_eq!(escape_end(&chars("\x1b_"), 0), 2);
    assert_eq!(escape_end(&chars("\x1b@"), 0), 2);
    assert_eq!(escape_end(&chars("\x1b`"), 0), 0);
    assert_eq!(escape_end(&chars("\x1b[~"), 0), 3);
    assert_eq!(escape_end(&chars("\x1b[\x7f"), 0), 0);
}

#[test]
fn marker_bounds_on_a_line() {
    assert_eq!(text(&marker_chars()), "\x06!!AR!!");
    assert_eq!(find_marker(&chars("plain")), None);
    assert_eq!(find_marker(&chars("\x06!!AR!")), None);
    assert_eq!(find_marker(&chars("ab\x06!!AR!!cd")), Some((0, 2, 11)));
    assert_eq!(find_marker(&chars("\x06!!AR!!")), Some((0, 0, 7)));
    assert_eq!(find_marker(&chars("a\x06!!AR!!b\x06!!AR!!c")), Some((0, 9, 17)));
    assert_eq!(find_marker(&chars("x\ny\x06!!AR!!u\nz\x06!!AR!!v")), Some((2, 3, 11)));
}

#[test]
fn tags() {
    let s = chars("{a} b{c}d {} {x");
    assert_eq!(tag_end(&s, 0), 4);
    assert_eq!(tag_end(&s, 1), 1);
    assert_eq!(tag_end(&s, 5), 5);
    assert_eq!(tag_end(&s, 10), 13);
    assert_eq!(tag_end(&s, 13), 13);
    assert_eq!(text(&remove_tags(&s)), "b{c}d {x");
    assert_eq!(text(&remove_tags(&chars("{a\nb}\nc"))), "c");
    assert_eq!(text(&remove_tags(&chars("{{a} b"))), "b");
    assert_eq!(text(&remove_tags(&chars("{a}"))), "{a}");
    assert_eq!(text(&remove_tags(&chars("{a}\u{a0}b"))), "b");
    assert_eq!(text(&remove_tags(&chars(""))), "");
}

#[test]
fn brackets() {
    let s = chars("x[a] [b] c");
    assert_eq!(find_bracket(&s, &chars("["), &chars("] ")), Some((2, 3)));
    assert_eq!(find_envelope(&s), Some((2, 3)));
    assert_eq!(find_envelope(&chars("] [a]")), None);
    assert_eq!(find_envelope(&chars("[] ")), Some((1, 1)));
    assert_eq!(find_envelope(&chars("no")), None);
    assert_eq!(find_bracket(&s, &chars("<"), &chars("] ")), None);
    assert_eq!(find_bracket(&chars("ab"), &chars(""), &chars("")), Some((0, 0)));
}

#[test]
fn signatures() {
    let rest = chars("x\u{25B2}<n> c");
    assert_eq!(find_signed(&rest, &Clients::Tower.signature()), Some((3, 4)));
    assert_eq!(find_signed(&rest, &Clients::clRAC.signature()), Some((3, 4)));
    assert_eq!(find_signed(&rest, &Clients::Snowdrop.signature()), None);
    assert_eq!(find_signed(&chars("<n>c"), &[]), None);
    let rules = registry();
    assert_eq!(find_client(&rest, &rules), Some((Clients::Tower, 3, 4)));
    assert_eq!(find_client(&chars("<a> \u{B9AC}\u{3E70}<b> c"), &rules), Some((Clients::bRAC, 7, 8)));
    assert_eq!(find_client(&chars("<a> b"), &rules), Some((Clients::clRAC, 1, 2)));
    assert_eq!(find_client(&chars("nothing"), &rules), None);
    assert_eq!(find_client(&rest, &[]), None);
}
