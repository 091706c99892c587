//! Texts, JSON and lists.
use commander::cursor::{bytes_in, split};
use commander::json::{parse, Json};
use commander::seqs::{find_place, rank, window_bounds};
use commander::text::{
    after_prefix, begins, behind_last, cat5, decimal_of, find, has, hex_of, joined, lines_of,
    padded_end, padded_start, repeat_char, same, trimmed, trimmed_end, trimmed_start,
    truncate_chars, word, zero_padded_of,
};

#[test]
fn first_characters() {
    assert_eq!(truncate_chars("héllo", 2), "hé");
    assert_eq!(truncate_chars("hi", 10), "hi");
    assert_eq!(truncate_chars("hi", 0), "");
}

#[test]
fn white_space_is_trimmed() {
    assert_eq!(trimmed(" \t a b\u{3000}\n"), "a b");
    assert_eq!(trimmed("   "), "");
    assert_eq!(trimmed_start("  a "), "a ");
    assert_eq!(trimmed_end("  a "), "  a");
    assert_eq!(word("  /cd x"), "/cd");
    assert_eq!(word("  "), "");
}

#[test]
fn every_character_that_is_white_space() {
    let ranges = [
        ('\u{9}', '\u{d}'),
        (' ', ' '),
        ('\u{85}', '\u{85}'),
        ('\u{a0}', '\u{a0}'),
        ('\u{1680}', '\u{1680}'),
        ('\u{2000}', '\u{200a}'),
        ('\u{2028}', '\u{2029}'),
        ('\u{202f}', '\u{202f}'),
        ('\u{205f}', '\u{205f}'),
        ('\u{3000}', '\u{3000}'),
    ];
    for c in '\0'..=char::MAX {
        let white = ranges.iter().any(|(from, to)| *from <= c && c <= *to);
        assert_eq!(c.is_whitespace(), white, "{c:?}");
        assert_eq!(trimmed(c.encode_utf8(&mut [0; 4])).is_empty(), white, "{c:?}");
    }
}

#[test]
fn parts_of_a_text() {
    assert!(begins("abc", "ab") && !begins("abc", "b"));
    assert_eq!(after_prefix("~/x", "~"), Some("/x"));
    assert_eq!(after_prefix("x", "~"), None);
    assert!(has("abc", "bc") && has("abc", "") && !has("abc", "cb"));
    assert_eq!(find("ababc", "abc"), Some(2));
    assert_eq!(find("é-é", "é"), Some(0));
    assert_eq!(find("ab", "abc"), None);
    assert_eq!(behind_last("a/b/c", '/'), "c");
    assert_eq!(behind_last("abc", '/'), "abc");
    assert_eq!(behind_last("a/", '/'), "");
    assert!(same("a", "a") && !same("a", "b"));
}

#[test]
fn lines_and_joints() {
    assert_eq!(lines_of("a\r\nb\n\nc"), ["a", "b", "", "c"]);
    assert_eq!(lines_of("a\n"), ["a"]);
    assert!(lines_of("").is_empty());
    assert_eq!(joined(&vec!["a".to_string(), "b".to_string()], ", "), "a, b");
    assert_eq!(joined(&vec![], ", "), "");
    assert_eq!(cat5("a", "b", "c", "d", "e"), "abcde");
}

#[test]
fn numbers_and_paddings() {
    assert_eq!(decimal_of(0), "0");
    assert_eq!(decimal_of(u64::MAX), "18446744073709551615");
    assert_eq!(hex_of(&vec![0, 10, 255]), "000aff");
    assert_eq!(padded_end("é", 3), "é  ");
    assert_eq!(padded_start("12", 4), "  12");
    assert_eq!(padded_start("12345", 4), "12345");
    assert_eq!(zero_padded_of(7, 3), "007");
    assert_eq!(zero_padded_of(1234, 3), "1234");
    assert_eq!(repeat_char('─', 3), "───");
}

#[test]
fn positions_in_bytes() {
    assert_eq!(bytes_in("aé"), 3);
    assert_eq!(split("aéb", 3), ("aé", "b"));
    assert_eq!(split("", 0), ("", ""));
}

#[test]
fn json_is_read_and_written() {
    let j = parse(r#"{"a":{"b":"c"},"t":true,"n":12,"x":[1,null]}"#).unwrap();
    assert_eq!(j.get_in("a", "b").and_then(|v| match v { Json::Text(s) => Some(s.as_str()), _ => None }), Some("c"));
    assert!(j.flag_at("t") && !j.flag_at("a") && !j.flag_at("zz"));
    assert_eq!(j.text_at("n"), None);
    assert_eq!(j.text_or("n", "d"), "d");
    assert_eq!(j.to_text(), r#"{"a":{"b":"c"},"n":12,"t":true,"x":[1,null]}"#);
    assert_eq!(j.copy().to_text(), j.to_text());
    assert_eq!(
        Json::object().with("k", Json::text("v")).to_pretty_text(),
        "{\n  \"k\": \"v\"\n}"
    );
    assert_eq!(Json::object().with("k", Json::unsigned(5)).with("k", Json::Null).to_text(), r#"{"k":null}"#);
    assert!(parse("{").is_err());
    assert!(Json::text("x").get("k").is_none());
}

#[test]
fn ranking_keeps_the_order_of_equals() {
    assert_eq!(rank(&vec![1, 3, 2, 3]), vec![1, 3, 2, 0]);
    assert!(rank(&vec![]).is_empty());
    assert_eq!(find_place(&vec![4, 5, 5], 5), Some(1));
    assert_eq!(find_place(&vec![4], 5), None);
    assert_eq!(window_bounds(10, 2, 3), (5, 8));
    assert_eq!(window_bounds(2, 5, 3), (0, 0));
}
