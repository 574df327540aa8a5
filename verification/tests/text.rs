//! Text, encoding and ordered maps.

use gitlab_mcp::encode::{enc, enc_multi};
use gitlab_mcp::interop::parse;
use gitlab_mcp::search::{contains, occurs_twice, replaced_all, replaced_first};
use gitlab_mcp::strmap::StrMap;
use gitlab_mcp::strset::StrSet;
use gitlab_mcp::text::{
    begins_with, decimal_text, is_all_digits, is_white, joined, lines_of, lowered, parse_number,
    same, same_ignoring_case, split, split_once, trimmed, trimmed_end, trimmed_end_char,
    without_suffix,
};

const SAMPLES: [&str; 12] = [
    "", " ", "a", "a\n", "\na\r\n\r\nb\r", " a b ", "aXbXc", "XX", "é😀X", "\u{a0}x\u{2003}",
    "///", "aa aaa",
];

#[test]
fn white_space_is_what_the_standard_says() {
    for code in 0..=0x10ffffu32 {
        if let Some(c) = char::from_u32(code) {
            assert_eq!(is_white(c), c.is_whitespace(), "{:?}", c);
        }
    }
}

#[test]
fn texts_are_taken_apart_as_the_standard_does() {
    for s in SAMPLES {
        assert_eq!(trimmed(s), s.trim());
        assert_eq!(trimmed_end(s), s.trim_end());
        assert_eq!(trimmed_end_char(s, '/'), s.trim_end_matches('/'));
        assert_eq!(lines_of(s), s.lines().collect::<Vec<&str>>());
        assert_eq!(split(s, 'X'), s.split('X').collect::<Vec<&str>>());
        assert_eq!(
            split_once(s, 'X'),
            s.split_once('X').map(|(a, b)| (a.to_string(), b.to_string()))
        );
        assert_eq!(without_suffix(s, "X"), s.strip_suffix("X").map(|t| t.to_string()));
        assert_eq!(lowered(s), s.to_ascii_lowercase());
        for t in SAMPLES {
            assert_eq!(same(s, t), s == t);
            assert_eq!(begins_with(s, t), s.starts_with(t));
            assert_eq!(contains(s, t), s.contains(t));
            assert_eq!(replaced_first(s, t, "<>"), s.replacen(t, "<>", 1));
            if !t.is_empty() {
                assert_eq!(replaced_all(s, t, "<>"), s.replace(t, "<>"));
                assert_eq!(occurs_twice(s, t), s.matches(t).count() > 1);
            }
        }
    }
}

#[test]
fn texts_are_joined() {
    let list = |items: &[&str]| items.iter().map(|s| s.to_string()).collect::<Vec<String>>();
    assert_eq!(joined(&list(&[]), ", "), "");
    assert_eq!(joined(&list(&["a"]), ", "), "a");
    assert_eq!(joined(&list(&["a", "", "c"]), ", "), "a, , c");
}

#[test]
fn case_counts_only_beyond_ascii() {
    assert!(same_ignoring_case("Work ITEM", "work item"));
    assert!(!same_ignoring_case("É", "é"));
}

#[test]
fn numbers_read_back_as_they_were_written() {
    for n in [0, 7, 10, 99, 100, 1234567890, u64::MAX] {
        assert_eq!(decimal_text(n), n.to_string());
        assert_eq!(parse_number(&decimal_text(n), u64::MAX), Some(n));
    }
}

#[test]
fn numbers_are_parsed_as_the_standard_does() {
    for s in ["", "+", "-", "-0", "+7", "007", " 7", "7 ", "1e3", "18446744073709551615", "18446744073709551616", "٣"] {
        assert_eq!(parse_number(s, u64::MAX), s.parse::<u64>().ok(), "{:?}", s);
        assert_eq!(parse_number(s, 255), s.parse::<u8>().ok().map(|n| n as u64), "{:?}", s);
    }
    assert!(is_all_digits("") && is_all_digits("012") && !is_all_digits("1a"));
}

#[test]
fn segments_hold_no_separators() {
    assert_eq!(enc("group/sub project"), "group%2Fsub%20project");
    assert_eq!(enc("a-b._~C9"), "a-b._~C9");
    assert_eq!(enc("é€😀"), "%C3%A9%E2%82%AC%F0%9F%98%80");
    assert_eq!(enc("{}?#%&\u{7f}\0"), "%7B%7D%3F%23%25%26%7F%00");
    assert_eq!(enc(""), "");
    assert_eq!(enc_multi("a/b c/%"), "a/b%20c/%25");
    assert_eq!(enc_multi("{a}/é"), "%7Ba%7D/%C3%A9");
}

#[test]
fn different_values_become_different_segments() {
    let values = ["a/b", "a%2Fb", "a b", "a+b", "A/b", "é", "e\u{301}"];
    for a in values {
        for b in values {
            assert_eq!(enc(a) == enc(b), a == b);
        }
    }
}

#[test]
fn maps_keep_their_keys_in_order() {
    let mut map = StrMap::new();
    for (key, value) in [("b", 1), ("", 2), ("é", 3), ("a", 4), ("b", 5), ("z", 6)] {
        map.insert(key.to_string(), value);
    }
    map.remove("z");
    map.remove("absent");
    let entries: Vec<(&str, i32)> =
        (0..map.len()).map(|i| (map.entry(i).0.as_str(), *map.entry(i).1)).collect();
    assert_eq!(entries, [("", 2), ("a", 4), ("b", 5), ("é", 3)]);
    assert_eq!(map.get("b"), Some(&5));
    assert_eq!(map.get("z"), None);
    assert!(map.contains_key("") && !map.is_empty());
}

#[test]
fn sets_keep_their_members_in_order() {
    let mut set = StrSet::new();
    for member in ["b", "a", "b", "A"] {
        set.insert(member.to_string());
    }
    assert_eq!(set.to_list(), ["A", "a", "b"]);
    assert!(set.contains("a") && !set.contains("c"));
    assert_eq!(set.copy().to_list(), set.to_list());
    assert!(StrSet::new().is_empty() && !set.is_empty());
}

#[test]
fn scalars_are_written_as_json_writes_them() {
    let text = |s: &str| parse(s).unwrap().as_scalar_string();
    assert_eq!(text("1.50").as_deref(), Some("1.5"));
    assert_eq!(text("-3").as_deref(), Some("-3"));
    assert_eq!(text("1e3").as_deref(), Some("1000.0"));
    assert_eq!(text("true").as_deref(), Some("true"));
    assert_eq!(text("\"t\"").as_deref(), Some("t"));
    assert_eq!(text("null"), None);
    assert_eq!(text("[]"), None);
    assert_eq!(text("{}"), None);
    assert_eq!(parse("7").unwrap().as_u64(), Some(7));
    assert_eq!(parse("-7").unwrap().as_u64(), None);
    assert_eq!(parse("7.0").unwrap().as_u64(), None);
}
