//! Texts, sorting and tables.

use amux::json::{json_int_of, json_member, json_members2};
use amux::percent::percent_encode;
use amux::sorting::{bytes_le, sort, text_le};
use amux::strings::{
    clipped, contains_char, decimal_of, find, is_blank, is_white, join, lines, replace_char, same,
    split, starts_with, strip_prefix, trim, trim_end, words,
};
use amux::table::Table;

#[test]
fn white_space_is_unicodes() {
    for c in '\0'..=char::MAX {
        assert_eq!(is_white(c), c.is_whitespace(), "{c:?}");
    }
}

#[test]
fn texts_are_cut_as_the_standard_library_cuts_them() {
    for text in ["", " ", "a", " a b ", "\u{3000}中 文\u{a0}", "a\r\nb\n\nc", "\n", "a\n", "a\r", "x//y/", "/"] {
        assert_eq!(trim(text), text.trim());
        assert_eq!(is_blank(text), text.trim().is_empty());
        assert_eq!(trim_end(text, '/'), text.trim_end_matches('/'));
        assert_eq!(words(text), text.split_whitespace().collect::<Vec<_>>());
        assert_eq!(split(text, '/'), text.split('/').collect::<Vec<_>>());
        assert_eq!(lines(text), text.lines().collect::<Vec<_>>());
        assert_eq!(contains_char(text, '/'), text.contains('/'));
        assert_eq!(replace_char(text, '/', '-'), text.replace('/', "-"));
        assert_eq!(starts_with(text, " a"), text.starts_with(" a"));
        assert_eq!(strip_prefix(text, "a").as_deref(), text.strip_prefix('a'));
        assert_eq!(clipped(text, 2), text.chars().take(2).collect::<String>());
        assert!(same(text, text));
    }
    assert_eq!(find("中x中", "x"), Some(1));
    assert_eq!(find("abc", "d"), None);
    assert_eq!(find("abc", ""), Some(0));
    assert_eq!(join(&vec!["a".into(), "b".into()], ", "), "a, b");
    assert_eq!(join(&Vec::new(), ", "), "");
    for n in [0, 9, 10, u64::MAX] {
        assert_eq!(decimal_of(n), n.to_string());
    }
}

#[test]
fn percent_encoding_escapes_all_but_the_unreserved() {
    assert_eq!(percent_encode("a b/~é", false), "a%20b%2F~%C3%A9");
    assert_eq!(percent_encode("a b/~é", true), "a%20b/~%C3%A9");
}

#[test]
fn members_are_json() {
    assert_eq!(json_member("a", "1"), r#"{"a":1}"#);
    assert_eq!(json_members2("a", "1", "b\"", "[]"), r#"{"a":1,"b\"":[]}"#);
    assert_eq!(json_int_of(-32700), "-32700");
    assert_eq!(json_int_of(0), "0");
    assert_eq!(json_int_of(i32::MIN), i32::MIN.to_string());
}

#[test]
fn texts_are_ordered_by_their_bytes() {
    for (a, b) in [("", "a"), ("a", "b"), ("a", "ab"), ("Z", "a"), ("z", "中"), ("same", "same")] {
        assert_eq!(text_le(a, b), a <= b);
        assert_eq!(text_le(b, a), b <= a);
        assert_eq!(bytes_le(a.as_bytes(), b.as_bytes()), a.as_bytes() <= b.as_bytes());
    }
    let mut paths: Vec<Vec<u8>> = ["b", "a", "c", "a"].iter().map(|s| s.as_bytes().to_vec()).collect();
    let sorted = sort(paths.clone());
    paths.sort();
    assert_eq!(sorted, paths);
}

#[test]
fn tables_hold_one_value_for_a_name() {
    let mut table: Table<u32> = Table::new();
    assert_eq!(table.insert("a".into(), 1), None);
    assert_eq!(table.insert("b".into(), 2), None);
    assert_eq!(table.insert("a".into(), 3), Some(1));
    assert_eq!(table.len(), 2);
    assert_eq!(table.get("a"), Some(&3));
    assert!(!table.contains("c"));
    assert_eq!(table.remove("a"), Some(3));
    assert_eq!(table.remove("a"), None);
    assert_eq!(table.drain(), [2]);
    assert_eq!(table.len(), 0);
}
