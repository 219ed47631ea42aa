use bi2read::reading_time::{is_cjk, measure, TextScale};
use bi2read::text::{
    decimal, decimal_padded, ends_with, find, is_blank, is_control, is_white, join, lower_text, parse_integer,
    parse_number, same, signed_decimal, split_once, split_text, starts_with, trim, without_leading, without_trailing,
};

#[test]
fn white_space_and_control_characters_are_those_of_unicode() {
    for c in '\0'..=char::MAX {
        assert_eq!(is_white(c), c.is_whitespace(), "{:?}", c);
        assert_eq!(is_control(c), c.is_control(), "{:?}", c);
    }
}

#[test]
fn texts_are_trimmed_as_std_does() {
    for s in ["", "  ", " a b ", "\u{3000}中文\u{a0}", "x"] {
        assert_eq!(trim(s), s.trim());
        assert_eq!(is_blank(s), s.trim().is_empty());
    }
    assert_eq!(without_leading("//a/", '/'), "a/");
    assert_eq!(without_trailing("/a//", '/'), "/a");
}

#[test]
fn texts_are_searched_as_std_does() {
    assert_eq!(find("甲乙丙乙", "乙"), Some(1));
    assert_eq!(find("abc", "x"), None);
    assert_eq!(find("abc", ""), Some(0));
    assert!(starts_with("abc", "ab") && !starts_with("abc", "b") && starts_with("", ""));
    assert!(ends_with("abc", "bc") && !ends_with("c", "bc"));
    assert!(same("é", "é") && !same("e", "é"));
    assert_eq!(lower_text("AbÉ"), "AbÉ".to_ascii_lowercase());
    assert_eq!(split_text("a,,b", ','), "a,,b".split(',').map(str::to_string).collect::<Vec<_>>());
    assert_eq!(split_once("k=v=w", "="), Some(("k".to_string(), "v=w".to_string())));
    assert_eq!(split_once("kv", "="), None);
    assert_eq!(join(&vec!["a".to_string(), "b".to_string()], "、"), "a、b");
}

#[test]
fn numbers_are_read_and_written_as_std_does() {
    for n in [0u64, 7, 10, 99, 1000, u64::MAX] {
        assert_eq!(decimal(n), n.to_string());
        assert_eq!(parse_number(&decimal(n), u64::MAX), Some(n));
        assert_eq!(decimal_padded(n, 4), format!("{n:04}"));
    }
    for n in [0i64, -1, i64::MIN, i64::MAX] {
        assert_eq!(signed_decimal(n), n.to_string());
    }
    for s in ["", "+", "-", "-0", "+7", "-2147483648", "-2147483649", "2147483647", "2147483648", "+-1", "１"] {
        assert_eq!(parse_integer(s), s.parse::<i32>().ok(), "{s}");
    }
    assert_eq!(parse_number("4294967296", u32::MAX as u64), None);
}

#[test]
fn texts_are_measured_in_characters_and_words() {
    assert!(is_cjk('中') && !is_cjk('a'));
    assert_eq!(measure("你好 hello world"), TextScale { cjk_chars: 2, latin_words: 2 });
    assert_eq!(measure("你好").format_scale(), "2 字");
    assert_eq!(measure("two words").format_scale(), "2 词");
    assert_eq!(measure("你 a").format_scale(), "1 字 / 1 词");
}
