use isq::text::{
    chars_of, contains, contains_chars, decimal_text, ends_with, find_char, parse_decimal,
    parse_signed, same_text, slice_chars, split_chars, starts_with, string_of,
    text_stands_before, trim_trailing,
};

fn chars(s: &str) -> Vec<char> {
    s.chars().collect()
}

#[test]
fn texts_and_their_characters() {
    assert_eq!(chars_of("aü\u{1F600}"), vec!['a', 'ü', '\u{1F600}']);
    assert_eq!(string_of(&chars("aü\u{1F600}")), "aü\u{1F600}");
    assert!(same_text("abc", "abc"));
    assert!(!same_text("abc", "abd"));
    assert!(!same_text("abc", "ab"));
    assert!(same_text("", ""));
    assert_eq!(slice_chars(&chars("hello"), 1, 3), chars("el"));
    assert_eq!(slice_chars(&chars("hello"), 5, 5), chars(""));
}

#[test]
fn searching() {
    assert!(contains("hello world", "lo w"));
    assert!(contains("hello", ""));
    assert!(contains("", ""));
    assert!(contains("hello", "hello"));
    assert!(!contains("hello", "hello!"));
    assert!(!contains("hello", "world"));
    assert!(contains("aab", "ab"));
    assert!(contains_chars(&chars("äöü"), &chars("öü")));
    assert!(starts_with(&chars("hello"), &chars("he")));
    assert!(!starts_with(&chars("hello"), &chars("el")));
    assert!(starts_with(&chars("hello"), &chars("")));
    assert!(ends_with(&chars("hello"), &chars("llo")));
    assert!(!ends_with(&chars("hello"), &chars("hell")));
    assert!(!ends_with(&chars("lo"), &chars("hello")));
    assert_eq!(find_char(&chars("a/b/c"), '/'), Some(1));
    assert_eq!(find_char(&chars("abc"), '/'), None);
    assert_eq!(find_char(&chars(""), '/'), None);
    assert_eq!(trim_trailing(&chars("12;;"), ';'), chars("12"));
    assert_eq!(trim_trailing(&chars(";;"), ';'), chars(""));
    assert_eq!(trim_trailing(&chars("1;2"), ';'), chars("1;2"));
}

#[test]
fn numbers_are_read_as_rust_reads_them() {
    for text in ["0", "7", "+7", "007", "18446744073709551615", "18446744073709551616", "", "+", "-1", " 1", "1 ", "1_0", "٣", "+-1", "++1"] {
        assert_eq!(parse_decimal(&chars(text), u64::MAX), text.parse::<u64>().ok(), "{:?}", text);
    }
    for text in ["0", "4294967295", "4294967296", "+12", "x"] {
        assert_eq!(
            parse_decimal(&chars(text), u32::MAX as u64),
            text.parse::<u32>().ok().map(|n| n as u64),
            "{:?}",
            text
        );
    }
    for text in ["0", "-0", "+0", "-1", "+1", "9223372036854775807", "9223372036854775808", "-9223372036854775808", "-9223372036854775809", "-", "+", "", "--1", "-+1", "+-1", "1-", "- 1"] {
        assert_eq!(parse_signed(&chars(text)), text.parse::<i64>().ok(), "{:?}", text);
    }
}

#[test]
fn numbers_are_written_without_leading_zeros() {
    for n in [0u64, 1, 9, 10, 11, 99, 100, 12345, u64::MAX] {
        assert_eq!(decimal_text(n), n.to_string());
        assert_eq!(parse_decimal(&chars(&decimal_text(n)), u64::MAX), Some(n));
    }
}

#[test]
fn texts_are_ordered_as_rust_orders_them() {
    let texts = ["", "a", "aa", "ab", "b", "B", "2024-01-01T00:00:00Z", "2024-01-01T00:00:02Z", "ä", "z", "\u{1F600}"];
    for a in texts {
        for b in texts {
            assert_eq!(text_stands_before(a, b), a < b, "{:?} {:?}", a, b);
        }
    }
}

#[test]
fn texts_are_split_as_rust_splits_them() {
    for text in ["", "a", "&", "a&b", "a&&b", "&a&", "code=1&state=2", "ü&ö", "&&&"] {
        let expected: Vec<String> = text.split('&').map(|p| p.to_string()).collect();
        assert_eq!(split_chars(&chars(text), '&'), expected, "{:?}", text);
    }
}
