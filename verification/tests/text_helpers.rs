use nixpick::text::{
    contains, decimal, decimal_signed, is_blank, join, pad_left, pad_right, parse_i32, parse_u32,
    trim, truncate,
};

#[test]
fn blank_texts() {
    assert!(is_blank(""));
    assert!(is_blank(" \t\n\r"));
    assert!(is_blank("\u{3000}\u{a0}"));
    assert!(!is_blank(" a "));
}

#[test]
fn trim_matches_std() {
    for s in ["", "  ", " abc ", "a b", "\tx\r\n", "\u{2003}y\u{2003}", "z"] {
        assert_eq!(trim(s), s.trim());
    }
}

#[test]
fn decimal_notation() {
    assert_eq!(decimal(0), "0");
    assert_eq!(decimal(7), "7");
    assert_eq!(decimal(10), "10");
    assert_eq!(decimal(18446744073709551615), "18446744073709551615");
    assert_eq!(decimal_signed(-42), "-42");
    assert_eq!(decimal_signed(i64::MIN), i64::MIN.to_string());
    assert_eq!(decimal_signed(53), "53");
}

#[test]
fn parse_like_from_str() {
    for s in ["", "+", "-", "0", "+7", "-7", "42", "4294967295", "4294967296", "12a", " 1", "007"] {
        assert_eq!(parse_u32(s), s.parse::<u32>().ok(), "u32 {s:?}");
        assert_eq!(parse_i32(s), s.parse::<i32>().ok(), "i32 {s:?}");
    }
    for s in ["2147483647", "2147483648", "-2147483648", "-2147483649", "-0"] {
        assert_eq!(parse_i32(s), s.parse::<i32>().ok(), "i32 {s:?}");
    }
}

#[test]
fn padding_like_format() {
    assert_eq!(pad_right("ab", 5), format!("{:<5}", "ab"));
    assert_eq!(pad_right("abcdef", 3), "abcdef");
    assert_eq!(pad_left("7", 3), format!("{:>3}", 7));
    assert_eq!(pad_left("1234", 3), "1234");
    assert_eq!(pad_right("é•", 4), format!("{:<4}", "é•"));
}

#[test]
fn substring_search() {
    assert!(contains("index [latest-48] no such index found", "no such index"));
    assert!(contains("abc", ""));
    assert!(!contains("no such inde", "no such index"));
    assert!(!contains("", "x"));
}

#[test]
fn truncate_with_ellipsis() {
    assert_eq!(truncate("short", 60), "short");
    assert_eq!(truncate("abcdef", 4), "abc…");
    assert_eq!(truncate("abcdef", 0), "…");
    assert_eq!(truncate("ééééé", 3), "éé…");
}

#[test]
fn join_words() {
    let words = vec!["python".to_string(), "requests".to_string()];
    assert_eq!(join(&words, " "), "python requests");
    assert_eq!(join(&Vec::new(), " "), "");
    assert_eq!(join(&vec!["x".to_string()], ", "), "x");
}
