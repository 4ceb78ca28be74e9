use symon::text::{
    chars_of, decimal_string, digit_str, first_token_of, is_digit_char, is_space_char,
    parse_bounded, parse_u64, parse_u8, same_text, starts_with,
};

#[test]
fn characters_in_order() {
    assert_eq!(chars_of(""), Vec::<char>::new());
    assert_eq!(chars_of("sda1"), vec!['s', 'd', 'a', '1']);
    assert_eq!(chars_of("é│"), vec!['é', '│']);
}

#[test]
fn digits_are_ascii_only() {
    assert!(is_digit_char('0'));
    assert!(is_digit_char('9'));
    assert!(!is_digit_char('a'));
    assert!(!is_digit_char('/'));
    assert!(!is_digit_char(':'));
    assert!(!is_digit_char('٣'));
}

#[test]
fn numbers_parse() {
    assert_eq!(parse_u64("0"), Some(0));
    assert_eq!(parse_u64("007"), Some(7));
    assert_eq!(parse_u64("16384000"), Some(16_384_000));
    assert_eq!(parse_u64("18446744073709551615"), Some(u64::MAX));
}

#[test]
fn numbers_that_do_not_parse() {
    assert_eq!(parse_u64(""), None);
    assert_eq!(parse_u64(" 1"), None);
    assert_eq!(parse_u64("1 "), None);
    assert_eq!(parse_u64("-1"), None);
    assert_eq!(parse_u64("+1"), None);
    assert_eq!(parse_u64("12a"), None);
    assert_eq!(parse_u64("1.5"), None);
    assert_eq!(parse_u64("٣"), None);
    assert_eq!(parse_u64("18446744073709551616"), None);
    assert_eq!(parse_u64("99999999999999999999999"), None);
}

#[test]
fn small_numbers_parse() {
    assert_eq!(parse_u8("0"), Some(0));
    assert_eq!(parse_u8("8"), Some(8));
    assert_eq!(parse_u8("255"), Some(255));
    assert_eq!(parse_u8("256"), None);
    assert_eq!(parse_u8("259"), None);
    assert_eq!(parse_u8(""), None);
    assert_eq!(parse_u8("x"), None);
}

#[test]
fn numbers_parse_up_to_a_bound() {
    assert_eq!(parse_bounded("10", 10), Some(10));
    assert_eq!(parse_bounded("11", 10), None);
    assert_eq!(parse_bounded("0", 0), Some(0));
    assert_eq!(parse_bounded("1", 0), None);
    assert_eq!(parse_bounded("000", 0), Some(0));
}

#[test]
fn numbers_are_written_in_decimal() {
    assert_eq!(decimal_string(0), "0");
    assert_eq!(decimal_string(9), "9");
    assert_eq!(decimal_string(10), "10");
    assert_eq!(decimal_string(1024), "1024");
    assert_eq!(decimal_string(u64::MAX), "18446744073709551615");
    for d in 0..10u8 {
        assert_eq!(digit_str(d), d.to_string());
    }
}

#[test]
fn written_numbers_read_back() {
    for n in [0u64, 1, 9, 10, 99, 100, 12345, u64::MAX / 3, u64::MAX] {
        assert_eq!(parse_u64(&decimal_string(n)), Some(n));
    }
}

#[test]
fn texts_compare() {
    assert!(same_text("", ""));
    assert!(same_text("sda1", "sda1"));
    assert!(!same_text("sda1", "sda2"));
    assert!(!same_text("sda", "sda1"));
    assert!(!same_text("sda1", "sda"));
}

#[test]
fn prefixes() {
    assert!(starts_with("sda1", "sda"));
    assert!(starts_with("sda", "sda"));
    assert!(starts_with("sda", ""));
    assert!(starts_with("nvme0n1p1", "nvme0n1"));
    assert!(!starts_with("sd", "sda"));
    assert!(!starts_with("sdb1", "sda"));
    assert!(!starts_with("", "s"));
}

#[test]
fn separators() {
    for c in [' ', '\t', '\n', '\r', '\x0c'] {
        assert!(is_space_char(c));
    }
    for c in ['a', '0', '.', '\x0b', '\u{a0}'] {
        assert!(!is_space_char(c));
    }
}

#[test]
fn first_word() {
    assert_eq!(first_token_of("350735.47 234388.90\n"), "350735.47");
    assert_eq!(first_token_of("  12.5\n"), "12.5");
    assert_eq!(first_token_of("12.5"), "12.5");
    assert_eq!(first_token_of("\t\n 7 8 9"), "7");
    assert_eq!(first_token_of("é│ x"), "é│");
}

#[test]
fn first_word_of_nothing() {
    assert_eq!(first_token_of(""), "");
    assert_eq!(first_token_of(" \n\t"), "");
}
