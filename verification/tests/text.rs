//! Text operations.

use kv_cli::text::{
    contains, decimal_text, find, hexadecimal_text, lines, pad_right, parse_signed, parse_unsigned,
    same_text, split, starts_with, strip_prefix, strip_suffix_char, trim, IntError,
};

fn chars(s: &str) -> Vec<char> {
    s.chars().collect()
}

#[test]
fn trim_takes_unicode_whitespace_off_both_ends() {
    assert_eq!(trim(" \t\u{3000}a b\u{a0}\r\n"), "a b");
    assert_eq!(trim("\u{200b}x"), "\u{200b}x");
    assert_eq!(trim("   "), "");
    for s in [" yes\n", "\u{85}x\u{1680}", "\u{2009}a\u{2029}", "no", ""] {
        assert_eq!(trim(s), s.trim());
    }
}

#[test]
fn split_gives_one_piece_more_than_separators() {
    assert_eq!(split("a,b,,c", ','), vec!["a", "b", "", "c"]);
    assert_eq!(split("", ','), vec![""]);
    assert_eq!(split(",", ','), vec!["", ""]);
}

#[test]
fn lines_end_at_line_feeds() {
    for s in ["a\nb", "a\r\nb\n", "", "\n", "a\n\n", "a\r", "x\r\n\r\n"] {
        assert_eq!(lines(s), s.lines().collect::<Vec<_>>());
    }
}

#[test]
fn find_gives_the_first_occurrence() {
    let s = chars("abcabc");
    assert_eq!(find(&s, &chars("bc")), Some(1));
    assert_eq!(find(&s, &chars("x")), None);
    assert_eq!(find(&s, &chars("")), Some(0));
}

#[test]
fn containing_and_stripping() {
    assert!(contains("a && b", "&&"));
    assert!(!contains("a & b", "&&"));
    assert!(starts_with("device-encrypted value", "device-encrypted"));
    assert!(!starts_with("dev", "device"));
    assert_eq!(strip_prefix("PPid:\t7", "PPid:"), Some("\t7".to_string()));
    assert_eq!(strip_prefix("Pid:\t7", "PPid:"), None);
    assert_eq!(strip_suffix_char("7d", 'd'), Some("7".to_string()));
    assert_eq!(strip_suffix_char("7h", 'd'), None);
    assert_eq!(strip_suffix_char("", 'd'), None);
    assert!(same_text("a", "a"));
    assert!(!same_text("a", "b"));
}

#[test]
fn unsigned_numbers_have_a_limit() {
    assert_eq!(parse_unsigned("0", 9), Some(0));
    assert_eq!(parse_unsigned("+7", 9), Some(7));
    assert_eq!(parse_unsigned("007", 9), Some(7));
    assert_eq!(parse_unsigned("10", 9), None);
    assert_eq!(parse_unsigned("", 9), None);
    assert_eq!(parse_unsigned("+", 9), None);
    assert_eq!(parse_unsigned("-1", 9), None);
    assert_eq!(parse_unsigned("1x", 9), None);
    assert_eq!(parse_unsigned("18446744073709551615", u64::MAX), Some(u64::MAX));
    assert_eq!(parse_unsigned("18446744073709551616", u64::MAX), None);
}

#[test]
fn signed_numbers_go_to_both_ends() {
    assert_eq!(parse_signed("-9223372036854775808"), Ok(i64::MIN));
    assert_eq!(parse_signed("-9223372036854775809"), Err(IntError::TooSmall));
    assert_eq!(parse_signed("9223372036854775807"), Ok(i64::MAX));
    assert_eq!(parse_signed("9223372036854775808"), Err(IntError::TooLarge));
    assert_eq!(parse_signed("-0"), Ok(0));
    assert_eq!(parse_signed("+12"), Ok(12));
    assert_eq!(parse_signed("-"), Err(IntError::InvalidDigit));
    assert_eq!(parse_signed("+-1"), Err(IntError::InvalidDigit));
}

#[test]
fn numbers_are_written_without_leading_zeros() {
    for n in [0u64, 9, 10, 99, 100, 12345, u64::MAX] {
        assert_eq!(decimal_text(n), n.to_string());
    }
    for n in [0u32, 15, 16, 255, 0x2028, 0x10ffff] {
        assert_eq!(hexadecimal_text(n), format!("{:X}", n));
    }
}

#[test]
fn padding_counts_characters() {
    assert_eq!(pad_right("ab", 5), "ab   ");
    assert_eq!(pad_right("üü", 4), "üü  ");
    assert_eq!(pad_right("abcdef", 4), "abcdef");
}
