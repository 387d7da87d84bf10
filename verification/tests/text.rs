use umami_alerts::report::{metric_queries, report_subject};
use umami_alerts::config::ReportType;
use umami_alerts::text::{
    contains_char, decimal_text, int_text_of, parse_unsigned_text, split_trimmed, trim,
};

#[test]
fn trimming_uses_unicode_whitespace() {
    assert_eq!(trim("  a b \t\n"), "a b");
    assert_eq!(trim("\u{3000}x\u{a0}"), "x");
    assert_eq!(trim("   "), "");
    assert_eq!(trim(""), "");
}

#[test]
fn splitting_keeps_empty_pieces() {
    assert_eq!(split_trimmed("a, b ,c", ','), vec!["a", "b", "c"]);
    assert_eq!(split_trimmed(",", ','), vec!["", ""]);
    assert_eq!(split_trimmed("solo", ','), vec!["solo"]);
    assert_eq!(split_trimmed("", ','), vec![""]);
}

#[test]
fn numbers_in_text() {
    assert_eq!(decimal_text(0), "0");
    assert_eq!(decimal_text(18446744073709551615), "18446744073709551615");
    assert_eq!(int_text_of(-9223372036854775808), "-9223372036854775808");
    assert_eq!(int_text_of(42), "42");
    assert_eq!(parse_unsigned_text("65535", 65535), Some(65535));
    assert_eq!(parse_unsigned_text("65536", 65535), None);
    assert_eq!(parse_unsigned_text("+5", 65535), Some(5));
    assert_eq!(parse_unsigned_text("+", 65535), None);
    assert_eq!(parse_unsigned_text("-5", 65535), None);
    assert_eq!(parse_unsigned_text("", 65535), None);
    assert_eq!(parse_unsigned_text("007", 65535), Some(7));
    assert_eq!(parse_unsigned_text("99999999999999999999999", u64::MAX), None);
    for s in ["0", "587", "65535", "65536", "+1", "x1", "1x", " 1"] {
        assert_eq!(parse_unsigned_text(s, 65535).map(|v| v as u16), s.parse::<u16>().ok());
    }
}

#[test]
fn characters_and_case() {
    assert!(contains_char("a@b", '@'));
    assert!(!contains_char("ab", '@'));
}

#[test]
fn subjects_and_metrics() {
    assert_eq!(
        report_subject(ReportType::Daily, "example.io", "January 05, 2025"),
        "Daily Analytics Report - example.io - January 05, 2025"
    );
    assert_eq!(
        metric_queries(),
        vec![("url", 10), ("country", 10), ("browser", 5), ("device", 5), ("referrer", 5)]
    );
}
