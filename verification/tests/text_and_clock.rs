use chrono::{DateTime, NaiveDate, Utc};
use mcp_servers::clock::{
    day_of_instant, MAX_EPOCH_DAY, MAX_TIMESTAMP, MIN_EPOCH_DAY, MIN_TIMESTAMP,
};
use mcp_servers::text::{
    chars_equal, decimal_chars, decimal_string, is_white_space_char, strip_leading_newlines,
    to_ascii_lowercase, trim_chars,
};

fn text(v: &[char]) -> String {
    v.iter().collect()
}

#[test]
fn clock_range_matches_chrono() {
    assert_eq!(MIN_TIMESTAMP, DateTime::<Utc>::MIN_UTC.timestamp());
    assert_eq!(MAX_TIMESTAMP, DateTime::<Utc>::MAX_UTC.timestamp());
    let epoch = NaiveDate::from_ymd_opt(1970, 1, 1).unwrap();
    assert_eq!(MIN_EPOCH_DAY, (NaiveDate::MIN - epoch).num_days());
    assert_eq!(MAX_EPOCH_DAY, (NaiveDate::MAX - epoch).num_days());
    assert!(DateTime::from_timestamp(MIN_TIMESTAMP, 0).is_some());
    assert!(DateTime::from_timestamp(MAX_TIMESTAMP, 0).is_some());
    assert!(DateTime::from_timestamp(MAX_TIMESTAMP + 1, 0).is_none());
}

#[test]
fn days_are_counted_in_utc() {
    assert_eq!(day_of_instant(0), 0);
    assert_eq!(day_of_instant(86399), 0);
    assert_eq!(day_of_instant(86400), 1);
    assert_eq!(day_of_instant(-1), -1);
    assert_eq!(day_of_instant(-86400), -1);
    assert_eq!(day_of_instant(-86401), -2);
}

#[test]
fn decimals() {
    assert_eq!(decimal_string(0), "0");
    assert_eq!(decimal_string(42), "42");
    assert_eq!(decimal_string(u128::MAX), u128::MAX.to_string());
    assert_eq!(text(&decimal_chars(1_000_000)), "1000000");
}

#[test]
fn case_folding_and_comparison() {
    assert_eq!(text(&to_ascii_lowercase("MiXeD Ünïcode")), "mixed Ünïcode");
    let lowered = to_ascii_lowercase("LOW");
    assert!(chars_equal(&lowered, "low"));
    assert!(!chars_equal(&lowered, "lo"));
}

#[test]
fn trimming() {
    assert_eq!(text(&trim_chars("  \t hello world \r\n")), "hello world");
    assert_eq!(text(&trim_chars("   ")), "");
    assert_eq!(text(&trim_chars("\u{3000}x\u{a0}")), "\u{3000}x\u{a0}".trim());
    assert!(is_white_space_char('\u{2028}'));
    assert!(!is_white_space_char('x'));
    let v: Vec<char> = "\n\nabc\n".chars().collect();
    assert_eq!(text(&strip_leading_newlines(&v)), "abc\n");
}

#[test]
fn white_space_agrees_with_std() {
    for c in (0u32..0x3100).filter_map(char::from_u32) {
        assert_eq!(is_white_space_char(c), c.is_whitespace(), "{c:?}");
    }
}
