use slack_reader::text::{contains_chars, find_bytes, str_eq};
use slack_reader::ts::{ts_key_of, ts_le_str};

#[test]
fn timestamps_compare_numerically() {
    assert!(ts_le_str("2.0", "10.0"));
    assert!(!ts_le_str("10.0", "2.0"));
    assert!(ts_le_str("1728476400.000100", "1728476400.000200"));
    assert!(!ts_le_str("1728476400.000200", "1728476400.000100"));
}

#[test]
fn equal_values_with_different_renderings_compare_equal() {
    assert!(ts_le_str("1.5", "1.50"));
    assert!(ts_le_str("1.50", "1.5"));
    assert_eq!(ts_key_of("1.5"), ts_key_of("1.50"));
}

#[test]
fn integer_timestamps_parse_without_a_fraction() {
    assert_eq!(ts_key_of("2"), ts_key_of("2.0"));
    assert!(ts_le_str("2", "2.000001"));
    assert!(!ts_le_str("2.000001", "2"));
}

#[test]
fn unparseable_timestamps_sort_below_everything() {
    assert!(ts_le_str("not-a-number", "0.0"));
    assert!(!ts_le_str("0.0", "not-a-number"));
    assert!(ts_le_str("", "abc"));
    assert!(ts_le_str("abc", ""));
    assert_eq!(ts_key_of("12.34.56"), None);
    assert_eq!(ts_key_of(".5"), None);
}

#[test]
fn ts_key_is_the_scaled_decimal_value() {
    assert_eq!(ts_key_of("0"), Some(0));
    assert_eq!(ts_key_of("1"), Some(10_000_000_000_000_000_000));
    assert_eq!(
        ts_key_of("1.5"),
        Some(15_000_000_000_000_000_000)
    );
}

#[test]
fn str_eq_compares_by_characters() {
    assert!(str_eq("abc", "abc"));
    assert!(!str_eq("abc", "abd"));
    assert!(!str_eq("abc", "abcd"));
    assert!(str_eq("", ""));
}

#[test]
fn contains_chars_finds_substrings() {
    assert!(contains_chars("ann has joined the channel", "has joined the channel"));
    assert!(!contains_chars("an ordinary message", "has joined the channel"));
    assert!(contains_chars("anything", ""));
}

#[test]
fn find_bytes_returns_first_occurrence() {
    let hay = b"00xoxd-a xoxd-b".to_vec();
    let needle = b"xoxd-".to_vec();
    assert_eq!(find_bytes(&hay, &needle), Some(2));
    assert_eq!(find_bytes(&hay, &b"zz".to_vec()), None);
}
