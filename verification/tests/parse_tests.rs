use remind_bot::parse::{parse_u32, parse_u64};

#[test]
fn parses_plain_numbers() {
    assert_eq!(parse_u64("0"), Some(0));
    assert_eq!(parse_u64("60"), Some(60));
    assert_eq!(parse_u64("007"), Some(7));
    assert_eq!(parse_u64("1234567890"), Some(1234567890));
}

#[test]
fn parses_the_largest_value() {
    assert_eq!(parse_u64("18446744073709551615"), Some(u64::MAX));
}

#[test]
fn rejects_values_out_of_range() {
    assert_eq!(parse_u64("18446744073709551616"), None);
    assert_eq!(parse_u64("99999999999999999999999999"), None);
}

#[test]
fn rejects_text_that_is_not_all_digits() {
    assert_eq!(parse_u64(""), None);
    assert_eq!(parse_u64("12a"), None);
    assert_eq!(parse_u64("a12"), None);
    assert_eq!(parse_u64("+5"), None);
    assert_eq!(parse_u64("-5"), None);
    assert_eq!(parse_u64("1 2"), None);
    assert_eq!(parse_u64("soon"), None);
}

#[test]
fn parses_ids_within_u32() {
    assert_eq!(parse_u32("1"), Some(1));
    assert_eq!(parse_u32("4294967295"), Some(u32::MAX));
}

#[test]
fn rejects_ids_beyond_u32() {
    assert_eq!(parse_u32("4294967296"), None);
    assert_eq!(parse_u32("18446744073709551615"), None);
    assert_eq!(parse_u32("x"), None);
}
