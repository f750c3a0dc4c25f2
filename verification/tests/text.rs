use nextcloud_talk::clock::unix_secs;
use nextcloud_talk::decimal::{format_i64, format_u64, parse_u64};
use nextcloud_talk::text::{
    eq_ignore_ascii_case, is_white_space, same_text, split_after_last, split_before, strip_prefix,
    trim, trim_end_of,
};
use nextcloud_talk::timestamp::{reported_timestamp, timestamp_secs};
use nextcloud_talk::{JsonNumber, JsonValue};

const SAMPLES: [&str; 14] = [
    "",
    " ",
    "a",
    "  a b ",
    "\u{a0}x\u{2028}",
    "sha256=ab",
    "sha256",
    "/",
    "//a//",
    "users/u",
    "ÄÖü",
    "MESSAGE",
    "mEsSaGe",
    "\u{200b}z\u{200b}",
];

#[test]
fn white_space_is_that_of_unicode() {
    for code in 0..=0x10ffffu32 {
        if let Some(c) = char::from_u32(code) {
            assert_eq!(is_white_space(c), c.is_whitespace());
        }
    }
}

#[test]
fn text_functions_agree_with_the_standard_library() {
    for a in SAMPLES {
        assert_eq!(trim(a), a.trim());
        assert_eq!(trim_end_of(a, '/'), a.trim_end_matches('/'));
        assert_eq!(split_before(a, '/'), a.split('/').next().unwrap());
        assert_eq!(split_after_last(a, '/'), a.rsplit('/').next().unwrap());
        for b in SAMPLES {
            assert_eq!(same_text(a, b), a == b);
            assert_eq!(eq_ignore_ascii_case(a, b), a.eq_ignore_ascii_case(b));
            assert_eq!(strip_prefix(a, b), a.strip_prefix(b));
        }
    }
}

#[test]
fn numbers_are_read_like_the_standard_library_reads_them() {
    for s in [
        "", "+", "-", "0", "+0", "-0", "007", "12", "+12", "++1", "1+", " 1", "1_000", "1a", "١",
        "18446744073709551615", "18446744073709551616", "18446744073709551620",
        "99999999999999999999", "184467440737095516150", "00000000000000000000000000001",
    ] {
        assert_eq!(parse_u64(s), s.parse::<u64>().ok());
    }
}

#[test]
fn numbers_are_written_in_decimal_and_read_back() {
    for n in [0, 1, 9, 10, 99, 100, 1_735_701_200, u64::MAX - 1, u64::MAX] {
        assert_eq!(format_u64(n), n.to_string());
        assert_eq!(parse_u64(&format_u64(n)), Some(n));
    }
    for n in [0, 1, -1, -9, -10, i64::MAX, i64::MIN] {
        assert_eq!(format_i64(n), n.to_string());
    }
}

fn number(n: JsonNumber) -> JsonValue {
    JsonValue::Number(n)
}

#[test]
fn timestamps_are_numbers_or_text() {
    let read = |value: JsonValue| reported_timestamp(Some(&value));
    assert_eq!(read(number(JsonNumber::Unsigned(5))), Some(5));
    assert_eq!(read(number(JsonNumber::Signed(5))), Some(5));
    assert_eq!(read(number(JsonNumber::Signed(-5))), None);
    assert_eq!(read(number(JsonNumber::Float("5.0".to_string()))), None);
    assert_eq!(read(JsonValue::String(" 5\n".to_string())), Some(5));
    assert_eq!(read(JsonValue::String("five".to_string())), None);
    assert_eq!(read(JsonValue::Bool(true)), None);
    assert_eq!(reported_timestamp(None), None);
}

#[test]
fn large_timestamps_are_milliseconds() {
    assert_eq!(timestamp_secs(Some(1_000_000_000_000), 7), 1_000_000_000_000);
    assert_eq!(timestamp_secs(Some(1_000_000_000_001), 7), 1_000_000_000);
    assert_eq!(timestamp_secs(Some(1_735_701_200_999), 7), 1_735_701_200);
    assert_eq!(timestamp_secs(Some(0), 7), 0);
    assert_eq!(timestamp_secs(None, 7), 7);
    assert_eq!(timestamp_secs(None, 1_735_701_200_123), 1_735_701_200);
}

#[test]
fn clock_before_the_epoch_counts_as_the_epoch() {
    assert_eq!(unix_secs(Some(1_735_701_200)), 1_735_701_200);
    assert_eq!(unix_secs(None), 0);
}
