use file_handoff::timestamp::{chrono_timestamp, format_timestamp, stamp_text, zero_padded_text};
use std::time::{SystemTime, UNIX_EPOCH};

#[test]
fn epoch_is_first_of_january_1970() {
    assert_eq!(format_timestamp(0), "1970-01-01T00:00:00");
}

#[test]
fn time_of_day_fields() {
    assert_eq!(format_timestamp(59), "1970-01-01T00:00:59");
    assert_eq!(format_timestamp(60), "1970-01-01T00:01:00");
    assert_eq!(format_timestamp(86_399), "1970-01-01T23:59:59");
    assert_eq!(format_timestamp(86_400), "1970-01-02T00:00:00");
}

#[test]
fn month_has_thirty_days() {
    assert_eq!(format_timestamp(2_591_999), "1970-01-30T23:59:59");
    assert_eq!(format_timestamp(2_592_000), "1970-02-01T00:00:00");
}

#[test]
fn year_has_365_days_and_a_thirteenth_month() {
    assert_eq!(format_timestamp(31_103_999), "1970-12-30T23:59:59");
    assert_eq!(format_timestamp(31_104_000), "1970-13-01T00:00:00");
    assert_eq!(format_timestamp(31_535_999), "1970-13-05T23:59:59");
    assert_eq!(format_timestamp(31_536_000), "1971-01-01T00:00:00");
}

#[test]
fn day_field_counts_within_the_month_field() {
    assert_eq!(format_timestamp(33_609_600), "1971-01-25T00:00:00");
    assert_eq!(format_timestamp(33_695_999), "1971-01-25T23:59:59");
    assert_eq!(format_timestamp(33_696_000), "1971-01-26T00:00:00");
    assert_eq!(format_timestamp(34_127_999), "1971-01-30T23:59:59");
    assert_eq!(format_timestamp(34_128_000), "1971-02-01T00:00:00");
}

#[test]
fn a_recent_second() {
    assert_eq!(format_timestamp(1_700_000_000), "2023-12-01T22:13:20");
}

#[test]
fn year_field_grows_past_four_digits() {
    assert_eq!(format_timestamp(253_234_079_999), "9999-13-05T23:59:59");
    assert_eq!(format_timestamp(253_234_080_000), "10000-01-01T00:00:00");
    assert_eq!(format_timestamp(u64::MAX), "584942419325-01-27T07:00:15");
}

#[test]
fn stamps_keep_the_order_of_time() {
    let mut previous = format_timestamp(0);
    let mut secs: u64 = 1;
    while secs < 4 * 31_536_000 {
        let current = format_timestamp(secs);
        assert!(previous <= current, "{} then {}", previous, current);
        previous = current;
        secs += 7_919;
    }
}

#[test]
fn stamps_keep_order_across_every_field_boundary() {
    let boundaries: [u64; 9] = [
        60,
        3_600,
        86_400,
        2_592_000,
        31_104_000,
        31_536_000,
        33_696_000,
        1_700_000_000,
        253_234_079_999,
    ];
    for boundary in boundaries {
        let before = format_timestamp(boundary - 1);
        let at = format_timestamp(boundary);
        assert!(before < at, "{} then {}", before, at);
    }
    assert!(format_timestamp(33_609_600) < format_timestamp(33_696_000));
}

#[test]
fn stamps_of_seconds_apart_differ() {
    assert_ne!(format_timestamp(1_700_000_000), format_timestamp(1_700_000_001));
    assert_eq!(format_timestamp(1_700_000_000), format_timestamp(1_700_000_000));
}

#[test]
fn stamp_text_of_a_reading() {
    assert_eq!(stamp_text(Some(0)), "1970-01-01T00:00:00");
    assert_eq!(stamp_text(Some(1_700_000_000)), "2023-12-01T22:13:20");
    assert_eq!(stamp_text(Some(u64::MAX)), format_timestamp(u64::MAX));
}

#[test]
fn stamp_text_without_a_reading() {
    assert_eq!(stamp_text(None), "Unknown");
}

#[test]
fn stamp_has_nineteen_characters() {
    for secs in [0u64, 1, 86_399, 31_535_999, 1_700_000_000, 253_234_079_999] {
        let text = format_timestamp(secs);
        assert_eq!(text.len(), 19);
        let bytes = text.as_bytes();
        assert_eq!(bytes[4], b'-');
        assert_eq!(bytes[7], b'-');
        assert_eq!(bytes[10], b'T');
        assert_eq!(bytes[13], b':');
        assert_eq!(bytes[16], b':');
    }
}

#[test]
fn zero_padding() {
    assert_eq!(zero_padded_text(0, 2), "00");
    assert_eq!(zero_padded_text(7, 2), "07");
    assert_eq!(zero_padded_text(10, 2), "10");
    assert_eq!(zero_padded_text(99, 2), "99");
    assert_eq!(zero_padded_text(123, 2), "123");
    assert_eq!(zero_padded_text(5, 4), "0005");
    assert_eq!(zero_padded_text(1970, 4), "1970");
    assert_eq!(zero_padded_text(0, 0), "0");
    assert_eq!(zero_padded_text(0, 1), "0");
    assert_eq!(zero_padded_text(42, 0), "42");
    assert_eq!(zero_padded_text(u64::MAX, 4), "18446744073709551615");
    assert_eq!(zero_padded_text(u64::MAX, 22), "0018446744073709551615");
}

#[test]
fn current_stamp_is_the_stamp_of_a_current_second() {
    let before = SystemTime::now()
        .duration_since(UNIX_EPOCH)
        .unwrap()
        .as_secs();
    let stamp = chrono_timestamp();
    let after = SystemTime::now()
        .duration_since(UNIX_EPOCH)
        .unwrap()
        .as_secs();
    assert!((before..=after).any(|secs| format_timestamp(secs) == stamp));
}
