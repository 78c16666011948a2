use clippin::calendar::{civil_in_range, civil_to_unix_secs, unix_secs_to_utc_parts};
use clippin::numbers::{
    decimal_string, decimal_string_signed, parse_signed, parse_unsigned, push_padded,
};
use clippin::timestamps::{
    age_in_range, format_age, format_relative_time, format_unix_ms_iso8601,
    parse_iso8601_to_unix_secs, parse_stamp, CivilTime,
};

#[test]
fn numbers_are_written_and_read() {
    for n in [0, 7, 10, 99, 1_000, u64::MAX] {
        assert_eq!(decimal_string(n), n.to_string());
        assert_eq!(parse_unsigned(&n.to_string(), u64::MAX), Some(n));
    }
    for n in [0, -1, 42, i64::MIN, i64::MAX] {
        assert_eq!(decimal_string_signed(n), n.to_string());
        assert_eq!(parse_signed(&n.to_string(), i64::MIN, i64::MAX), Some(n));
    }
    for s in ["", "+", "-", "+7", "-0", "007", " 1", "1 ", "1x", "18446744073709551616", "--1"] {
        assert_eq!(parse_unsigned(s, u64::MAX), s.parse::<u64>().ok(), "{}", s);
        assert_eq!(parse_signed(s, i64::MIN, i64::MAX), s.parse::<i64>().ok(), "{}", s);
        assert_eq!(parse_unsigned(s, u32::MAX as u64), s.parse::<u32>().ok().map(|n| n as u64));
    }
    let mut s = String::from("x");
    push_padded(&mut s, 7, 3);
    push_padded(&mut s, 12345, 3);
    assert_eq!(s, "x00712345");
}

#[test]
fn calendar_of_known_moments() {
    assert_eq!(unix_secs_to_utc_parts(0), (1970, 1, 1, 0, 0, 0));
    assert_eq!(unix_secs_to_utc_parts(-5), (1970, 1, 1, 0, 0, 0));
    assert_eq!(unix_secs_to_utc_parts(951_782_399), (2000, 2, 28, 23, 59, 59));
    assert_eq!(unix_secs_to_utc_parts(951_782_400), (2000, 2, 29, 0, 0, 0));
    assert_eq!(unix_secs_to_utc_parts(1_709_251_199), (2024, 2, 29, 23, 59, 59));
    assert_eq!(unix_secs_to_utc_parts(4_107_542_400), (2100, 3, 1, 0, 0, 0));
}

#[test]
fn calendar_and_its_inverse_agree() {
    let mut t: i64 = 0;
    while t < 8_000_000_000 {
        let (y, mo, d, h, mi, s) = unix_secs_to_utc_parts(t);
        assert!(civil_in_range(y, mo, d));
        assert_eq!(civil_to_unix_secs(y, mo, d, h, mi, s), t);
        t += 86_399 * 13;
    }
    assert_eq!(civil_to_unix_secs(1969, 12, 31, 23, 59, 59), -1);
    assert_eq!(civil_to_unix_secs(1600, 3, 1, 0, 0, 0), -11_670_912_000);
    assert!(!civil_in_range(i32::MIN, 1, 1));
    assert!(!civil_in_range(2024, 1, u32::MAX));
}

#[test]
fn stamps_are_written() {
    assert_eq!(format_unix_ms_iso8601(0), "1970-01-01T00:00:00.000Z");
    assert_eq!(format_unix_ms_iso8601(1_709_210_096_007), "2024-02-29T12:34:56.007Z");
    assert_eq!(format_unix_ms_iso8601(253_402_300_800_000), "10000-01-01T00:00:00.000Z");
    assert!(format_unix_ms_iso8601(u64::MAX).ends_with('Z'));
}

#[test]
fn stamps_read_back_to_the_second() {
    for ms in [0u64, 999, 1_000, 951_782_400_500, 1_709_210_096_007, 4_107_542_399_999] {
        let t = format_unix_ms_iso8601(ms);
        assert_eq!(parse_iso8601_to_unix_secs(&t), Some((ms / 1000) as i64));
    }
}

#[test]
fn stamps_are_read_leniently() {
    assert_eq!(parse_iso8601_to_unix_secs(" 1970-01-02T00:00:01Z \n"), Some(86_401));
    assert_eq!(parse_iso8601_to_unix_secs("1970-01-02T00:00:01"), Some(86_401));
    assert_eq!(parse_iso8601_to_unix_secs("1970-01-02T00:00:01ZZ"), Some(86_401));
    assert_eq!(parse_iso8601_to_unix_secs("1970-01-02-09T00:00:01:77.5"), Some(86_401));
    assert_eq!(parse_iso8601_to_unix_secs("1970-+1-2T0:0:1"), Some(86_401));
    assert_eq!(
        parse_stamp("2024-13-40T25:61:61"),
        Some(CivilTime { year: 2024, month: 13, day: 40, hour: 25, minute: 61, second: 61 })
    );
    for s in ["", "1970-01-02", "1970-01T00:00:00", "1970-01-01T00:00", "x-1-1T0:0:0", "T"] {
        assert_eq!(parse_iso8601_to_unix_secs(s), None, "{}", s);
    }
}

#[test]
fn ages_have_compact_labels() {
    for (secs, label) in [
        (-10, "now"),
        (0, "now"),
        (44, "now"),
        (45, "1m"),
        (89, "1m"),
        (90, "1m"),
        (120, "2m"),
        (3_599, "59m"),
        (3_600, "1h"),
        (129_599, "35h"),
        (129_600, "1d"),
        (1_209_599, "13d"),
        (1_209_600, "2w"),
        (5_443_199, "8w"),
        (5_443_200, "2mo"),
        (46_655_999, "17mo"),
        (46_656_000, "1y"),
        (63_072_000, "2y"),
    ] {
        assert_eq!(format_age(secs), label, "{}", secs);
    }
}

#[test]
fn relative_time_of_a_stamp() {
    let t = format_unix_ms_iso8601(1_700_000_000_000);
    assert!(age_in_range(&t, Some(1_700_000_000)));
    assert_eq!(format_relative_time(&t, Some(1_700_000_000)), "now");
    assert_eq!(format_relative_time(&t, Some(1_700_007_200)), "2h");
    assert_eq!(format_relative_time(&t, Some(1_600_000_000)), "now");
    assert_eq!(format_relative_time(&t, None), "now");
    assert_eq!(format_relative_time("", Some(0)), "");
    assert!(!age_in_range(&t, Some(i64::MIN)));
    assert!(!age_in_range("2024-01-4294967295T00:00:00Z", Some(0)));
    assert!(age_in_range("no stamp", Some(i64::MIN)));
}
