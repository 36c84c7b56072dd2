use build_attest::calendar::{civil_time, CivilTime};
use build_attest::timestamp::{format_timestamp, get_timestamp};

#[test]
fn epoch_is_the_first_of_january_1970() {
    assert_eq!(format_timestamp(0), "1970-01-01T00:00:00Z");
    assert_eq!(
        civil_time(0),
        CivilTime { year: 1970, month: 1, day: 1, hour: 0, minute: 0, second: 0 }
    );
    assert_eq!(format_timestamp(1), "1970-01-01T00:00:01Z");
    assert_eq!(format_timestamp(59), "1970-01-01T00:00:59Z");
    assert_eq!(format_timestamp(60), "1970-01-01T00:01:00Z");
    assert_eq!(format_timestamp(3599), "1970-01-01T00:59:59Z");
    assert_eq!(format_timestamp(3600), "1970-01-01T01:00:00Z");
    assert_eq!(format_timestamp(86399), "1970-01-01T23:59:59Z");
    assert_eq!(format_timestamp(86400), "1970-01-02T00:00:00Z");
}

#[test]
fn known_moments() {
    assert_eq!(format_timestamp(1_000_000_000), "2001-09-09T01:46:40Z");
    assert_eq!(format_timestamp(1_234_567_890), "2009-02-13T23:31:30Z");
    assert_eq!(format_timestamp(1_700_000_000), "2023-11-14T22:13:20Z");
    assert_eq!(format_timestamp(2_147_483_647), "2038-01-19T03:14:07Z");
    assert_eq!(format_timestamp(4_102_444_800), "2100-01-01T00:00:00Z");
}

#[test]
fn leap_days() {
    assert_eq!(format_timestamp(68_169_600), "1972-02-29T00:00:00Z");
    assert_eq!(format_timestamp(68_256_000), "1972-03-01T00:00:00Z");
    assert_eq!(format_timestamp(951_782_400), "2000-02-29T00:00:00Z");
    assert_eq!(format_timestamp(951_868_800), "2000-03-01T00:00:00Z");
    assert_eq!(format_timestamp(1_709_164_800), "2024-02-29T00:00:00Z");
    // 2100 is no leap year
    assert_eq!(format_timestamp(4_107_456_000), "2100-02-28T00:00:00Z");
    assert_eq!(format_timestamp(4_107_542_400), "2100-03-01T00:00:00Z");
}

#[test]
fn ends_of_years() {
    assert_eq!(format_timestamp(31_535_999), "1970-12-31T23:59:59Z");
    assert_eq!(format_timestamp(31_536_000), "1971-01-01T00:00:00Z");
    assert_eq!(format_timestamp(94_694_399), "1972-12-31T23:59:59Z");
    assert_eq!(format_timestamp(1_704_067_199), "2023-12-31T23:59:59Z");
    assert_eq!(format_timestamp(1_704_067_200), "2024-01-01T00:00:00Z");
    // the last day of a cycle of 400 years and the first of the next
    assert_eq!(format_timestamp(146_097 * 86_400 - 1), "2369-12-31T23:59:59Z");
    assert_eq!(format_timestamp(146_097 * 86_400), "2370-01-01T00:00:00Z");
}

#[test]
fn years_of_more_than_four_digits() {
    assert_eq!(format_timestamp(253_402_300_799), "9999-12-31T23:59:59Z");
    assert_eq!(format_timestamp(253_402_300_800), "10000-01-01T00:00:00Z");
    let last = format_timestamp(u64::MAX);
    assert_eq!(last, "584554051223-11-09T07:00:15Z");
    assert_eq!(civil_time(u64::MAX).year, 584_554_051_223);
}

#[test]
fn every_month_has_its_days() {
    let mut seconds: u64 = 1_672_531_200; // 2023-01-01
    let lengths = [31u64, 28, 31, 30, 31, 30, 31, 31, 30, 31, 30, 31];
    for (index, days) in lengths.iter().enumerate() {
        let first = civil_time(seconds);
        assert_eq!((first.year, first.month as usize, first.day), (2023, index + 1, 1));
        let last = civil_time(seconds + days * 86_400 - 1);
        assert_eq!((last.month as usize, last.day as u64), (index + 1, *days));
        assert_eq!((last.hour, last.minute, last.second), (23, 59, 59));
        seconds += days * 86_400;
    }
    assert_eq!(format_timestamp(seconds), "2024-01-01T00:00:00Z");
}

#[test]
fn later_times_sort_later() {
    let moments = [0u64, 1, 59, 60, 86_399, 86_400, 951_782_400, 1_700_000_000, 253_402_300_799];
    for pair in moments.windows(2) {
        assert!(format_timestamp(pair[0]) < format_timestamp(pair[1]));
        assert_eq!(format_timestamp(pair[0]).len(), 20);
    }
}

#[test]
fn present_moment_has_the_fixed_form() {
    let now = get_timestamp();
    let chars: Vec<char> = now.chars().collect();
    assert_eq!(chars.len(), 20);
    assert_eq!((chars[4], chars[7], chars[10]), ('-', '-', 'T'));
    assert_eq!((chars[13], chars[16], chars[19]), (':', ':', 'Z'));
    assert!(now.as_str() > "2024-01-01T00:00:00Z");
}
