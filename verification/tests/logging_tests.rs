use goldcap_companion::logging::format_unix_utc;

#[test]
fn formats_epoch_zero() {
    assert_eq!(format_unix_utc(0), "1970-01-01 00:00:00");
}

#[test]
fn formats_known_timestamps() {
    assert_eq!(format_unix_utc(1_700_000_000), "2023-11-14 22:13:20");
    assert_eq!(format_unix_utc(1_609_459_200), "2021-01-01 00:00:00");
}

#[test]
fn formats_times_before_the_epoch_by_floor_division() {
    assert_eq!(format_unix_utc(-1), "1969-12-31 23:59:59");
    assert_eq!(format_unix_utc(-86_400), "1969-12-31 00:00:00");
}

#[test]
fn formats_a_leap_day() {
    assert_eq!(format_unix_utc(1_709_164_800 + 3_661), "2024-02-29 01:01:01");
}

#[test]
fn pads_years_the_way_the_format_string_does() {
    // 0099-01-01 and -0001-01-01 (the year 2 BC, proleptic Gregorian).
    assert_eq!(format_unix_utc(-59_042_995_200), "0099-01-01 00:00:00");
    assert_eq!(format_unix_utc(-62_198_755_200), "-001-01-01 00:00:00");
}
