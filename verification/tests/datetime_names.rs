use settings_app::datetime::{capture_file_name, decimal_string, secs_to_datetime};

#[test]
fn epoch_is_first_of_january_1970() {
    assert_eq!(secs_to_datetime(0), (1970, 1, 1, 0, 0, 0));
}

#[test]
fn known_timestamps() {
    assert_eq!(secs_to_datetime(1_700_000_000), (2023, 11, 14, 22, 13, 20));
    assert_eq!(secs_to_datetime(951_782_400), (2000, 2, 29, 0, 0, 0));
    assert_eq!(secs_to_datetime(1_709_164_800), (2024, 2, 29, 0, 0, 0));
    assert_eq!(secs_to_datetime(4_107_542_399), (2100, 2, 28, 23, 59, 59));
    assert_eq!(secs_to_datetime(327_416_976_550), (12345, 6, 7, 8, 9, 10));
}

#[test]
fn timestamps_before_the_epoch() {
    assert_eq!(secs_to_datetime(-1), (1969, 12, 31, 23, 59, 59));
    assert_eq!(secs_to_datetime(-62_004_254_094), (5, 3, 1, 4, 5, 6));
    assert_eq!(secs_to_datetime(-62_167_219_200), (0, 1, 1, 0, 0, 0));
    // Year -1 does not fit an unsigned year and wraps around.
    assert_eq!(secs_to_datetime(-62_167_219_201), (u32::MAX, 12, 31, 23, 59, 59));
}

#[test]
fn extreme_timestamps_do_not_panic() {
    let (_, mo, d, h, mi, s) = secs_to_datetime(i64::MAX);
    assert!((1..=12).contains(&mo) && (1..=31).contains(&d) && h < 24 && mi < 60 && s < 60);
    let (_, mo, d, h, mi, s) = secs_to_datetime(i64::MIN);
    assert!((1..=12).contains(&mo) && (1..=31).contains(&d) && h < 24 && mi < 60 && s < 60);
}

#[test]
fn file_names_are_zero_padded() {
    assert_eq!(capture_file_name("PIC", 1_700_000_000), "PIC_2023-11-14_22_13_20.png");
    assert_eq!(capture_file_name("SCROLL", 0), "SCROLL_1970-01-01_00_00_00.png");
    assert_eq!(capture_file_name("PIC", -62_004_254_094), "PIC_0005-03-01_04_05_06.png");
    assert_eq!(capture_file_name("PIC", 327_416_976_550), "PIC_12345-06-07_08_09_10.png");
}

#[test]
fn decimal_strings() {
    assert_eq!(decimal_string(0), "0");
    assert_eq!(decimal_string(7), "7");
    assert_eq!(decimal_string(1234), "1234");
    assert_eq!(decimal_string(u32::MAX), "4294967295");
}
