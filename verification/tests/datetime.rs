use ipp_printer_app::datetime::{datetime_utc, CivilDateTime};

fn civil(year: u16, month: u8, day: u8, hour: u8, minutes: u8, seconds: u8) -> CivilDateTime {
    CivilDateTime { year, month, day, hour, minutes, seconds }
}

#[test]
fn epoch_is_new_year_1970() {
    assert_eq!(datetime_utc(0), civil(1970, 1, 1, 0, 0, 0));
}

#[test]
fn leap_day_2000() {
    assert_eq!(datetime_utc(951_782_400), civil(2000, 2, 29, 0, 0, 0));
}

#[test]
fn one_second_before_the_epoch() {
    assert_eq!(datetime_utc(-1), civil(1969, 12, 31, 23, 59, 59));
}

#[test]
fn a_recent_instant() {
    assert_eq!(datetime_utc(1_700_000_000), civil(2023, 11, 14, 22, 13, 20));
}

#[test]
fn end_of_a_non_leap_february() {
    // 2023-02-28T12:00:00Z, then a day later is March 1st.
    assert_eq!(datetime_utc(1_677_585_600), civil(2023, 2, 28, 12, 0, 0));
    assert_eq!(datetime_utc(1_677_585_600 + 86_400), civil(2023, 3, 1, 12, 0, 0));
}

#[test]
fn century_non_leap_year() {
    // 1900 is not a leap year: 1900-03-01.
    assert_eq!(datetime_utc(-2_203_891_200), civil(1900, 3, 1, 0, 0, 0));
}

#[test]
fn extreme_timestamps_do_not_panic() {
    let lo = datetime_utc(i64::MIN);
    let hi = datetime_utc(i64::MAX);
    assert!((1..=12).contains(&lo.month) && (1..=31).contains(&lo.day));
    assert!((1..=12).contains(&hi.month) && (1..=31).contains(&hi.day));
    assert!(hi.hour < 24 && hi.minutes < 60 && hi.seconds < 60);
}
