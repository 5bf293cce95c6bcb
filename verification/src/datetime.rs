//! Civil UTC date/time of a Unix timestamp, for IPP `dateTime` values
//! (RFC 2579 / RFC 8011 §5.1.15).

use vstd::prelude::*;

verus! {

/// Day number (days since 1970-01-01) of the proleptic Gregorian date
/// `y-m-d`, for `1 <= m <= 12`.
pub open spec fn days_from_civil(y: int, m: int, d: int) -> int {
    let yp = if m <= 2 { y - 1 } else { y };
    let era = yp / 400;
    let yoe = yp - era * 400;
    let mp = if m > 2 { m - 3 } else { m + 9 };
    let doy = (153 * mp + 2) / 5 + d - 1;
    let doe = yoe * 365 + yoe / 4 - yoe / 100 + doy;
    era * 146097 + doe - 719468
}

/// Gregorian leap-year rule.
pub open spec fn is_leap_year(y: int) -> bool {
    (y % 4 == 0 && y % 100 != 0) || y % 400 == 0
}

/// Number of days of month `m` (1-12) of year `y`.
pub open spec fn days_in_month(y: int, m: int) -> int {
    if m == 2 {
        if is_leap_year(y) {
            29
        } else {
            28
        }
    } else if m == 4 || m == 6 || m == 9 || m == 11 {
        30
    } else {
        31
    }
}

/// Day 0 is 1970-01-01.
pub proof fn lemma_epoch_is_day_zero()
    ensures
        days_from_civil(1970, 1, 1) == 0,
{
}

/// Consecutive days of a month have consecutive day numbers.
pub proof fn lemma_next_day(y: int, m: int, d: int)
    requires
        1 <= m <= 12,
    ensures
        days_from_civil(y, m, d + 1) == days_from_civil(y, m, d) + 1,
{
}

/// The first day of the next month follows the last day of month `m`: day
/// numbers count the days of the Gregorian calendar without gap or overlap.
pub proof fn lemma_next_month(y: int, m: int)
    requires
        1 <= m <= 12,
    ensures
        m < 12 ==> days_from_civil(y, m + 1, 1) == days_from_civil(y, m, 1) + days_in_month(y, m),
        m == 12 ==> days_from_civil(y + 1, 1, 1) == days_from_civil(y, 12, 1) + 31,
{
    if m == 2 {
        let yp = y - 1;
        let e = yp / 400;
        let t = yp - e * 400;
        assert(0 <= t < 400) by (nonlinear_arith)
            requires
                e == yp / 400,
                t == yp - e * 400,
        ;
        if t < 399 {
            assert(y / 400 == e && y - e * 400 == t + 1) by (nonlinear_arith)
                requires
                    e == yp / 400,
                    t == yp - e * 400,
                    yp == y - 1,
                    0 <= t < 399,
            ;
            assert(is_leap_year(y) == (((t + 1) % 4 == 0 && (t + 1) % 100 != 0))) by (nonlinear_arith)
                requires
                    y == e * 400 + t + 1,
                    0 <= t < 399,
            ;
            assert((t + 1) / 4 - t / 4 == (if (t + 1) % 4 == 0 { 1int } else { 0 }));
            assert((t + 1) / 100 - t / 100 == (if (t + 1) % 100 == 0 { 1int } else { 0 }));
        } else {
            assert(y / 400 == e + 1 && y - (e + 1) * 400 == 0) by (nonlinear_arith)
                requires
                    e == yp / 400,
                    t == yp - e * 400,
                    yp == y - 1,
                    t == 399,
            ;
            assert(y % 400 == 0) by (nonlinear_arith)
                requires
                    y == (e + 1) * 400,
            ;
        }
    }
}

/// Within a 400-year era, the shifted year and day of year of day `doe`.
proof fn lemma_day_of_era(doe: u32)
    requires
        doe <= 146096,
    ensures
        ({
            let yoe = (doe - doe / 1460 + doe / 36524 - doe / 146096) / 365;
            &&& yoe <= 399
            &&& 365 * yoe + yoe / 4 - yoe / 100 <= doe
            &&& doe <= 365 * yoe + yoe / 4 - yoe / 100 + 365
            &&& doe < 365 * (yoe + 1) + (yoe + 1) / 4 - (yoe + 1) / 100 + (if yoe == 399 {
                1int
            } else {
                0
            })
        }),
{
    assert({
        let yoe = (doe - doe / 1460 + doe / 36524 - doe / 146096) / 365;
        &&& yoe <= 399
        &&& 365 * yoe + yoe / 4 - yoe / 100 <= doe
        &&& doe <= 365 * yoe + yoe / 4 - yoe / 100 + 365
        &&& doe < 365 * (yoe + 1) + (yoe + 1) / 4 - (yoe + 1) / 100 + (if yoe == 399 {
            1int
        } else {
            0
        })
    }) by (bit_vector)
        requires
            doe <= 146096,
    ;
}

/// The civil date of day `doe` of era `era` (400-year eras counted from
/// 0000-03-01), computed as [`datetime_utc`] does, is a valid date whose day
/// number is `era * 146097 + doe - 719468`.
proof fn lemma_civil_date(
    era: int,
    doe: int,
    yoe: int,
    doy: int,
    mp: int,
    day: int,
    month: int,
    year: int,
)
    requires
        0 <= doe <= 146096,
        yoe == (doe - doe / 1460 + doe / 36524 - doe / 146096) / 365,
        doy == doe - (365 * yoe + yoe / 4 - yoe / 100),
        mp == (5 * doy + 2) / 153,
        day == doy - (153 * mp + 2) / 5 + 1,
        month == if mp < 10 {
            mp + 3
        } else {
            mp - 9
        },
        year == if month <= 2 {
            yoe + era * 400 + 1
        } else {
            yoe + era * 400
        },
    ensures
        1 <= month <= 12,
        1 <= day <= days_in_month(year, month),
        days_from_civil(year, month, day) == era * 146097 + doe - 719468,
{
    lemma_day_of_era(doe as u32);
    assert(0 <= yoe <= 399 && 0 <= doy <= 365);
    assert(0 <= mp <= 11 && 1 <= day <= 31 && (153 * mp + 2) / 5 + day - 1 == doy
        && 5 * doy + 2 < 153 * (mp + 1)) by (nonlinear_arith)
        requires
            0 <= doy <= 365,
            mp == (5 * doy + 2) / 153,
            day == doy - (153 * mp + 2) / 5 + 1,
    ;
    let yp: int = if month <= 2 {
        year - 1
    } else {
        year
    };
    assert(yp == yoe + era * 400);
    assert(yp / 400 == era && yp - era * 400 == yoe) by (nonlinear_arith)
        requires
            yp == yoe + era * 400,
            0 <= yoe <= 399,
    ;
    if mp == 11 {
        let t = yoe + 1;
        assert(year == era * 400 + t);
        assert(is_leap_year(year) == (((t % 4 == 0 && t % 100 != 0)) || t == 400)) by (
        nonlinear_arith)
            requires
                year == era * 400 + t,
                1 <= t <= 400,
        ;
        assert(t / 4 - yoe / 4 == (if t % 4 == 0 {
            1int
        } else {
            0
        }));
        assert(t / 100 - yoe / 100 == (if t % 100 == 0 {
            1int
        } else {
            0
        }));
    } else {
        if mp == 0 {
        } else if mp == 1 {
        } else if mp == 2 {
        } else if mp == 3 {
        } else if mp == 4 {
        } else if mp == 5 {
        } else if mp == 6 {
        } else if mp == 7 {
        } else if mp == 8 {
        } else if mp == 9 {
        } else {
        }
    }
}

/// Within a month, day numbers advance with the day of the month.
proof fn lemma_day_offset(y: int, m: int, d: int)
    requires
        1 <= m <= 12,
    ensures
        days_from_civil(y, m, d) == days_from_civil(y, m, 1) + d - 1,
{
}

/// A later month of the same year starts after an earlier month ends.
proof fn lemma_month_order(y: int, m1: int, m2: int)
    requires
        1 <= m1 < m2 <= 12,
    ensures
        days_from_civil(y, m2, 1) >= days_from_civil(y, m1, 1) + days_in_month(y, m1),
    decreases m2 - m1,
{
    lemma_next_month(y, m1);
    if m1 + 1 < m2 {
        lemma_month_order(y, m1 + 1, m2);
    }
}

/// The next year starts after every month of this year ends.
proof fn lemma_year_end(y: int, m: int)
    requires
        1 <= m <= 12,
    ensures
        days_from_civil(y + 1, 1, 1) >= days_from_civil(y, m, 1) + days_in_month(y, m),
{
    lemma_next_month(y, 12);
    if m < 12 {
        lemma_month_order(y, m, 12);
    }
}

/// A later year starts no earlier than the year after an earlier one.
proof fn lemma_year_order(y1: int, y2: int)
    requires
        y1 < y2,
    ensures
        days_from_civil(y2, 1, 1) >= days_from_civil(y1 + 1, 1, 1),
    decreases y2 - y1,
{
    if y1 + 1 < y2 {
        lemma_year_order(y1, y2 - 1);
        lemma_year_end(y2 - 1, 1);
    }
}

/// Distinct calendar dates have distinct day numbers.
pub proof fn lemma_civil_dates_distinct(y1: int, m1: int, d1: int, y2: int, m2: int, d2: int)
    requires
        1 <= m1 <= 12,
        1 <= d1 <= days_in_month(y1, m1),
        1 <= m2 <= 12,
        1 <= d2 <= days_in_month(y2, m2),
        days_from_civil(y1, m1, d1) == days_from_civil(y2, m2, d2),
    ensures
        y1 == y2 && m1 == m2 && d1 == d2,
{
    lemma_day_offset(y1, m1, d1);
    lemma_day_offset(y2, m2, d2);
    if y1 < y2 {
        lemma_year_end(y1, m1);
        lemma_year_order(y1, y2);
        if m2 > 1 {
            lemma_month_order(y2, 1, m2);
        }
    } else if y2 < y1 {
        lemma_year_end(y2, m2);
        lemma_year_order(y2, y1);
        if m1 > 1 {
            lemma_month_order(y1, 1, m1);
        }
    } else if m1 < m2 {
        lemma_month_order(y1, m1, m2);
    } else if m2 < m1 {
        lemma_month_order(y1, m2, m1);
    }
}

/// An instant names a single civil date and time.
pub proof fn lemma_names_instant_unique(t1: CivilDateTime, t2: CivilDateTime, unix_secs: int)
    requires
        names_instant(t1, unix_secs),
        names_instant(t2, unix_secs),
    ensures
        t1 == t2,
{
    let y1 = choose|y: int|
        #![trigger days_from_civil(y, t1.month as int, t1.day as int)]
        t1.year == y as u16 && t1.day <= days_in_month(y, t1.month as int) && days_from_civil(y, t1.month as int, t1.day as int) * 86400 + t1.hour
            * 3600 + t1.minutes * 60 + t1.seconds == unix_secs;
    let y2 = choose|y: int|
        #![trigger days_from_civil(y, t2.month as int, t2.day as int)]
        t2.year == y as u16 && t2.day <= days_in_month(y, t2.month as int) && days_from_civil(y, t2.month as int, t2.day as int) * 86400 + t2.hour
            * 3600 + t2.minutes * 60 + t2.seconds == unix_secs;
    let a = days_from_civil(y1, t1.month as int, t1.day as int);
    let b = days_from_civil(y2, t2.month as int, t2.day as int);
    let r1 = t1.hour * 3600 + t1.minutes * 60 + t1.seconds;
    let r2 = t2.hour * 3600 + t2.minutes * 60 + t2.seconds;
    assert(a == b && r1 == r2) by (nonlinear_arith)
        requires
            a * 86400 + r1 == b * 86400 + r2,
            0 <= r1 < 86400,
            0 <= r2 < 86400,
    ;
    assert(t1.hour == t2.hour && t1.minutes == t2.minutes && t1.seconds == t2.seconds) by (nonlinear_arith)
        requires
            t1.hour * 3600 + t1.minutes * 60 + t1.seconds == t2.hour * 3600 + t2.minutes * 60 + t2.seconds,
            t1.hour < 24,
            t1.minutes < 60,
            t1.seconds < 60,
            t2.hour < 24,
            t2.minutes < 60,
            t2.seconds < 60,
    ;
    lemma_civil_dates_distinct(y1, t1.month as int, t1.day as int, y2, t2.month as int, t2.day as int);
}

/// A civil UTC date and time of day, as carried by an IPP `dateTime` value
/// (whose deci-seconds and UTC offset are always zero here).
#[derive(Clone, Copy, Debug, PartialEq, Eq, Structural)]
pub struct CivilDateTime {
    pub year: u16,
    pub month: u8,
    pub day: u8,
    pub hour: u8,
    pub minutes: u8,
    pub seconds: u8,
}

/// `t` names the instant `unix_secs` seconds after 1970-01-01T00:00:00Z, its
/// year taken modulo 2^16 as the IPP `dateTime` field holds it.
pub open spec fn names_instant(t: CivilDateTime, unix_secs: int) -> bool {
    &&& 1 <= t.month <= 12
    &&& 1 <= t.day <= 31
    &&& t.hour < 24
    &&& t.minutes < 60
    &&& t.seconds < 60
    &&& exists|y: int|
        #![trigger days_from_civil(y, t.month as int, t.day as int)]
        t.year == y as u16 && t.day <= days_in_month(y, t.month as int) && days_from_civil(y, t.month as int, t.day as int) * 86400 + t.hour
            * 3600 + t.minutes * 60 + t.seconds == unix_secs
}

/// Break a Unix timestamp into a civil UTC date and time of day.
pub fn datetime_utc(unix_secs: i64) -> (r: CivilDateTime)
    ensures
        names_instant(r, unix_secs as int),
{
    let days: i64 = match unix_secs.checked_div_euclid(86_400) {
        Some(d) => d,
        None => 0,
    };
    let rem: i64 = match unix_secs.checked_rem_euclid(86_400) {
        Some(r) => r,
        None => 0,
    };
    proof {
        vstd::arithmetic::div_mod::lemma_fundamental_div_mod(unix_secs as int, 86_400);
        assert(-106_751_991_167_301 <= days <= 106_751_991_167_300) by (nonlinear_arith)
            requires
                days == unix_secs as int / 86_400,
                i64::MIN <= unix_secs <= i64::MAX,
        ;
    }
    let hour: i64 = rem / 3600;
    let minutes: i64 = (rem % 3600) / 60;
    let seconds: i64 = rem % 60;
    proof {
        assert(hour * 3600 + minutes * 60 + seconds == rem && hour < 24 && minutes < 60) by (nonlinear_arith)
            requires
                0 <= rem < 86_400,
                hour == rem / 3600,
                minutes == (rem % 3600) / 60,
                seconds == rem % 60,
        ;
    }

    let z: i64 = days + 719_468;
    let era: i64 = match z.checked_div_euclid(146_097) {
        Some(e) => e,
        None => 0,
    };
    proof {
        vstd::arithmetic::div_mod::lemma_fundamental_div_mod(z as int, 146_097);
        assert(-730_000_000_000 <= era <= 730_000_000_000) by (nonlinear_arith)
            requires
                era == z as int / 146_097,
                -106_751_991_167_301 <= z <= 106_751_991_167_300 + 719_468,
        ;
    }
    let doe: i64 = z - era * 146_097;
    let yoe: i64 = (doe - doe / 1460 + doe / 36_524 - doe / 146_096) / 365;
    proof {
        lemma_day_of_era(doe as u32);
    }
    let y: i64 = yoe + era * 400;
    let doy: i64 = doe - (365 * yoe + yoe / 4 - yoe / 100);
    let mp: i64 = (5 * doy + 2) / 153;
    let day: i64 = doy - (153 * mp + 2) / 5 + 1;
    let month: i64 = if mp < 10 {
        mp + 3
    } else {
        mp - 9
    };
    let year: i64 = if month <= 2 {
        y + 1
    } else {
        y
    };
    proof {
        lemma_civil_date(era as int, doe as int, yoe as int, doy as int, mp as int, day as int, month as int, year as int);
    }
    let r = CivilDateTime {
        year: year as u16,
        month: month as u8,
        day: day as u8,
        hour: hour as u8,
        minutes: minutes as u8,
        seconds: seconds as u8,
    };
    proof {
        assert(days_from_civil(year as int, r.month as int, r.day as int) * 86400 + r.hour * 3600
            + r.minutes * 60 + r.seconds == unix_secs as int);
    }
    r
}

} // verus!
