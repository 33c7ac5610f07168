//! Calendar arithmetic: distinct wall-clock readings are distinct instants,
//! and a reading that comes first field by field is the earlier instant.

use vstd::prelude::*;
use crate::civil::{
    CivilDateTime, civil_seconds, days_before_month, days_before_year, days_from_civil,
    days_in_month, is_leap_year, is_valid_civil, leap_count,
};

verus! {

proof fn lemma_leap_step(y: int)
    ensures
        leap_count(y + 1) - leap_count(y) == (if is_leap_year(y) {
            1int
        } else {
            0int
        }),
{
    assert(y / 4 - (y - 1) / 4 == (if y % 4 == 0 {
        1int
    } else {
        0int
    }));
    assert(y / 100 - (y - 1) / 100 == (if y % 100 == 0 {
        1int
    } else {
        0int
    }));
    assert(y / 400 - (y - 1) / 400 == (if y % 400 == 0 {
        1int
    } else {
        0int
    }));
    if y % 400 == 0 {
        assert(y % 100 == 0 && y % 4 == 0);
    } else if y % 100 == 0 {
        assert(y % 4 == 0);
    }
}

proof fn lemma_year_length(y: int)
    ensures
        days_before_year(y + 1) - days_before_year(y) == 365 + (if is_leap_year(y) {
            1int
        } else {
            0int
        }),
{
    lemma_leap_step(y);
}

proof fn lemma_years_ordered(a: int, b: int)
    requires
        a <= b,
    ensures
        days_before_year(a) <= days_before_year(b),
    decreases b - a,
{
    if a < b {
        lemma_years_ordered(a, b - 1);
        lemma_year_length(b - 1);
    }
}

/// The day of a valid date lies within its year, and within its month.
proof fn lemma_day_in_year(y: int, m: int, d: int)
    requires
        1 <= m <= 12,
        1 <= d <= days_in_month(y, m),
    ensures
        days_before_year(y) <= days_from_civil(y, m, d) < days_before_year(y + 1),
        days_before_month(y, m) <= days_from_civil(y, m, d) - days_before_year(y) < days_before_month(y, m) + days_in_month(y, m),
        m < 12 ==> days_before_month(y, m) + days_in_month(y, m) == days_before_month(y, m + 1),
{
    lemma_year_length(y);
}

proof fn lemma_months_ordered(y: int, m1: int, m2: int)
    requires
        1 <= m1 < m2 <= 12,
    ensures
        days_before_month(y, m1) + days_in_month(y, m1) <= days_before_month(y, m2),
{
}

proof fn lemma_days_injective(y1: int, m1: int, d1: int, y2: int, m2: int, d2: int)
    requires
        1 <= m1 <= 12,
        1 <= d1 <= days_in_month(y1, m1),
        1 <= m2 <= 12,
        1 <= d2 <= days_in_month(y2, m2),
        days_from_civil(y1, m1, d1) == days_from_civil(y2, m2, d2),
    ensures
        y1 == y2 && m1 == m2 && d1 == d2,
{
    lemma_day_in_year(y1, m1, d1);
    lemma_day_in_year(y2, m2, d2);
    if y1 < y2 {
        lemma_years_ordered(y1 + 1, y2);
    } else if y2 < y1 {
        lemma_years_ordered(y2 + 1, y1);
    } else if m1 < m2 {
        lemma_months_ordered(y1, m1, m2);
    } else if m2 < m1 {
        lemma_months_ordered(y1, m2, m1);
    }
}

proof fn lemma_split_seconds(d1: int, t1: int, d2: int, t2: int)
    requires
        0 <= t1 < 86400,
        0 <= t2 < 86400,
        d1 * 86400 + t1 == d2 * 86400 + t2,
    ensures
        d1 == d2 && t1 == t2,
{
    if d1 < d2 {
        assert(d1 * 86400 + 86400 <= d2 * 86400) by (nonlinear_arith)
            requires
                d1 < d2,
        ;
    } else if d2 < d1 {
        assert(d2 * 86400 + 86400 <= d1 * 86400) by (nonlinear_arith)
            requires
                d2 < d1,
        ;
    }
}

/// Law: distinct wall-clock readings are distinct instants. Two valid
/// readings the same number of seconds after the Unix epoch (on the same
/// clock) are the same reading.
pub proof fn law_readings_are_distinct_instants(u: CivilDateTime, w: CivilDateTime)
    requires
        is_valid_civil(u),
        is_valid_civil(w),
        civil_seconds(u) == civil_seconds(w),
    ensures
        u == w,
{
    let du = days_from_civil(u.year as int, u.month as int, u.day as int);
    let dw = days_from_civil(w.year as int, w.month as int, w.day as int);
    let tu = u.hour * 3600 + u.minute * 60 + u.second;
    let tw = w.hour * 3600 + w.minute * 60 + w.second;
    lemma_split_seconds(du, tu, dw, tw);
    lemma_days_injective(
        u.year as int,
        u.month as int,
        u.day as int,
        w.year as int,
        w.month as int,
        w.day as int,
    );
}

/// `u` comes before `w` field by field: by year, then month, day, hour,
/// minute and second.
pub open spec fn civil_before(u: CivilDateTime, w: CivilDateTime) -> bool {
    ||| u.year < w.year
    ||| u.year == w.year && u.month < w.month
    ||| u.year == w.year && u.month == w.month && u.day < w.day
    ||| u.year == w.year && u.month == w.month && u.day == w.day && u.hour < w.hour
    ||| u.year == w.year && u.month == w.month && u.day == w.day && u.hour == w.hour && u.minute
        < w.minute
    ||| u.year == w.year && u.month == w.month && u.day == w.day && u.hour == w.hour && u.minute
        == w.minute && u.second < w.second
}

/// Law: a valid reading that comes before another field by field is the
/// earlier instant (on the same clock).
pub proof fn law_earlier_reading_is_earlier_instant(u: CivilDateTime, w: CivilDateTime)
    requires
        is_valid_civil(u),
        is_valid_civil(w),
        civil_before(u, w),
    ensures
        civil_seconds(u) < civil_seconds(w),
{
    let du = days_from_civil(u.year as int, u.month as int, u.day as int);
    let dw = days_from_civil(w.year as int, w.month as int, w.day as int);
    let tu = u.hour * 3600 + u.minute * 60 + u.second;
    let tw = w.hour * 3600 + w.minute * 60 + w.second;
    lemma_day_in_year(u.year as int, u.month as int, u.day as int);
    lemma_day_in_year(w.year as int, w.month as int, w.day as int);
    if u.year < w.year {
        lemma_years_ordered(u.year + 1, w.year as int);
    } else if u.year == w.year && u.month < w.month {
        lemma_months_ordered(u.year as int, u.month as int, w.month as int);
    }
    if du < dw {
        assert(du * 86400 + 86400 <= dw * 86400) by (nonlinear_arith)
            requires
                du < dw,
        ;
    } else {
        assert(du == dw);
    }
}

/// Law: the calendar is the Gregorian one. A year is a leap year when it
/// divides by 4, except the centuries that do not divide by 400; January,
/// March, May, July, August, October and December have 31 days, April,
/// June, September and November 30, February 28 or, in a leap year, 29; and
/// the months start 0, 31, 59, 90, 120, 151, 181, 212, 243, 273, 304 and 334
/// days into the year, one day later from March on in a leap year.
pub proof fn law_gregorian_calendar(y: int)
    ensures
        is_leap_year(y) <==> (y % 4 == 0 && (y % 100 != 0 || y % 400 == 0)),
        days_in_month(y, 1) == 31,
        days_in_month(y, 2) == (if y % 4 == 0 && (y % 100 != 0 || y % 400 == 0) {
            29int
        } else {
            28int
        }),
        days_in_month(y, 3) == 31,
        days_in_month(y, 4) == 30,
        days_in_month(y, 5) == 31,
        days_in_month(y, 6) == 30,
        days_in_month(y, 7) == 31,
        days_in_month(y, 8) == 31,
        days_in_month(y, 9) == 30,
        days_in_month(y, 10) == 31,
        days_in_month(y, 11) == 30,
        days_in_month(y, 12) == 31,
        ({
            let leap: int = if y % 4 == 0 && (y % 100 != 0 || y % 400 == 0) {
                1
            } else {
                0
            };
            &&& days_before_month(y, 1) == 0
            &&& days_before_month(y, 2) == 31
            &&& days_before_month(y, 3) == 59 + leap
            &&& days_before_month(y, 4) == 90 + leap
            &&& days_before_month(y, 5) == 120 + leap
            &&& days_before_month(y, 6) == 151 + leap
            &&& days_before_month(y, 7) == 181 + leap
            &&& days_before_month(y, 8) == 212 + leap
            &&& days_before_month(y, 9) == 243 + leap
            &&& days_before_month(y, 10) == 273 + leap
            &&& days_before_month(y, 11) == 304 + leap
            &&& days_before_month(y, 12) == 334 + leap
        }),
{
}

/// Law: the seconds of a wall-clock reading count from 1970-01-01T00:00:00.
/// That reading is second 0; a year has 365 days, 366 in a leap year; a day
/// has 86400 seconds, and within it a reading lies `hour * 3600 + minute * 60
/// + second` seconds after midnight.
pub proof fn law_seconds_count_from_1970(c: CivilDateTime, y: int)
    ensures
        civil_seconds(CivilDateTime { year: 1970, month: 1, day: 1, hour: 0, minute: 0, second: 0 })
            == 0,
        days_before_year(y + 1) - days_before_year(y) == (if y % 4 == 0 && (y % 100 != 0 || y % 400
            == 0) {
            366int
        } else {
            365int
        }),
        days_from_civil(y, 1, 1) == days_before_year(y),
        civil_seconds(c) == (days_before_year(c.year as int) + days_before_month(
            c.year as int,
            c.month as int,
        ) + c.day - 1) * 86400 + c.hour * 3600 + c.minute * 60 + c.second,
{
    lemma_year_length(y);
    assert(leap_count(1970) == 477);
}

} // verus!
