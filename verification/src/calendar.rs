use vstd::prelude::*;
use chrono::Datelike;

verus! {

/// Smallest year a `chrono::NaiveDate` can hold.
pub const MIN_YEAR: i32 = -262143;

/// Largest year a `chrono::NaiveDate` can hold.
pub const MAX_YEAR: i32 = 262142;

/// A year is a leap year iff it is divisible by 400, or divisible by 4
/// and not by 100.
pub open spec fn spec_is_leap_year(year: int) -> bool {
    year % 400 == 0 || (year % 4 == 0 && year % 100 != 0)
}

/// Leap-year test over the Gregorian divisibility rule.
pub fn is_leap_year(year: i32) -> (r: bool)
    ensures
        r == spec_is_leap_year(year as int),
{
    year % 400 == 0 || (year % 4 == 0 && year % 100 != 0)
}

/// Number of days in a month: 31 for January, March, May, July, August,
/// October and December; 30 for April, June, September and November; 29
/// for February in a leap year and 28 otherwise.
pub open spec fn spec_days_in_month(month: int, leap: bool) -> int {
    if month == 1 || month == 3 || month == 5 || month == 7 || month == 8 || month == 10 || month
        == 12 {
        31
    } else if month == 4 || month == 6 || month == 9 || month == 11 {
        30
    } else if leap {
        29
    } else {
        28
    }
}

/// The day is within the month's bound.
pub open spec fn day_ok(month: int, day: int, leap: bool) -> bool {
    1 <= day <= spec_days_in_month(month, leap)
}

/// Days of the year before the first of `month`.
pub open spec fn days_before_month(month: int, leap: bool) -> int {
    let base: int = if month == 1 {
        0
    } else if month == 2 {
        31
    } else if month == 3 {
        59
    } else if month == 4 {
        90
    } else if month == 5 {
        120
    } else if month == 6 {
        151
    } else if month == 7 {
        181
    } else if month == 8 {
        212
    } else if month == 9 {
        243
    } else if month == 10 {
        273
    } else if month == 11 {
        304
    } else {
        334
    };
    if month >= 3 && leap {
        base + 1
    } else {
        base
    }
}

/// Day of the year, counted from 1.
pub open spec fn spec_ordinal(year: int, month: int, day: int) -> int {
    days_before_month(month, spec_is_leap_year(year)) + day
}

/// Proleptic Gregorian day count with January 1 of year 1 as day 1
/// (so dates before that year get a count of zero or below).
pub open spec fn spec_day_number(year: int, month: int, day: int) -> int {
    let y = year - 1;
    365 * y + y / 4 - y / 100 + y / 400 + spec_ordinal(year, month, day)
}

/// The day count of every supported date is small enough that day counts
/// can be subtracted without overflow.
pub proof fn lemma_day_number_bounds(year: int, month: int, day: int)
    requires
        MIN_YEAR as int <= year <= MAX_YEAR as int,
        1 <= month <= 12,
        1 <= day <= 31,
    ensures
        -100_000_000 <= spec_day_number(year, month, day) <= 100_000_000,
{
    let y = year - 1;
    vstd::arithmetic::div_mod::lemma_div_is_ordered(-262144, y, 4);
    vstd::arithmetic::div_mod::lemma_div_is_ordered(y, 262141, 4);
    vstd::arithmetic::div_mod::lemma_div_is_ordered(-262144, y, 100);
    vstd::arithmetic::div_mod::lemma_div_is_ordered(y, 262141, 100);
    vstd::arithmetic::div_mod::lemma_div_is_ordered(-262144, y, 400);
    vstd::arithmetic::div_mod::lemma_div_is_ordered(y, 262141, 400);
}

/// Relies on `chrono::NaiveDate::from_ymd_opt`, which returns a date for
/// every valid (year, month, day) triple within chrono's year range, and
/// on `chrono::Datelike::num_days_from_ce`, which counts the days of the
/// proleptic Gregorian calendar with January 1 of year 1 as day 1.
#[verifier::external_body]
pub(crate) fn chrono_day_number(year: i32, month: u32, day: u32) -> (r: i64)
    requires
        MIN_YEAR as int <= year as int <= MAX_YEAR as int,
        1 <= month as int <= 12,
        day_ok(month as int, day as int, spec_is_leap_year(year as int)),
    ensures
        r == spec_day_number(year as int, month as int, day as int),
{
    chrono::NaiveDate::from_ymd_opt(year, month, day).unwrap().num_days_from_ce() as i64
}

/// Relies on `chrono::NaiveDate::from_ymd_opt` (as above), on
/// `chrono::Datelike::weekday`, which returns the Gregorian day of the
/// week (January 1 of year 1 was a Monday), and on
/// `chrono::Weekday::num_days_from_monday`, which numbers the weekdays
/// from Monday as 0 through Sunday as 6.
#[verifier::external_body]
pub(crate) fn chrono_weekday(year: i32, month: u32, day: u32) -> (r: u32)
    requires
        MIN_YEAR as int <= year as int <= MAX_YEAR as int,
        1 <= month as int <= 12,
        day_ok(month as int, day as int, spec_is_leap_year(year as int)),
    ensures
        r < 7,
        r as int == (spec_day_number(year as int, month as int, day as int) - 1) % 7,
{
    chrono::NaiveDate::from_ymd_opt(year, month, day).unwrap().weekday().num_days_from_monday()
}

} // verus!
