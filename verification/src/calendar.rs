//! The civil calendar as far as snapshot names need it: leap years, the length
//! of each month, and which year-month-day triples name a day that exists.

use vstd::prelude::*;

verus! {

/// The last year that fits the four digits a snapshot name gives to it.
pub const MAX_YEAR: u16 = 9999;

/// Whether `year` is a leap year of the proleptic Gregorian calendar.
pub open spec fn leap_year(year: int) -> bool {
    year % 4 == 0 && (year % 100 != 0 || year % 400 == 0)
}

/// The number of days of `month` (1 to 12) in `year`.
pub open spec fn month_days(year: int, month: int) -> int {
    if month == 2 {
        if leap_year(year) {
            29
        } else {
            28
        }
    } else if month == 4 || month == 6 || month == 9 || month == 11 {
        30
    } else {
        31
    }
}

/// Whether the triple names an existing day of a year from 0 to 9999.
pub open spec fn valid_date(year: int, month: int, day: int) -> bool {
    &&& 0 <= year <= MAX_YEAR
    &&& 1 <= month <= 12
    &&& 1 <= day <= month_days(year, month)
}

/// Whether the triple is a time of day at second resolution, leap seconds left out.
pub open spec fn valid_time(hour: int, minute: int, second: int) -> bool {
    &&& 0 <= hour <= 23
    &&& 0 <= minute <= 59
    &&& 0 <= second <= 59
}

pub fn is_leap_year(year: u16) -> (leap: bool)
    ensures
        leap == leap_year(year as int),
{
    year % 4 == 0 && (year % 100 != 0 || year % 400 == 0)
}

pub fn days_in_month(year: u16, month: u8) -> (days: u8)
    ensures
        days == month_days(year as int, month as int),
        28 <= days <= 31,
{
    if month == 2 {
        if is_leap_year(year) {
            29
        } else {
            28
        }
    } else if month == 4 || month == 6 || month == 9 || month == 11 {
        30
    } else {
        31
    }
}

pub fn is_valid_date(year: u16, month: u8, day: u8) -> (valid: bool)
    ensures
        valid == valid_date(year as int, month as int, day as int),
{
    year <= MAX_YEAR && 1 <= month && month <= 12 && 1 <= day && day <= days_in_month(year, month)
}

pub fn is_valid_time(hour: u8, minute: u8, second: u8) -> (valid: bool)
    ensures
        valid == valid_time(hour as int, minute as int, second as int),
{
    hour <= 23 && minute <= 59 && second <= 59
}

} // verus!
