//! What the library takes from the machine's clock and calendar: the local
//! time now, whether a local date-time names one instant in the local time
//! zone, and the number of a day in the calendar's count of days.

use crate::calendar::valid_date;
use crate::time_mark::TimeMark;
use chrono::{Datelike, TimeZone, Timelike};
use vstd::prelude::*;

verus! {

/// How a local date-time maps to instants in the local time zone.
#[derive(Clone, Copy, Debug, PartialEq, Eq, Structural)]
pub enum LocalResolution {
    /// The date-time names exactly one instant.
    Unique,
    /// The clock was set back over this date-time: it names two instants.
    Ambiguous,
    /// The clock was set forward over this date-time, or the time zone could
    /// not be consulted: it names no instant.
    Missing,
}

/// The number of the day `year`-`month`-`day` in the proleptic Gregorian
/// calendar's count of days, in which 1 January of year 1 is day 1; `None`
/// where the calendar has no such day.
pub uninterp spec fn civil_day_number(year: int, month: int, day: int) -> Option<int>;

/// The day number of a mark's date.
pub open spec fn mark_day_number(mark: TimeMark) -> Option<int> {
    civil_day_number(mark.year as int, mark.month as int, mark.day as int)
}

/// Reads `chrono::Local::now` and hands out its year, month, day, hour,
/// minute and second, in this order. Nothing is claimed of the time read but
/// the ranges that `Datelike` and `Timelike` document for these fields.
#[verifier::external_body]
fn local_now() -> (fields: (i32, u32, u32, u32, u32, u32))
    ensures
        1 <= fields.1 <= 12,
        1 <= fields.2 <= 31,
        fields.3 <= 23,
        fields.4 <= 59,
        fields.5 <= 59,
{
    let now = chrono::Local::now();
    (now.year(), now.month(), now.day(), now.hour(), now.minute(), now.second())
}

/// Asks `TimeZone::with_ymd_and_hms` of `chrono::Local` how the local
/// date-time maps to instants, and keeps which of the three answers came.
/// The answer depends on the machine's time zone: nothing is claimed of it.
#[verifier::external_body]
fn resolve_local(year: i32, month: u32, day: u32, hour: u32, minute: u32, second: u32) -> (resolution:
    LocalResolution) {
    match chrono::Local.with_ymd_and_hms(year, month, day, hour, minute, second) {
        chrono::LocalResult::Single(_) => LocalResolution::Unique,
        chrono::LocalResult::Ambiguous(_, _) => LocalResolution::Ambiguous,
        chrono::LocalResult::None => LocalResolution::Missing,
    }
}

/// Makes the date with `chrono::NaiveDate::from_ymd_opt` and counts its days
/// with `Datelike::num_days_from_ce`. The result is named `civil_day_number`;
/// the one thing claimed of it is that every day that exists in a year from
/// 0 to 9999 has a number, as `from_ymd_opt` refuses only days that do not
/// exist and years far outside that range.
#[verifier::external_body]
fn day_number(year: i32, month: u32, day: u32) -> (number: Option<i32>)
    ensures
        match number {
            Some(n) => civil_day_number(year as int, month as int, day as int) == Some(n as int),
            None => civil_day_number(year as int, month as int, day as int) is None,
        },
        valid_date(year as int, month as int, day as int) ==> number is Some,
{
    match chrono::NaiveDate::from_ymd_opt(year, month, day) {
        Some(date) => Some(date.num_days_from_ce()),
        None => None,
    }
}

/// The local time now as a mark; `None` where the clock shows a year outside
/// 0 to 9999.
pub fn current_time_mark() -> (mark: Option<TimeMark>)
    ensures
        mark matches Some(now) ==> now.wf(),
{
    let (year, month, day, hour, minute, second) = local_now();
    TimeMark::new(year, month, day, hour, minute, second)
}

/// How the mark's date-time maps to instants in the local time zone.
pub(crate) fn local_resolution(mark: &TimeMark) -> (resolution: LocalResolution) {
    resolve_local(
        mark.year as i32,
        mark.month as u32,
        mark.day as u32,
        mark.hour as u32,
        mark.minute as u32,
        mark.second as u32,
    )
}

/// The day number of a well-formed mark's date.
pub(crate) fn day_number_of(mark: &TimeMark) -> (number: i32)
    requires
        mark.wf(),
    ensures
        mark_day_number(*mark) == Some(number as int),
{
    match day_number(mark.year as i32, mark.month as u32, mark.day as u32) {
        Some(number) => number,
        None => unreached(),
    }
}

} // verus!
