//! Calendar days and the periods that facts cover.

use vstd::prelude::*;
use crate::model::CalendarDate;

verus! {

/// The first year that a calendar day can have.
pub const MIN_YEAR: i32 = -262143;

/// The last year that a calendar day can have.
pub const MAX_YEAR: i32 = 262142;

/// Whether `year` is a leap year of the proleptic Gregorian calendar.
pub open spec fn is_leap_year(year: int) -> bool {
    year % 4 == 0 && (year % 100 != 0 || year % 400 == 0)
}

/// The number of days of a month.
pub open spec fn days_in_month(year: int, month: int) -> int {
    if month == 2 {
        if is_leap_year(year) {
            29
        } else {
            28
        }
    } else if month == 4 || month == 6 || month == 9 || month == 11 {
        30
    } else {
        31
    }
}

/// Whether the calendar has the day `year`-`month`-`day`.
pub open spec fn is_calendar_day(year: int, month: int, day: int) -> bool {
    &&& MIN_YEAR <= year <= MAX_YEAR
    &&& 1 <= month <= 12
    &&& 1 <= day <= days_in_month(year, month)
}

/// Asks the calendar whether a day exists.
///
/// Trusted: `chrono::NaiveDate::from_ymd_opt` returns a date exactly for
/// the days of the proleptic Gregorian calendar whose year lies between
/// `MIN_YEAR` and `MAX_YEAR`.
#[verifier::external_body]
pub(crate) fn calendar_day_exists(year: i32, month: u32, day: u32) -> (b: bool)
    ensures
        b == is_calendar_day(year as int, month as int, day as int),
{
    chrono::NaiveDate::from_ymd_opt(year, month, day).is_some()
}

/// The first and the last day of `year`, where the calendar has them.
pub open spec fn year_period_of(year: i32) -> Option<(CalendarDate, CalendarDate)> {
    if MIN_YEAR <= year <= MAX_YEAR {
        Some(
            (
                CalendarDate { year, month: 1, day: 1 },
                CalendarDate { year, month: 12, day: 31 },
            ),
        )
    } else {
        None
    }
}

/// The period that a calendar year covers: January 1 to December 31.
pub fn year_period(year: i32) -> (r: Option<(CalendarDate, CalendarDate)>)
    ensures
        r == year_period_of(year),
{
    if calendar_day_exists(year, 1, 1) && calendar_day_exists(year, 12, 31) {
        Some((CalendarDate { year, month: 1, day: 1 }, CalendarDate { year, month: 12, day: 31 }))
    } else {
        None
    }
}

} // verus!
