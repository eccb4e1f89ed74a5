//! Calendar dates as plain values.

use chrono::Datelike;
use vstd::prelude::*;

verus! {

/// Whether `year` is a leap year in the proleptic Gregorian calendar.
pub open spec fn is_leap_year(year: int) -> bool {
    (year % 4 == 0 && year % 100 != 0) || year % 400 == 0
}

/// Number of days in `month` (1 to 12) of `year`.
pub open spec fn days_in_month(year: int, month: int) -> int {
    if month == 2 {
        if is_leap_year(year) { 29 } else { 28 }
    } else if month == 4 || month == 6 || month == 9 || month == 11 {
        30
    } else {
        31
    }
}

/// Whether (year, month, day) names a day of the proleptic Gregorian calendar.
pub open spec fn is_valid_ymd(year: int, month: int, day: int) -> bool {
    1 <= month <= 12 && 1 <= day <= days_in_month(year, month)
}

/// The earliest year that a date can have.
pub const MIN_YEAR: i32 = -262143;

/// The latest year that a date can have.
pub const MAX_YEAR: i32 = 262142;

/// A calendar date with no time of day.
#[derive(Clone, Copy, Debug, PartialEq, Eq, Structural)]
pub struct CalendarDate {
    pub year: i32,
    pub month: u32,
    pub day: u32,
}

impl CalendarDate {
    /// A well-formed date names an existing day of a year in range.
    pub open spec fn wf(self) -> bool {
        MIN_YEAR <= self.year <= MAX_YEAR && is_valid_ymd(self.year as int, self.month as int, self.day as int)
    }

    /// The date for (year, month, day), or `None` where no such day exists
    /// or the year is out of range.
    pub fn from_ymd(year: i32, month: u32, day: u32) -> (r: Option<CalendarDate>)
        ensures
            r is Some <==> (MIN_YEAR <= year <= MAX_YEAR && is_valid_ymd(year as int, month as int, day as int)),
            r matches Some(d) ==> d == (CalendarDate { year, month, day }) && d.wf(),
    {
        checked_ymd(year, month, day)
    }
}

/// Relies on chrono's `NaiveDate::from_ymd_opt`, which accepts exactly the days
/// of the proleptic Gregorian calendar in years `MIN_YEAR` to `MAX_YEAR`, and
/// on `Datelike::{year, month, day}` handing back the same components.
#[verifier::external_body]
fn checked_ymd(year: i32, month: u32, day: u32) -> (r: Option<CalendarDate>)
    ensures
        r is Some <==> (MIN_YEAR <= year <= MAX_YEAR && is_valid_ymd(year as int, month as int, day as int)),
        r matches Some(d) ==> d == (CalendarDate { year, month, day }),
{
    match chrono::NaiveDate::from_ymd_opt(year, month, day) {
        Some(d) => Some(CalendarDate { year: d.year(), month: d.month(), day: d.day() }),
        None => None,
    }
}

} // verus!
