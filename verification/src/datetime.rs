//! A calendar instant in UTC, held as plain fields.
//!
//! Log entries and confirmation-service statuses carry a timestamp; the
//! library keeps it as year, month, day, hour, minute and second so that the
//! logic over it can be stated and checked directly.  Callers that need a
//! rich time type convert at the boundary.

use vstd::prelude::*;

verus! {

/// A UTC calendar instant.
#[derive(Debug, Clone, Copy, PartialEq, Eq, Structural)]
pub struct UtcDateTime {
    pub year: i32,
    pub month: u8,
    pub day: u8,
    pub hour: u8,
    pub minute: u8,
    pub second: u8,
}

/// Proleptic-Gregorian leap year.
pub open spec fn spec_is_leap_year(y: int) -> bool {
    y % 4 == 0 && (y % 100 != 0 || y % 400 == 0)
}

/// Days in a month of the proleptic Gregorian calendar.
pub open spec fn spec_days_in_month(y: int, m: int) -> int {
    if m == 1 || m == 3 || m == 5 || m == 7 || m == 8 || m == 10 || m == 12 {
        31
    } else if m == 4 || m == 6 || m == 9 || m == 11 {
        30
    } else if spec_is_leap_year(y) {
        29
    } else {
        28
    }
}

/// A calendar-valid instant: real month, real day of that month, and a time
/// of day within range.
pub open spec fn spec_valid_datetime(t: UtcDateTime) -> bool {
    &&& 1 <= t.month <= 12
    &&& 1 <= t.day <= spec_days_in_month(t.year as int, t.month as int)
    &&& t.hour <= 23
    &&& t.minute <= 59
    &&& t.second <= 59
}

/// Days in a month, executable form.
pub fn days_in_month(y: i32, m: u8) -> (r: u8)
    requires
        y >= 0,
    ensures
        r as int == spec_days_in_month(y as int, m as int),
{
    if m == 1 || m == 3 || m == 5 || m == 7 || m == 8 || m == 10 || m == 12 {
        31
    } else if m == 4 || m == 6 || m == 9 || m == 11 {
        30
    } else if y % 4 == 0 && (y % 100 != 0 || y % 400 == 0) {
        29
    } else {
        28
    }
}

} // verus!
