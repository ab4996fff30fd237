//! Calendar dates as plain values.
//!
//! A date is held as year, month and day numbers so that validity and
//! ordering are the library's own verified logic; only the rendering of a
//! date through a strftime-style pattern is delegated to the `chrono` crate.
use core::fmt::Write;
use vstd::prelude::*;

verus! {

/// A calendar date. Use [`Date::from_ymd_opt`] to build a valid one.
#[derive(Clone, Copy, Debug, PartialEq, Eq, Structural)]
pub struct Date {
    pub year: i32,
    pub month: u32,
    pub day: u32,
}

/// Gregorian leap years, for years from 1 onward.
pub open spec fn is_leap_year(y: int) -> bool {
    (y % 4 == 0 && y % 100 != 0) || y % 400 == 0
}

/// Days in a month of the Gregorian calendar.
pub open spec fn days_in_month(y: int, m: int) -> int {
    if m == 2 {
        if is_leap_year(y) {
            29
        } else {
            28
        }
    } else if m == 4 || m == 6 || m == 9 || m == 11 {
        30
    } else {
        31
    }
}

/// A valid calendar date within the range the library supports.
pub open spec fn valid_ymd(y: int, m: int, d: int) -> bool {
    1 <= y <= 9999 && 1 <= m <= 12 && 1 <= d <= days_in_month(y, m)
}

/// Strict ordering of dates: lexicographic on year, month, day.
pub open spec fn date_lt(a: Date, b: Date) -> bool {
    a.year < b.year || (a.year == b.year && (a.month < b.month || (a.month == b.month && a.day
        < b.day)))
}

impl Date {
    /// Builds a date, or nothing when the fields are not a valid calendar
    /// date between the years 1 and 9999.
    pub fn from_ymd_opt(year: i32, month: u32, day: u32) -> (r: Option<Date>)
        ensures
            match r {
                Some(d) => valid_ymd(year as int, month as int, day as int) && d == (Date {
                    year,
                    month,
                    day,
                }),
                None => !valid_ymd(year as int, month as int, day as int),
            },
    {
        if year < 1 || year > 9999 || month < 1 || month > 12 || day < 1 {
            return None;
        }
        let leap = (year % 4 == 0 && year % 100 != 0) || year % 400 == 0;
        let max_day: u32 = if month == 2 {
            if leap {
                29
            } else {
                28
            }
        } else if month == 4 || month == 6 || month == 9 || month == 11 {
            30
        } else {
            31
        };
        if day > max_day {
            None
        } else {
            Some(Date { year, month, day })
        }
    }

    /// Strictly earlier than the other date.
    pub fn before(&self, other: &Date) -> (r: bool)
        ensures
            r == date_lt(*self, *other),
    {
        self.year < other.year || (self.year == other.year && (self.month < other.month || (
        self.month == other.month && self.day < other.day)))
    }
}

/// What chrono's strftime rendering of a date under a pattern returns: a
/// function of the date fields and the pattern alone.
pub uninterp spec fn strftime(y: int, m: int, d: int, pattern: Seq<char>) -> Seq<char>;

/// Relies on chrono's `NaiveDate::from_ymd_opt` and `NaiveDate::format`:
/// the rendered text depends on the date fields and the pattern alone. An
/// out-of-range date or an invalid pattern yields text chrono could not
/// render (left empty here); `write!` is used so that a bad pattern returns
/// an error instead of panicking.
#[verifier::external_body]
pub fn strftime_exec(y: i32, m: u32, d: u32, pattern: &str) -> (r: String)
    ensures
        r@ == strftime(y as int, m as int, d as int, pattern@),
{
    let mut out = String::new();
    if let Some(date) = chrono::NaiveDate::from_ymd_opt(y, m, d) {
        if write!(out, "{}", date.format(pattern)).is_err() {
            out.clear();
        }
    }
    out
}

} // verus!
