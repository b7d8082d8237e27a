//! Validated local calendar values: dates, times of day, and their pairing.
//!
//! A `LocalDate` or `LocalTime` can only be obtained through a constructor
//! that checks the calendar rules, so holding one is holding a value that
//! exists in the calendar.

use crate::cal::units::{spec_days_in_month, spec_is_leap_year, Month, Year};
use vstd::prelude::*;

verus! {

/// The one failure of the calendar constructors: the requested value does
/// not exist in the calendar.
#[derive(PartialEq, Eq, Debug, Copy, Clone, Structural)]
pub enum Error {
    OutOfRange,
}

/// Whether (year, month, day) names an existing calendar date: the day
/// lies between 1 and the month's length in that year.
pub open spec fn spec_date_valid(y: int, m: Month, d: int) -> bool {
    1 <= d <= spec_days_in_month(m, spec_is_leap_year(y))
}

/// Whether (hour, minute, second, millisecond) is a canonical time of day.
pub open spec fn spec_time_valid(h: int, m: int, s: int, ms: int) -> bool {
    0 <= h < 24 && 0 <= m < 60 && 0 <= s < 60 && 0 <= ms < 1000
}

/// A validated calendar date.
#[derive(PartialEq, Eq, PartialOrd, Ord, Debug, Copy, Clone, Structural)]
pub struct LocalDate {
    pub year: i64,
    pub month: Month,
    pub day: i8,
}

/// A validated time of day.
#[derive(PartialEq, Eq, PartialOrd, Ord, Debug, Copy, Clone, Structural)]
pub struct LocalTime {
    pub hour: i8,
    pub minute: i8,
    pub second: i8,
    pub millisecond: i16,
}

/// A date paired with a time of day.
#[derive(PartialEq, Eq, PartialOrd, Ord, Debug, Copy, Clone, Structural)]
pub struct LocalDateTime {
    pub date: LocalDate,
    pub time: LocalTime,
}

/// Day count of a year: 366 in a leap year, else 365.
pub open spec fn spec_days_in_year(y: int) -> int {
    if spec_is_leap_year(y) {
        366
    } else {
        365
    }
}

/// Weekday bookkeeping for year y: the number of days of the years before
/// it, counted from a fixed Monday and shifted forward by 400 years (a
/// whole number of weeks) so that the count stays nonnegative over the
/// four-digit years the text grammar can name.
pub open spec fn spec_jan1_index(y: int) -> int {
    let c = y + 399;
    365 * c + c / 4 - c / 100 + c / 400
}

/// ISO weekday (1 = Monday .. 7 = Sunday) of January 1 of year y.
pub open spec fn spec_jan1_weekday(y: int) -> int {
    spec_jan1_index(y) % 7 + 1
}

/// ISO weekday (1 = Monday .. 7 = Sunday) of January 4 of year y, the day
/// that always lies in ISO week 1.
pub open spec fn spec_jan4_weekday(y: int) -> int {
    (spec_jan1_index(y) + 3) % 7 + 1
}

/// Number of ISO weeks in year y: 53 when January 1 falls on a Thursday,
/// or on a Wednesday of a leap year; else 52.
pub open spec fn spec_weeks_in_year(y: int) -> int {
    if spec_jan1_weekday(y) == 4 || (spec_is_leap_year(y) && spec_jan1_weekday(y) == 3) {
        53
    } else {
        52
    }
}

/// The date at the 1-based day `ord` of year y, by the cumulative table
/// of month lengths.
pub open spec fn spec_date_of_yearday(y: int, ord: int) -> LocalDate {
    let f: int = if spec_is_leap_year(y) {
        1
    } else {
        0
    };
    if ord <= 31 {
        LocalDate { year: y as i64, month: Month::January, day: ord as i8 }
    } else if ord <= 59 + f {
        LocalDate { year: y as i64, month: Month::February, day: (ord - 31) as i8 }
    } else if ord <= 90 + f {
        LocalDate { year: y as i64, month: Month::March, day: (ord - 59 - f) as i8 }
    } else if ord <= 120 + f {
        LocalDate { year: y as i64, month: Month::April, day: (ord - 90 - f) as i8 }
    } else if ord <= 151 + f {
        LocalDate { year: y as i64, month: Month::May, day: (ord - 120 - f) as i8 }
    } else if ord <= 181 + f {
        LocalDate { year: y as i64, month: Month::June, day: (ord - 151 - f) as i8 }
    } else if ord <= 212 + f {
        LocalDate { year: y as i64, month: Month::July, day: (ord - 181 - f) as i8 }
    } else if ord <= 243 + f {
        LocalDate { year: y as i64, month: Month::August, day: (ord - 212 - f) as i8 }
    } else if ord <= 273 + f {
        LocalDate { year: y as i64, month: Month::September, day: (ord - 243 - f) as i8 }
    } else if ord <= 304 + f {
        LocalDate { year: y as i64, month: Month::October, day: (ord - 273 - f) as i8 }
    } else if ord <= 334 + f {
        LocalDate { year: y as i64, month: Month::November, day: (ord - 304 - f) as i8 }
    } else {
        LocalDate { year: y as i64, month: Month::December, day: (ord - 334 - f) as i8 }
    }
}

/// What the ISO week-date conversion returns: the date of weekday `wd`
/// (1 = Monday .. 7 = Sunday) in ISO week `w` of year `y`, or `None` when
/// the week or weekday is out of range for that year, or the year is
/// outside the four-digit range the conversion supports.  The first and
/// last ISO weeks may reach into the neighbouring calendar year.
pub open spec fn spec_from_weekday(y: int, w: int, wd: int) -> Option<LocalDate> {
    if !(0 <= y <= 9999) {
        None
    } else if !(1 <= wd <= 7) {
        None
    } else if !(1 <= w <= spec_weeks_in_year(y)) {
        None
    } else {
        let ord = 7 * w + wd - spec_jan4_weekday(y) - 3;
        if ord < 1 {
            Some(spec_date_of_yearday(y - 1, ord + spec_days_in_year(y - 1)))
        } else if ord > spec_days_in_year(y) {
            Some(spec_date_of_yearday(y + 1, ord - spec_days_in_year(y)))
        } else {
            Some(spec_date_of_yearday(y, ord))
        }
    }
}

impl LocalDate {
    /// Whether the fields of this date name an existing calendar date.
    pub open spec fn spec_valid(self) -> bool {
        spec_date_valid(self.year as int, self.month, self.day as int)
    }

    /// The date with the given fields, or `None` exactly when the day is
    /// out of range for that month and year.
    pub fn new(year: i64, month: Month, day: i8) -> (r: Option<LocalDate>)
        ensures
            r == (if spec_date_valid(year as int, month, day as int) {
                Some(LocalDate { year, month, day })
            } else {
                None::<LocalDate>
            }),
    {
        let leap = Year(year).is_leap_year();
        if 1 <= day && day <= month.days_in_month(leap) {
            Some(LocalDate { year, month, day })
        } else {
            None
        }
    }

    /// As `new`, but reporting the failure as an error value.
    pub fn ymd(year: i64, month: Month, day: i8) -> (r: Result<LocalDate, Error>)
        ensures
            r == (if spec_date_valid(year as int, month, day as int) {
                Ok::<LocalDate, Error>(LocalDate { year, month, day })
            } else {
                Err::<LocalDate, Error>(Error::OutOfRange)
            }),
    {
        match Self::new(year, month, day) {
            Some(d) => Ok(d),
            None => Err(Error::OutOfRange),
        }
    }

    /// The date of the given ISO weekday in the given ISO week of `year`;
    /// `None` exactly when `spec_from_weekday` says so, and always a valid
    /// date otherwise.
    pub fn from_weekday(year: i64, week: i8, weekday: i8) -> (r: Option<LocalDate>)
        ensures
            r == spec_from_weekday(year as int, week as int, weekday as int),
            r matches Some(d) ==> d.spec_valid(),
    {
        if !(0 <= year && year <= 9999) {
            return None;
        }
        if !(1 <= weekday && weekday <= 7) {
            return None;
        }
        let leap = Year(year).is_leap_year();
        let c: i64 = year + 399;
        let idx: i64 = 365 * c + c / 4 - c / 100 + c / 400;
        let jan1_wd: i64 = idx % 7 + 1;
        let jan4_wd: i64 = (idx + 3) % 7 + 1;
        let wiy: i64 = if jan1_wd == 4 || (leap && jan1_wd == 3) {
            53
        } else {
            52
        };
        if !(1 <= week && week as i64 <= wiy) {
            return None;
        }
        let diy: i64 = if leap {
            366
        } else {
            365
        };
        let ord: i64 = 7 * (week as i64) + (weekday as i64) - jan4_wd - 3;
        if ord < 1 {
            let y2 = year - 1;
            let diy2: i64 = if Year(y2).is_leap_year() {
                366
            } else {
                365
            };
            proof {
                lemma_date_of_yearday_valid(y2, ord + diy2);
            }
            Some(Self::of_yearday(y2, ord + diy2))
        } else if ord > diy {
            proof {
                lemma_date_of_yearday_valid((year + 1) as i64, ord - diy);
            }
            Some(Self::of_yearday(year + 1, ord - diy))
        } else {
            proof {
                lemma_date_of_yearday_valid(year, ord as int);
            }
            Some(Self::of_yearday(year, ord))
        }
    }

    /// The date at the 1-based day `ord` of `year`.
    fn of_yearday(year: i64, ord: i64) -> (r: LocalDate)
        requires
            1 <= ord <= spec_days_in_year(year as int),
            -1 <= year <= 10000,
        ensures
            r == spec_date_of_yearday(year as int, ord as int),
    {
        let f: i64 = if Year(year).is_leap_year() {
            1
        } else {
            0
        };
        if ord <= 31 {
            LocalDate { year, month: Month::January, day: ord as i8 }
        } else if ord <= 59 + f {
            LocalDate { year, month: Month::February, day: (ord - 31) as i8 }
        } else if ord <= 90 + f {
            LocalDate { year, month: Month::March, day: (ord - 59 - f) as i8 }
        } else if ord <= 120 + f {
            LocalDate { year, month: Month::April, day: (ord - 90 - f) as i8 }
        } else if ord <= 151 + f {
            LocalDate { year, month: Month::May, day: (ord - 120 - f) as i8 }
        } else if ord <= 181 + f {
            LocalDate { year, month: Month::June, day: (ord - 151 - f) as i8 }
        } else if ord <= 212 + f {
            LocalDate { year, month: Month::July, day: (ord - 181 - f) as i8 }
        } else if ord <= 243 + f {
            LocalDate { year, month: Month::August, day: (ord - 212 - f) as i8 }
        } else if ord <= 273 + f {
            LocalDate { year, month: Month::September, day: (ord - 243 - f) as i8 }
        } else if ord <= 304 + f {
            LocalDate { year, month: Month::October, day: (ord - 273 - f) as i8 }
        } else if ord <= 334 + f {
            LocalDate { year, month: Month::November, day: (ord - 304 - f) as i8 }
        } else {
            LocalDate { year, month: Month::December, day: (ord - 334 - f) as i8 }
        }
    }
}

/// A day number within a year always names a valid date.
pub proof fn lemma_date_of_yearday_valid(y: i64, ord: int)
    requires
        1 <= ord <= spec_days_in_year(y as int),
    ensures
        spec_date_of_yearday(y as int, ord).spec_valid(),
{
}

/// The week-date conversion only ever returns dates that exist in the
/// calendar.
pub proof fn lemma_from_weekday_valid(y: int, w: int, wd: int)
    ensures
        spec_from_weekday(y, w, wd) matches Some(d) ==> d.spec_valid(),
{
    if spec_from_weekday(y, w, wd) is Some {
        let ord = 7 * w + wd - spec_jan4_weekday(y) - 3;
        if ord < 1 {
            lemma_date_of_yearday_valid((y - 1) as i64, ord + spec_days_in_year(y - 1));
        } else if ord > spec_days_in_year(y) {
            lemma_date_of_yearday_valid((y + 1) as i64, ord - spec_days_in_year(y));
        } else {
            lemma_date_of_yearday_valid(y as i64, ord);
        }
    }
}

impl LocalTime {
    /// Whether the fields of this time are in canonical range.
    pub open spec fn spec_valid(self) -> bool {
        spec_time_valid(self.hour as int, self.minute as int, self.second as int, self.millisecond as int)
    }

    /// The time of day with the given fields and no milliseconds, or
    /// `None` exactly when a field is out of canonical range.
    pub fn hms(hour: i8, minute: i8, second: i8) -> (r: Option<LocalTime>)
        ensures
            r == (if spec_time_valid(hour as int, minute as int, second as int, 0) {
                Some(LocalTime { hour, minute, second, millisecond: 0 })
            } else {
                None::<LocalTime>
            }),
    {
        Self::hms_ms(hour, minute, second, 0)
    }

    /// The time of day with the given fields, or `None` exactly when a
    /// field is out of canonical range.
    pub fn hms_ms(hour: i8, minute: i8, second: i8, millisecond: i16) -> (r: Option<LocalTime>)
        ensures
            r == (if spec_time_valid(hour as int, minute as int, second as int, millisecond as int) {
                Some(LocalTime { hour, minute, second, millisecond })
            } else {
                None::<LocalTime>
            }),
    {
        if 0 <= hour && hour < 24 && 0 <= minute && minute < 60 && 0 <= second && second < 60
            && 0 <= millisecond && millisecond < 1000 {
            Some(LocalTime { hour, minute, second, millisecond })
        } else {
            None
        }
    }
}

impl LocalDateTime {
    /// The pairing of a date with a time of day; nothing is checked here,
    /// both halves are already validated values.
    pub fn from_date_time(date: LocalDate, time: LocalTime) -> (r: LocalDateTime)
        ensures
            r == (LocalDateTime { date, time }),
    {
        LocalDateTime { date, time }
    }
}

} // verus!
