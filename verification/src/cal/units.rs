//! The primitive calendar units: years and months, with the leap-year rule
//! and the table of month lengths that the rest of the crate builds on.

use vstd::prelude::*;

verus! {

/// The Gregorian leap-year rule: divisible by 4, except centuries
/// not divisible by 400.
pub open spec fn spec_is_leap_year(y: int) -> bool {
    y % 4 == 0 && (y % 100 != 0 || y % 400 == 0)
}

/// A calendar year in the proleptic Gregorian calendar.
#[derive(PartialEq, Eq, PartialOrd, Ord, Hash, Debug, Copy, Clone, Structural)]
pub struct Year(pub i64);

impl Year {
    /// Whether this year has 366 days, with a February 29 among them.
    pub fn is_leap_year(&self) -> (r: bool)
        ensures
            r == spec_is_leap_year(self.0 as int),
    {
        self.0 % 4 == 0 && (self.0 % 100 != 0 || self.0 % 400 == 0)
    }
}

/// One of the twelve months of the Gregorian calendar.
#[derive(PartialEq, Eq, PartialOrd, Ord, Hash, Debug, Copy, Clone, Structural)]
pub enum Month {
    January,
    February,
    March,
    April,
    May,
    June,
    July,
    August,
    September,
    October,
    November,
    December,
}

/// The fixed Gregorian table of month lengths; only February reads
/// the leap flag.
pub open spec fn spec_days_in_month(m: Month, is_leap_year: bool) -> int {
    match m {
        Month::January => 31,
        Month::February => if is_leap_year { 29 } else { 28 },
        Month::March => 31,
        Month::April => 30,
        Month::May => 31,
        Month::June => 30,
        Month::July => 31,
        Month::August => 31,
        Month::September => 30,
        Month::October => 31,
        Month::November => 30,
        Month::December => 31,
    }
}

/// The 1-based number of a month, January being 1.
pub open spec fn spec_month_number(m: Month) -> int {
    match m {
        Month::January => 1,
        Month::February => 2,
        Month::March => 3,
        Month::April => 4,
        Month::May => 5,
        Month::June => 6,
        Month::July => 7,
        Month::August => 8,
        Month::September => 9,
        Month::October => 10,
        Month::November => 11,
        Month::December => 12,
    }
}

/// The month that a 1-based month number names, if it names one.
pub open spec fn spec_month_from_one(n: int) -> Option<Month> {
    if n == 1 {
        Some(Month::January)
    } else if n == 2 {
        Some(Month::February)
    } else if n == 3 {
        Some(Month::March)
    } else if n == 4 {
        Some(Month::April)
    } else if n == 5 {
        Some(Month::May)
    } else if n == 6 {
        Some(Month::June)
    } else if n == 7 {
        Some(Month::July)
    } else if n == 8 {
        Some(Month::August)
    } else if n == 9 {
        Some(Month::September)
    } else if n == 10 {
        Some(Month::October)
    } else if n == 11 {
        Some(Month::November)
    } else if n == 12 {
        Some(Month::December)
    } else {
        None
    }
}

impl Month {
    /// The number of days in this month, resolving February through
    /// the given leap-year status.
    pub fn days_in_month(self, is_leap_year: bool) -> (r: i8)
        ensures
            r as int == spec_days_in_month(self, is_leap_year),
    {
        match self {
            Month::January => 31,
            Month::February => if is_leap_year { 29 } else { 28 },
            Month::March => 31,
            Month::April => 30,
            Month::May => 31,
            Month::June => 30,
            Month::July => 31,
            Month::August => 31,
            Month::September => 30,
            Month::October => 31,
            Month::November => 30,
            Month::December => 31,
        }
    }

    /// The month with the given 1-based number, or `None` when the number
    /// is outside 1 through 12: an out-of-range number is rejected,
    /// never wrapped or clamped.
    pub fn from_one(n: i8) -> (r: Option<Month>)
        ensures
            r == spec_month_from_one(n as int),
    {
        if n == 1 {
            Some(Month::January)
        } else if n == 2 {
            Some(Month::February)
        } else if n == 3 {
            Some(Month::March)
        } else if n == 4 {
            Some(Month::April)
        } else if n == 5 {
            Some(Month::May)
        } else if n == 6 {
            Some(Month::June)
        } else if n == 7 {
            Some(Month::July)
        } else if n == 8 {
            Some(Month::August)
        } else if n == 9 {
            Some(Month::September)
        } else if n == 10 {
            Some(Month::October)
        } else if n == 11 {
            Some(Month::November)
        } else if n == 12 {
            Some(Month::December)
        } else {
            None
        }
    }
}

/// Numbering months 1 through 12 and reading a number back are inverse
/// to one another.
pub proof fn lemma_month_number_from_one(m: Month)
    ensures
        1 <= spec_month_number(m) <= 12,
        spec_month_from_one(spec_month_number(m)) == Some(m),
{
}

/// Every month length stands in the fixed Gregorian table
/// {31, 28/29, 31, 30, 31, 30, 31, 31, 30, 31, 30, 31}, and only
/// February is sensitive to the leap flag.
pub proof fn lemma_days_in_month_table(m: Month, is_leap_year: bool)
    ensures
        m != Month::February ==> spec_days_in_month(m, is_leap_year) == spec_days_in_month(
            m,
            !is_leap_year,
        ),
        spec_days_in_month(m, is_leap_year) == (match m {
            Month::January => 31int,
            Month::February => if is_leap_year {
                29int
            } else {
                28int
            },
            Month::March => 31int,
            Month::April => 30int,
            Month::May => 31int,
            Month::June => 30int,
            Month::July => 31int,
            Month::August => 31int,
            Month::September => 30int,
            Month::October => 31int,
            Month::November => 30int,
            Month::December => 31int,
        }),
        28 <= spec_days_in_month(m, is_leap_year) <= 31,
{
}

} // verus!
