//! Calendar compounds: a month anchored to a year, and a candidate date
//! whose validity is checked on demand.

use crate::cal::units::{spec_days_in_month, spec_is_leap_year, Month, Year};
use crate::local::{Error, LocalDate};
use vstd::prelude::*;

verus! {

/// A month-year pair.  The pairing matters because February's length
/// depends on the year.
#[derive(PartialEq, Eq, Debug, Copy, Clone, Structural)]
pub struct YearMonth {
    pub year: Year,
    pub month: Month,
}

impl YearMonth {
    /// The number of days in this month, with February resolved through
    /// this year's leap status.
    pub open spec fn spec_day_count(self) -> int {
        spec_days_in_month(self.month, spec_is_leap_year(self.year.0 as int))
    }

    /// Returns the number of days in this month.  This can be definitely
    /// known, as the paired year determines whether it is a leap year, so
    /// there is no chance of being caught out by February.
    pub fn day_count(&self) -> (r: i8)
        ensures
            r as int == self.spec_day_count(),
    {
        self.month.days_in_month(self.year.is_leap_year())
    }

    /// Returns a validated date on the given day of this month, or
    /// `Err(Error::OutOfRange)` exactly when the day is outside this
    /// month's range.
    pub fn day(&self, day: i8) -> (r: Result<LocalDate, Error>)
        ensures
            r == (if 1 <= day as int && day as int <= self.spec_day_count() {
                Ok::<LocalDate, Error>(LocalDate { year: self.year.0, month: self.month, day })
            } else {
                Err::<LocalDate, Error>(Error::OutOfRange)
            }),
    {
        LocalDate::ymd(self.year.0, self.month, day)
    }
}

/// A candidate calendar date, not yet validated: day 31 of April can be
/// written down, and `is_valid` then rejects it.  Ordered lexicographically
/// by (year, month, day) so that candidates can be sorted before their
/// validity is known.
#[derive(PartialEq, Eq, PartialOrd, Ord, Debug, Copy, Clone, Structural)]
pub struct YearMonthDay {
    pub year: Year,
    pub month: Month,
    pub day: i8,
}

impl YearMonthDay {
    /// Returns whether this datestamp is valid: true exactly when the day
    /// lies between 1 and the month's length under the given leap-year
    /// status.  The caller supplies the leap status, so this predicate
    /// stays decoupled from the leap-year rule itself.
    pub fn is_valid(&self, is_leap_year: bool) -> (r: bool)
        ensures
            r == (1 <= self.day as int && self.day as int <= spec_days_in_month(
                self.month,
                is_leap_year,
            )),
    {
        self.day >= 1 && self.day <= self.month.days_in_month(is_leap_year)
    }
}

/// February has 29 days in a leap year and 28 otherwise, and the paired
/// year alone decides which.
pub proof fn lemma_february_day_count(ym: YearMonth)
    requires
        ym.month == Month::February,
    ensures
        ym.spec_day_count() == (if spec_is_leap_year(ym.year.0 as int) {
            29int
        } else {
            28int
        }),
{
}

/// Outside February the day count comes from the fixed Gregorian table
/// alone: two year-month pairs that share a month other than February
/// share their day count, whatever their years.
pub proof fn lemma_day_count_independent_of_year(a: YearMonth, b: YearMonth)
    requires
        a.month == b.month,
        a.month != Month::February,
    ensures
        a.spec_day_count() == b.spec_day_count(),
{
}

} // verus!
