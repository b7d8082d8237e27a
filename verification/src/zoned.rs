//! Time zones as the text grammar can name them: UTC through its literal
//! marker, or a fixed offset of signed hours and minutes.

use vstd::prelude::*;

verus! {

/// A time zone: UTC named by the literal marker, or a fixed offset east
/// of UTC.  The two are kept distinct so that a caller can tell "UTC via
/// the marker" from "an offset of zero".
#[derive(PartialEq, Eq, Debug, Copy, Clone, Structural)]
pub enum TimeZone {
    UTC,
    FixedOffset { hours: i8, minutes: i8 },
}

impl TimeZone {
    /// The fixed offset of the given signed hours and (unsigned) minutes.
    pub fn of_hours_and_minutes(hours: i8, minutes: i8) -> (r: TimeZone)
        ensures
            r == (TimeZone::FixedOffset { hours, minutes }),
    {
        TimeZone::FixedOffset { hours, minutes }
    }
}

} // verus!
