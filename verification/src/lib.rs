//! A calendar-arithmetic and ISO 8601 text codec: civil calendar values
//! (year, month, day, time of day, UTC offset) together with the parsing
//! rules that turn ISO 8601 text into local or zoned date-time values.

pub mod cal;
pub mod local;
pub mod parse;
pub mod zoned;
