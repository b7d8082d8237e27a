pub mod compounds;
pub mod units;
