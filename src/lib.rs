//! Conversions among the hardware Time-Of-Day clock (microseconds since
//! 1900-01-01), the Perpetual Minute Clock (minutes since 1966-01-03), the Unix
//! seconds clock and calendar date/time values, for up to three time-zone
//! offsets, with or without the historical UTC leap seconds.

pub mod calendar;
pub mod text;
pub mod leapsectab;
pub mod todinfo;
pub mod laws;
