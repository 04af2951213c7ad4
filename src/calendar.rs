//! Calendar instants as plain integers, and the few calls into chrono that
//! read and write them.

use vstd::prelude::*;

verus! {

/// Microseconds in one second.
pub const MICROS_PER_SEC: i64 = 1_000_000;

/// Seconds in one day (the calendar has no leap seconds).
pub const SECS_PER_DAY: i64 = 86_400;

/// Microseconds in one day.
pub const MICROS_PER_DAY: i64 = SECS_PER_DAY * MICROS_PER_SEC;

/// Day number (days since 1970-01-01) of -262143-01-01, chrono's `NaiveDate::MIN`.
pub const MIN_DAY: i64 = -96_465_293;

/// Day number of +262142-12-31, chrono's `NaiveDate::MAX`.
pub const MAX_DAY: i64 = 95_026_236;

/// Day number of 1900-01-01, the epoch of the TOD clock.
pub const DAY_1900: i64 = -25_567;

/// Day number of 0000-01-01.
pub const DAY_0000: i64 = -719_528;

/// Earliest representable instant, in microseconds since 1970-01-01T00:00:00.
pub const MIN_MICROS: i64 = -8_334_601_315_200_000_000;

/// Latest representable instant (the last microsecond of `MAX_DAY`).
pub const MAX_MICROS: i64 = MAX_DAY * MICROS_PER_DAY + (MICROS_PER_DAY - 1);

/// 1900-01-01T00:00:00 in microseconds since the Unix epoch.
pub const TOD_EPOCH_MICROS: i64 = -2_208_988_800_000_000;

/// 1966-01-03T00:00:00 (day -1459) in microseconds since the Unix epoch.
pub const PMC_EPOCH_MICROS: i64 = -126_057_600_000_000;

/// Seconds from 1900-01-01T00:00:00 to 1970-01-01T00:00:00.
pub const CENTURY_SECS: i64 = -DAY_1900 * SECS_PER_DAY;

/// Whether an instant (microseconds since the Unix epoch) lies in the
/// calendar's range.
pub open spec fn in_calendar(micros: int) -> bool {
    MIN_MICROS <= micros <= MAX_MICROS
}

/// The day number (days since 1970-01-01) that an instant falls on.
pub open spec fn day_of(micros: int) -> int {
    micros / (MICROS_PER_DAY as int)
}

/// A calendar instant on the proleptic Gregorian calendar, without leap
/// seconds, as microseconds since 1970-01-01T00:00:00.
#[derive(Clone, Copy, Debug, PartialEq, Eq, Structural)]
pub struct CalTime {
    pub micros: i64,
}

impl CalTime {
    /// The instant lies in the calendar's range.
    pub open spec fn valid(self) -> bool {
        in_calendar(self.micros as int)
    }

    /// The day number of the instant.
    pub fn day(&self) -> (r: i64)
        requires
            self.valid(),
        ensures
            r == day_of(self.micros as int),
            MIN_DAY <= r <= MAX_DAY,
    {
        let shifted: u128 = (self.micros as i128 - MIN_MICROS as i128) as u128;
        let q: u128 = shifted / (MICROS_PER_DAY as u128);
        proof {
            assert(MIN_MICROS == MIN_DAY * MICROS_PER_DAY);
            let m = self.micros as int;
            let d = MICROS_PER_DAY as int;
            assert(q == (m - MIN_DAY * d) / d);
            assert((m - MIN_DAY * d) / d == m / d - MIN_DAY) by (nonlinear_arith)
                requires d > 0;
            assert(MIN_DAY <= m / d <= MAX_DAY) by (nonlinear_arith)
                requires d > 0, MIN_DAY * d <= m <= MAX_DAY * d + (d - 1);
        }
        (q as i64) + MIN_DAY
    }
}

/// Layout of a date and time in a text line.
pub const DATE_TEXT: &'static str = "%F %H:%M:%S%.6f";

/// Layout of a date and time in a CSV row.
pub const DATE_CSV: &'static str = "%F,%H:%M:%S%.6f";

/// Layout of the ordinal date (year and day of the year).
pub const ORDINAL_TEXT: &'static str = "%Y.%j";

/// Layout of the abbreviated weekday.
pub const WEEKDAY_TEXT: &'static str = "%a";

/// Layout of the current date and time as an input value.
pub const NOW_TEXT: &'static str = "%F@%H:%M:%S%.6f";

/// Input layout of a calendar date and time.
pub const ISO_INPUT: &'static str = "%F@%H:%M:%S%.f";

/// Input layout of an ordinal date and time.
pub const ORDINAL_INPUT: &'static str = "%Y.%j@%H:%M:%S%.f";

/// The layouts in which the library writes instants.
pub open spec fn is_output_layout(fmt: Seq<char>) -> bool {
    fmt == DATE_TEXT@ || fmt == DATE_CSV@ || fmt == ORDINAL_TEXT@ || fmt == WEEKDAY_TEXT@ || fmt
        == NOW_TEXT@
}

/// What chrono reads from a text in a given layout: the instant in
/// microseconds since the Unix epoch, or nothing.
pub uninterp spec fn parsed_datetime(s: Seq<char>, fmt: Seq<char>) -> Option<i64>;

/// What chrono writes for an instant (microseconds since the Unix epoch) in a
/// given layout.
pub uninterp spec fn datetime_text(micros: int, fmt: Seq<char>) -> Seq<char>;

/// Relies on chrono's `NaiveDateTime::parse_from_str`: the date and time that
/// a text spells in a strftime layout, taken as microseconds since the Unix
/// epoch by `DateTime::timestamp_micros`. The result depends on the two texts
/// alone.
#[verifier::external_body]
pub(crate) fn parse_datetime(s: &str, fmt: &str) -> (r: Option<i64>)
    ensures
        r == parsed_datetime(s@, fmt@),
{
    match chrono::NaiveDateTime::parse_from_str(s, fmt) {
        Ok(t) => Some(t.and_utc().timestamp_micros()),
        Err(_) => None,
    }
}

/// Relies on chrono's `NaiveDateTime::format`: the strftime text of an
/// instant, which `DateTime::from_timestamp_micros` builds for every instant
/// of the calendar's range. The result depends on the instant and the layout
/// alone; each of the library's layouts is one that chrono can write.
#[verifier::external_body]
pub(crate) fn format_datetime(micros: i64, fmt: &str) -> (r: String)
    requires
        in_calendar(micros as int),
        is_output_layout(fmt@),
    ensures
        r@ == datetime_text(micros as int, fmt@),
{
    chrono::DateTime::from_timestamp_micros(micros).unwrap().naive_utc().format(fmt).to_string()
}

} // verus!
