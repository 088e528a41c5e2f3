//! Calendar values exchanged with SQL Server (`date`, `time`, `datetime*`,
//! `datetimeoffset`), as plain numbers.
use vstd::prelude::*;

verus! {

/// A proleptic Gregorian calendar date.
pub struct DateParts {
    pub year: i32,
    pub month: u32,
    pub day: u32,
}

/// A time of day; `nanosecond` may reach 1_999_999_999 only for a leap
/// second, as in chrono.
pub struct TimeParts {
    pub hour: u32,
    pub minute: u32,
    pub second: u32,
    pub nanosecond: u32,
}

/// A date and a time of day, with no time zone.
pub struct DateTimeParts {
    pub date: DateParts,
    pub time: TimeParts,
}

/// An instant with a fixed UTC offset: its UTC date and time, and the
/// offset in seconds east of UTC.
pub struct OffsetDateTimeParts {
    pub utc: DateTimeParts,
    pub offset_seconds: i32,
}

pub open spec fn date_tuple(d: DateParts) -> (int, int, int) {
    (d.year as int, d.month as int, d.day as int)
}

pub open spec fn time_tuple(t: TimeParts) -> (int, int, int, int) {
    (t.hour as int, t.minute as int, t.second as int, t.nanosecond as int)
}

} // verus!
