//! The library's calls into code it does not verify: the system clock,
//! and the outside crates `chrono`, `uuid` and `base64`. Each wrapper states what the called function's source or
//! documentation promises, over a name for its result where that result
//! takes more than a few lines to describe.
use chrono::{Datelike, Timelike};
use vstd::prelude::*;

use crate::temporal::{date_tuple, time_tuple, DateParts, DateTimeParts, OffsetDateTimeParts, TimeParts};

verus! {

/// Milliseconds since the Unix epoch according to the system clock
/// (`SystemTime::now().duration_since(UNIX_EPOCH)`, 0 for a clock before the
/// epoch, truncated to 64 bits). Nothing is promised about the value: it is
/// the time at the call.
#[verifier::external_body]
pub(crate) fn now_millis() -> u64 {
    std::time::SystemTime::now().duration_since(std::time::UNIX_EPOCH).unwrap_or_default().as_millis() as u64
}

/// What `uuid::Uuid::parse_str` makes of a text: the UUID's 16 bytes, or
/// the text of its error.
pub uninterp spec fn uuid_parsed(text: Seq<char>) -> Result<Seq<u8>, Seq<char>>;

/// `uuid::Uuid::parse_str`, returning the parsed UUID's bytes
/// (`Uuid::as_bytes`) or the error's message. Only that its result is the
/// named function of the text is claimed.
#[verifier::external_body]
pub(crate) fn parse_uuid(text: &str) -> (r: Result<[u8; 16], String>)
    ensures
        match r {
            Ok(b) => uuid_parsed(text@) == Ok::<Seq<u8>, Seq<char>>(b@),
            Err(e) => uuid_parsed(text@) == Err::<Seq<u8>, Seq<char>>(e@),
        },
{
    match uuid::Uuid::parse_str(text) {
        Ok(u) => Ok(*u.as_bytes()),
        Err(e) => Err(e.to_string()),
    }
}

/// What `chrono::NaiveDate::parse_from_str(text, "%Y-%m-%d")` makes of a
/// text: `(year, month, day)` or the text of its error.
pub uninterp spec fn chrono_date_parsed(text: Seq<char>) -> Result<(int, int, int), Seq<char>>;

/// `chrono::NaiveDate::parse_from_str` with the format `%Y-%m-%d`, its
/// result taken apart into year, month and day. Only that the result is the
/// named function of the text is claimed.
#[verifier::external_body]
pub(crate) fn parse_iso_date(text: &str) -> (r: Result<DateParts, String>)
    ensures
        match r {
            Ok(d) => chrono_date_parsed(text@) == Ok::<(int, int, int), Seq<char>>(date_tuple(d)),
            Err(e) => chrono_date_parsed(text@) == Err::<(int, int, int), Seq<char>>(e@),
        },
{
    match chrono::NaiveDate::parse_from_str(text, "%Y-%m-%d") {
        Ok(d) => Ok(DateParts { year: d.year(), month: d.month(), day: d.day() }),
        Err(e) => Err(e.to_string()),
    }
}

/// What `chrono::NaiveTime::parse_from_str(text, format)` makes of a text:
/// `(hour, minute, second, nanosecond)` or the text of its error.
pub uninterp spec fn chrono_time_parsed(text: Seq<char>, format: Seq<char>) -> Result<
    (int, int, int, int),
    Seq<char>,
>;

/// `chrono::NaiveTime::parse_from_str`, its result taken apart into hour,
/// minute, second and nanosecond. Only that the result is the named
/// function of the text and format is claimed.
#[verifier::external_body]
pub(crate) fn parse_time_with(text: &str, format: &str) -> (r: Result<TimeParts, String>)
    ensures
        match r {
            Ok(t) => chrono_time_parsed(text@, format@) == Ok::<(int, int, int, int), Seq<char>>(
                time_tuple(t),
            ),
            Err(e) => chrono_time_parsed(text@, format@) == Err::<(int, int, int, int), Seq<char>>(
                e@,
            ),
        },
{
    match chrono::NaiveTime::parse_from_str(text, format) {
        Ok(t) => Ok(TimeParts { hour: t.hour(), minute: t.minute(), second: t.second(), nanosecond: t.nanosecond() }),
        Err(e) => Err(e.to_string()),
    }
}

/// What `chrono::NaiveDateTime::parse_from_str(text, format)` makes of a
/// text: the date and time of day, or the text of its error.
pub uninterp spec fn chrono_datetime_parsed(text: Seq<char>, format: Seq<char>) -> Result<
    ((int, int, int), (int, int, int, int)),
    Seq<char>,
>;

/// `chrono::NaiveDateTime::parse_from_str`, its result taken apart into a
/// date and a time of day. Only that the result is the named function of
/// the text and format is claimed.
#[verifier::external_body]
pub(crate) fn parse_datetime_with(text: &str, format: &str) -> (r: Result<DateTimeParts, String>)
    ensures
        match r {
            Ok(dt) => chrono_datetime_parsed(text@, format@) == Ok::<
                ((int, int, int), (int, int, int, int)),
                Seq<char>,
            >((date_tuple(dt.date), time_tuple(dt.time))),
            Err(e) => chrono_datetime_parsed(text@, format@) == Err::<
                ((int, int, int), (int, int, int, int)),
                Seq<char>,
            >(e@),
        },
{
    match chrono::NaiveDateTime::parse_from_str(text, format) {
        Ok(dt) => Ok(DateTimeParts {
            date: DateParts { year: dt.year(), month: dt.month(), day: dt.day() },
            time: TimeParts { hour: dt.hour(), minute: dt.minute(), second: dt.second(), nanosecond: dt.nanosecond() },
        }),
        Err(e) => Err(e.to_string()),
    }
}

/// What `chrono::DateTime::parse_from_rfc3339` makes of a text: the
/// instant's UTC date and time (`naive_utc`) and its offset in seconds east
/// of UTC, or the text of its error.
pub uninterp spec fn chrono_rfc3339_parsed(text: Seq<char>) -> Result<
    ((int, int, int), (int, int, int, int), int),
    Seq<char>,
>;

/// `chrono::DateTime::parse_from_rfc3339`, its result taken apart into the
/// UTC date, UTC time of day and offset. Only that the result is the named
/// function of the text is claimed.
#[verifier::external_body]
pub(crate) fn parse_rfc3339(text: &str) -> (r: Result<OffsetDateTimeParts, String>)
    ensures
        match r {
            Ok(o) => chrono_rfc3339_parsed(text@) == Ok::<
                ((int, int, int), (int, int, int, int), int),
                Seq<char>,
            >((date_tuple(o.utc.date), time_tuple(o.utc.time), o.offset_seconds as int)),
            Err(e) => chrono_rfc3339_parsed(text@) == Err::<
                ((int, int, int), (int, int, int, int), int),
                Seq<char>,
            >(e@),
        },
{
    match chrono::DateTime::parse_from_rfc3339(text) {
        Ok(t) => {
            let u = t.naive_utc();
            Ok(OffsetDateTimeParts {
                utc: DateTimeParts {
                    date: DateParts { year: u.year(), month: u.month(), day: u.day() },
                    time: TimeParts { hour: u.hour(), minute: u.minute(), second: u.second(), nanosecond: u.nanosecond() },
                },
                offset_seconds: t.offset().local_minus_utc(),
            })
        },
        Err(e) => Err(e.to_string()),
    }
}

/// What the standard base64 engine (`base64::engine::general_purpose::STANDARD`)
/// decodes a text to: the bytes, or the text of its error.
pub uninterp spec fn base64_decoded(text: Seq<char>) -> Result<Seq<u8>, Seq<char>>;

/// `Engine::decode` with the standard alphabet and canonical padding:
/// decoding succeeds with the bytes `b` exactly when the text is the
/// standard encoding of `b` (`base64_standard`); what is claimed beyond
/// that is only that the error's text is a function of the text.
#[verifier::external_body]
pub(crate) fn decode_base64(text: &str) -> (r: Result<Vec<u8>, String>)
    ensures
        match r {
            Ok(b) => base64_decoded(text@) == Ok::<Seq<u8>, Seq<char>>(b@) && base64_standard(b@)
                == text@,
            Err(e) => base64_decoded(text@) == Err::<Seq<u8>, Seq<char>>(e@) && forall|s: Seq<u8>|
                #[trigger] base64_standard(s) != text@,
        },
{
    match base64::Engine::decode(&base64::engine::general_purpose::STANDARD, text) {
        Ok(b) => Ok(b),
        Err(e) => Err(e.to_string()),
    }
}

/// A character of the standard base64 alphabet
/// (`A-Z`, `a-z`, `0-9`, `+`, `/`).
pub open spec fn base64_char(n: nat) -> char {
    if n < 26 {
        (65 + n) as char
    } else if n < 52 {
        (71 + n) as char
    } else if n < 62 {
        (n - 4) as char
    } else if n == 62 {
        '+'
    } else {
        '/'
    }
}

/// RFC 4648 base64 with the standard alphabet and `=` padding: each group
/// of three bytes becomes four characters, a final group of one or two
/// bytes is padded to four.
pub open spec fn base64_standard(s: Seq<u8>) -> Seq<char>
    decreases s.len(),
{
    if s.len() == 0 {
        Seq::empty()
    } else if s.len() == 1 {
        seq![base64_char((s[0] / 4) as nat), base64_char(((s[0] % 4) * 16) as nat), '=', '=']
    } else if s.len() == 2 {
        seq![
            base64_char((s[0] / 4) as nat),
            base64_char(((s[0] % 4) * 16 + s[1] / 16) as nat),
            base64_char(((s[1] % 16) * 4) as nat),
            '=',
        ]
    } else {
        seq![
            base64_char((s[0] / 4) as nat),
            base64_char(((s[0] % 4) * 16 + s[1] / 16) as nat),
            base64_char(((s[1] % 16) * 4 + s[2] / 64) as nat),
            base64_char((s[2] % 64) as nat),
        ] + base64_standard(s.skip(3))
    }
}

/// `Engine::encode` with `base64::engine::general_purpose::STANDARD`: the
/// standard alphabet with padding (`base64_standard`).
#[verifier::external_body]
pub(crate) fn encode_base64(bytes: &[u8]) -> (r: String)
    ensures
        r@ == base64_standard(bytes@),
{
    base64::Engine::encode(&base64::engine::general_purpose::STANDARD, bytes)
}

/// A leap year of the proleptic Gregorian calendar.
pub open spec fn is_leap_year(y: int) -> bool {
    y % 4 == 0 && (y % 100 != 0 || y % 400 == 0)
}

pub open spec fn days_in_month(y: int, m: int) -> int {
    if m == 2 {
        if is_leap_year(y) {
            29
        } else {
            28
        }
    } else if m == 4 || m == 6 || m == 9 || m == 11 {
        30
    } else {
        31
    }
}

/// A `(year, month, day)` that names a day of the proleptic Gregorian
/// calendar.
pub open spec fn valid_civil(d: (int, int, int)) -> bool {
    1 <= d.1 <= 12 && 1 <= d.2 <= days_in_month(d.0, d.1)
}

/// The number of a calendar day, counted from 1970-01-01 (day 0), in the
/// proleptic Gregorian calendar: whole 400-year eras of 146097 days, then
/// years of 365 days with a leap day every fourth year but centuries not
/// divisible by 400, counted from March so that the leap day comes last.
pub open spec fn days_from_civil(d: (int, int, int)) -> int {
    let y = if d.1 <= 2 {
        d.0 - 1
    } else {
        d.0
    };
    let era = y / 400;
    let yoe = y - era * 400;
    let mp = if d.1 > 2 {
        d.1 - 3
    } else {
        d.1 + 9
    };
    let doy = (153 * mp + 2) / 5 + d.2 - 1;
    let doe = yoe * 365 + yoe / 4 - yoe / 100 + doy;
    era * 146097 + doe - 719468
}

/// The calendar day `days` days after the first of January of
/// `start_year`: the valid date whose day number is that many more (there
/// is exactly one).
pub open spec fn civil_date_after(start_year: int, days: int) -> (int, int, int) {
    choose|d: (int, int, int)|
        valid_civil(d) && days_from_civil(d) == days_from_civil((start_year, 1, 1)) + days
}

/// The day offsets from the first of January of `start_year` (1 or 1900)
/// that stay inside chrono's date range, -262143-01-01 to 262142-12-31.
pub open spec fn days_in_chrono_range(start_year: int, days: int) -> bool {
    ||| (start_year == 1 && -95_746_130 <= days <= 95_745_398)
    ||| (start_year == 1900 && -96_439_725 <= days <= 95_051_803)
}

/// `NaiveDate::from_ymd_opt(start_year, 1, 1).unwrap() + TimeDelta::days(days)`
/// taken apart into year, month and day. The start years admitted (1 and
/// 1900) are valid dates, and the bound on `days` keeps the sum inside
/// chrono's date range, where neither the construction nor the addition
/// panics. Claimed: the result is the calendar day `days` days after the
/// first of January of `start_year`, the valid date whose day number is
/// that many more (`civil_date_after`).
#[verifier::external_body]
pub(crate) fn date_after_days(start_year: i32, days: i64) -> (r: DateParts)
    requires
        days_in_chrono_range(start_year as int, days as int),
    ensures
        date_tuple(r) == civil_date_after(start_year as int, days as int),
        valid_civil(date_tuple(r)),
        days_from_civil(date_tuple(r)) == days_from_civil((start_year as int, 1, 1)) + days,
{
    let d = chrono::NaiveDate::from_ymd_opt(start_year, 1, 1).unwrap() + chrono::Duration::days(days);
    DateParts { year: d.year(), month: d.month(), day: d.day() }
}

/// One lowercase hexadecimal digit.
pub open spec fn hex_digit(n: nat) -> char {
    if n < 10 {
        (48 + n) as char
    } else {
        (87 + n) as char
    }
}

/// Two lowercase hexadecimal digits per byte, in order.
pub open spec fn hex_bytes(s: Seq<u8>) -> Seq<char>
    decreases s.len(),
{
    if s.len() == 0 {
        Seq::empty()
    } else {
        hex_bytes(s.drop_last()) + seq![hex_digit((s.last() / 16) as nat), hex_digit((s.last() % 16) as nat)]
    }
}

/// The hyphenated lowercase form of a UUID's 16 bytes:
/// `xxxxxxxx-xxxx-xxxx-xxxx-xxxxxxxxxxxx`.
pub open spec fn uuid_hyphenated(b: Seq<u8>) -> Seq<char> {
    hex_bytes(b.subrange(0, 4)) + seq!['-'] + hex_bytes(b.subrange(4, 6)) + seq!['-'] + hex_bytes(
        b.subrange(6, 8),
    ) + seq!['-'] + hex_bytes(b.subrange(8, 10)) + seq!['-'] + hex_bytes(b.subrange(10, 16))
}

/// `Uuid::from_bytes(bytes).to_string()`: uuid's `Display` writes the
/// hyphenated form in lowercase hexadecimal, the bytes in order.
#[verifier::external_body]
pub(crate) fn format_uuid(bytes: &[u8; 16]) -> (r: String)
    ensures
        r@ == uuid_hyphenated(bytes@),
{
    uuid::Uuid::from_bytes(*bytes).to_string()
}

} // verus!
