//! Result-set cells as decoded off the wire, and their JSON rendering:
//! numbers as numbers, exact decimals, GUIDs, binary and calendar values as
//! strings, and SQL `NULL` as JSON null.
use vstd::prelude::*;

use crate::external::{
    base64_standard, civil_date_after, date_after_days, days_in_chrono_range, encode_base64,
    format_uuid, uuid_hyphenated,
};
use crate::json::{lemma_lookup_after_insert, lookup, FloatRepr, JsonNumber, JsonObject, JsonValue};
use crate::numeric::{format_numeric, numeric_text, NumericValue};
use crate::temporal::{date_tuple, DateParts};
use crate::text::{extend_chars, string_of, zero_padded, zero_padded_digits};

verus! {

/// A `time` value: `increments` units of `10^-scale` seconds since midnight.
pub struct TimeCell {
    pub increments: u64,
    pub scale: u8,
}

/// A `datetime` value: days since 1900-01-01 and 1/300-second ticks since
/// midnight.
pub struct DateTimeCell {
    pub days: i32,
    pub fragments: u32,
}

/// A `smalldatetime` value: days since 1900-01-01 and minutes since
/// midnight.
pub struct SmallDateTimeCell {
    pub days: u16,
    pub minutes: u16,
}

/// A `datetime2` value: days since 0001-01-01 and a time of day.
pub struct DateTime2Cell {
    pub days: u32,
    pub time: TimeCell,
}

/// A `datetimeoffset` value: a UTC `datetime2` and its offset in minutes
/// east of UTC.
pub struct DateTimeOffsetCell {
    pub datetime: DateTime2Cell,
    pub offset_minutes: i16,
}

/// One decoded cell; `None` is SQL `NULL`. Floats are carried as their
/// binary64 value (a `real` widened exactly), which may be non-finite.
pub enum CellValue {
    U8(Option<u8>),
    I16(Option<i16>),
    I32(Option<i32>),
    I64(Option<i64>),
    F32(Option<FloatRepr>),
    F64(Option<FloatRepr>),
    Bit(Option<bool>),
    Numeric(Option<NumericValue>),
    String(Option<String>),
    Guid(Option<[u8; 16]>),
    Binary(Option<Vec<u8>>),
    Xml(Option<String>),
    DateTime(Option<DateTimeCell>),
    SmallDateTime(Option<SmallDateTimeCell>),
    Time(Option<TimeCell>),
    /// Days since 0001-01-01.
    Date(Option<u32>),
    DateTime2(Option<DateTime2Cell>),
    DateTimeOffset(Option<DateTimeOffsetCell>),
}

// ---------------------------------------------------------------------------
// Times of day

pub open spec fn ns_per_day() -> nat {
    86_400_000_000_000
}

/// Nanoseconds per unit of a time value of the given scale, `10^(9-scale)`.
pub open spec fn scale_factor(scale: u8) -> nat {
    if scale == 0 {
        1_000_000_000
    } else if scale == 1 {
        100_000_000
    } else if scale == 2 {
        10_000_000
    } else if scale == 3 {
        1_000_000
    } else if scale == 4 {
        100_000
    } else if scale == 5 {
        10_000
    } else if scale == 6 {
        1_000
    } else if scale == 7 {
        100
    } else if scale == 8 {
        10
    } else {
        1
    }
}

/// A time value whose nanosecond count is computable: a scale of at most 9
/// and a count that fits an `i64`.
pub open spec fn time_defined(t: TimeCell) -> bool {
    t.scale <= 9 && t.increments * scale_factor(t.scale) <= i64::MAX
}

/// The time of day of a time value, in nanoseconds since midnight: chrono's
/// `NaiveTime + TimeDelta` from midnight, which wraps a count past one day
/// around.
pub open spec fn time_of_day_ns(t: TimeCell) -> nat {
    ((t.increments as nat) * scale_factor(t.scale)) % ns_per_day()
}

/// The cells that can be rendered: a computable time of day, a `date`-based
/// day count below 2^24 (what the wire format holds), a `datetime` day
/// count inside chrono's range, and an offset of less than a day.
pub open spec fn cell_defined(c: CellValue) -> bool {
    match c {
        CellValue::Time(Some(t)) => time_defined(t),
        CellValue::Date(Some(d)) => d < 0x100_0000,
        CellValue::DateTime(Some(d)) => days_in_chrono_range(1900, d.days as int),
        CellValue::DateTime2(Some(d)) => d.days < 0x100_0000 && time_defined(d.time),
        CellValue::DateTimeOffset(Some(o)) => o.datetime.days < 0x100_0000 && time_defined(
            o.datetime.time,
        ) && -1440 < o.offset_minutes < 1440,
        _ => true,
    }
}

fn time_is_defined(t: &TimeCell) -> (r: bool)
    ensures
        r == time_defined(*t),
{
    if t.scale > 9 {
        return false;
    }
    let factor = factor_of(t.scale);
    assert(factor > 0);
    let limit: u64 = 0x7fff_ffff_ffff_ffff / factor;
    proof {
        let i = t.increments as int;
        let f = factor as int;
        let l = limit as int;
        assert(l * f <= 0x7fff_ffff_ffff_ffffint < (l + 1) * f) by (nonlinear_arith)
            requires
                l == 0x7fff_ffff_ffff_ffffint / f,
                f > 0,
        ;
        assert(i <= l ==> i * f <= l * f) by (nonlinear_arith)
            requires
                f > 0,
        ;
        assert(i > l ==> i * f >= (l + 1) * f) by (nonlinear_arith)
            requires
                f > 0,
        ;
    }
    t.increments <= limit
}

/// Whether a cell can be rendered (`cell_defined`).
pub fn cell_is_defined(cell: &CellValue) -> (r: bool)
    ensures
        r == cell_defined(*cell),
{
    match cell {
        CellValue::Time(Some(t)) => time_is_defined(t),
        CellValue::Date(Some(d)) => *d < 0x100_0000,
        CellValue::DateTime(Some(d)) => -96_439_725 <= d.days && d.days <= 95_051_803,
        CellValue::DateTime2(Some(d)) => d.days < 0x100_0000 && time_is_defined(&d.time),
        CellValue::DateTimeOffset(Some(o)) => o.datetime.days < 0x100_0000 && time_is_defined(
            &o.datetime.time,
        ) && -1440 < o.offset_minutes && o.offset_minutes < 1440,
        _ => true,
    }
}

// ---------------------------------------------------------------------------
// Calendar text (chrono's `%Y-%m-%d`, `%H:%M:%S`, `%.f` and RFC 3339)

/// A year as chrono writes it for `%Y` and in `to_rfc3339_opts`: four
/// digits for 0 through 9999, otherwise signed with at least four digits
/// (`{:+05}`).
pub open spec fn year_text(y: int) -> Seq<char> {
    if 0 <= y <= 9999 {
        zero_padded(y as nat, 4)
    } else if y < 0 {
        seq!['-'] + zero_padded((-y) as nat, 4)
    } else {
        seq!['+'] + zero_padded(y as nat, 4)
    }
}

/// `YYYY-MM-DD`: chrono's `%Y-%m-%d` (month and day zero-padded to two
/// digits).
pub open spec fn date_text(d: (int, int, int)) -> Seq<char> {
    year_text(d.0) + seq!['-'] + zero_padded(d.1 as nat, 2) + seq!['-'] + zero_padded(
        d.2 as nat,
        2,
    )
}

/// `HH:MM:SS` of a time of day in nanoseconds: chrono's `%H:%M:%S`, each
/// field zero-padded to two digits.
pub open spec fn clock_text(ns: nat) -> Seq<char> {
    zero_padded(ns / 3_600_000_000_000, 2) + seq![':'] + zero_padded(
        (ns / 60_000_000_000) % 60,
        2,
    ) + seq![':'] + zero_padded((ns / 1_000_000_000) % 60, 2)
}

/// The fraction of a second as chrono writes it for `%.f` and for
/// `SecondsFormat::AutoSi`: nothing when zero, else a `.` and three, six or
/// nine digits, the fewest that are exact.
pub open spec fn fraction_text(nano: nat) -> Seq<char> {
    if nano == 0 {
        Seq::empty()
    } else if nano % 1_000_000 == 0 {
        seq!['.'] + zero_padded(nano / 1_000_000, 3)
    } else if nano % 1_000 == 0 {
        seq!['.'] + zero_padded(nano / 1_000, 6)
    } else {
        seq!['.'] + zero_padded(nano, 9)
    }
}

/// `HH:MM:SS` followed by the fraction of a second.
pub open spec fn time_text(ns: nat) -> Seq<char> {
    clock_text(ns) + fraction_text(ns % 1_000_000_000)
}

/// `+HH:MM` or `-HH:MM`: chrono's RFC 3339 offset (`+` for a zero offset,
/// minutes precision, colon-separated).
pub open spec fn offset_text(minutes: int) -> Seq<char> {
    let m: nat = if minutes < 0 {
        (-minutes) as nat
    } else {
        minutes as nat
    };
    (if minutes < 0 {
        seq!['-']
    } else {
        seq!['+']
    }) + zero_padded(m / 60, 2) + seq![':'] + zero_padded(m % 60, 2)
}

/// The text of a temporal cell; `None` for any other cell, or a null one.
/// The date is chrono's `NaiveDate::from_ymd_opt(y, 1, 1) + TimeDelta::days`
/// (`civil_date_after`); the time of day is added to midnight with
/// wrap-around; `datetimeoffset` is the UTC instant taken to its offset and
/// written by `to_rfc3339_opts(SecondsFormat::AutoSi, false)`, whose local
/// date moves by a day when the offset crosses midnight.
pub open spec fn temporal_text_of(c: CellValue) -> Option<Seq<char>> {
    match c {
        CellValue::Date(Some(days)) => Some(date_text(civil_date_after(1, days as int))),
        CellValue::Time(Some(t)) => Some(time_text(time_of_day_ns(t))),
        CellValue::SmallDateTime(Some(s)) => Some(
            date_text(civil_date_after(1900, s.days as int)) + seq!['T'] + clock_text(
                ((s.minutes as nat) * 60_000_000_000nat) % ns_per_day(),
            ),
        ),
        CellValue::DateTime(Some(d)) => Some(
            date_text(civil_date_after(1900, d.days as int)) + seq!['T'] + time_text(
                (((d.fragments as nat) * 1_000_000_000nat) / 300nat) % ns_per_day(),
            ),
        ),
        CellValue::DateTime2(Some(d)) => Some(
            date_text(civil_date_after(1, d.days as int)) + seq!['T'] + time_text(
                time_of_day_ns(d.time),
            ),
        ),
        CellValue::DateTimeOffset(Some(o)) => {
            let local: int = time_of_day_ns(o.datetime.time) + o.offset_minutes * 60_000_000_000;
            let carry: int = local / (ns_per_day() as int);
            let tod: nat = (local % (ns_per_day() as int)) as nat;
            Some(
                date_text(civil_date_after(1, o.datetime.days + carry)) + seq!['T'] + time_text(
                    tod,
                ) + offset_text(o.offset_minutes as int),
            )
        },
        _ => None,
    }
}

// ---------------------------------------------------------------------------
// JSON rendering

/// serde_json's number for an integer: non-negative ones as `PosInt`.
pub open spec fn int_json(i: int) -> JsonValue {
    if i < 0 {
        JsonValue::Number(JsonNumber::NegInt(i as i64))
    } else {
        JsonValue::Number(JsonNumber::PosInt(i as u64))
    }
}

/// Whether a binary64 bit pattern is finite (its exponent is not all ones).
pub open spec fn bits_finite(bits: u64) -> bool {
    (bits >> 52u64) & 0x7ffu64 != 0x7ffu64
}

pub open spec fn is_text(r: JsonValue, t: Seq<char>) -> bool {
    r matches JsonValue::String(s) && s@ == t
}

pub open spec fn float_json(f: Option<FloatRepr>, r: JsonValue) -> bool {
    match f {
        Some(x) => if bits_finite(x.bits) {
            r matches JsonValue::Number(JsonNumber::Float(g)) && g.bits == x.bits && g.text@
                == x.text@
        } else {
            r is Null
        },
        None => r is Null,
    }
}

pub open spec fn text_json(t: Option<Seq<char>>, r: JsonValue) -> bool {
    match t {
        Some(s) => is_text(r, s),
        None => r is Null,
    }
}

/// What `column_data_to_json` makes of a cell.
pub open spec fn cell_json(c: CellValue, r: JsonValue) -> bool {
    match c {
        CellValue::U8(v) => r == match v {
            Some(n) => int_json(n as int),
            None => JsonValue::Null,
        },
        CellValue::I16(v) => r == match v {
            Some(n) => int_json(n as int),
            None => JsonValue::Null,
        },
        CellValue::I32(v) => r == match v {
            Some(n) => int_json(n as int),
            None => JsonValue::Null,
        },
        CellValue::I64(v) => r == match v {
            Some(n) => int_json(n as int),
            None => JsonValue::Null,
        },
        CellValue::F32(v) => float_json(v, r),
        CellValue::F64(v) => float_json(v, r),
        CellValue::Bit(v) => r == match v {
            Some(b) => JsonValue::Bool(b),
            None => JsonValue::Null,
        },
        CellValue::Numeric(v) => text_json(
            match v {
                Some(n) => Some(numeric_text(n)),
                None => None,
            },
            r,
        ),
        CellValue::String(v) => text_json(
            match v {
                Some(s) => Some(s@),
                None => None,
            },
            r,
        ),
        CellValue::Guid(v) => text_json(
            match v {
                Some(g) => Some(uuid_hyphenated(g@)),
                None => None,
            },
            r,
        ),
        CellValue::Binary(v) => text_json(
            match v {
                Some(b) => Some(base64_standard(b@)),
                None => None,
            },
            r,
        ),
        CellValue::Xml(v) => text_json(
            match v {
                Some(x) => Some(x@),
                None => None,
            },
            r,
        ),
        _ => text_json(temporal_text_of(c), r),
    }
}

fn push_padded(out: &mut Vec<char>, n: u64, width: usize)
    ensures
        final(out)@ == old(out)@ + zero_padded(n as nat, width as nat),
{
    let d = zero_padded_digits(n as u128, width);
    extend_chars(out, &d);
}

fn push_year(out: &mut Vec<char>, y: i32)
    ensures
        final(out)@ == old(out)@ + year_text(y as int),
{
    if 0 <= y && y <= 9999 {
        push_padded(out, y as u64, 4);
    } else if y < 0 {
        out.push('-');
        let m: u64 = (0i64 - y as i64) as u64;
        push_padded(out, m, 4);
        assert(final(out)@ =~= old(out)@ + year_text(y as int));
    } else {
        out.push('+');
        push_padded(out, y as u64, 4);
        assert(final(out)@ =~= old(out)@ + year_text(y as int));
    }
}

fn push_date(out: &mut Vec<char>, d: &DateParts)
    ensures
        final(out)@ == old(out)@ + date_text(date_tuple(*d)),
{
    push_year(out, d.year);
    out.push('-');
    push_padded(out, d.month as u64, 2);
    out.push('-');
    push_padded(out, d.day as u64, 2);
    assert(final(out)@ =~= old(out)@ + date_text(date_tuple(*d)));
}

fn push_clock(out: &mut Vec<char>, ns: u64)
    requires
        ns < ns_per_day(),
    ensures
        final(out)@ == old(out)@ + clock_text(ns as nat),
{
    push_padded(out, ns / 3_600_000_000_000, 2);
    out.push(':');
    push_padded(out, (ns / 60_000_000_000) % 60, 2);
    out.push(':');
    push_padded(out, (ns / 1_000_000_000) % 60, 2);
    assert(final(out)@ =~= old(out)@ + clock_text(ns as nat));
}

fn push_fraction(out: &mut Vec<char>, nano: u64)
    requires
        nano < 1_000_000_000,
    ensures
        final(out)@ == old(out)@ + fraction_text(nano as nat),
{
    if nano == 0 {
        assert(final(out)@ =~= old(out)@ + fraction_text(nano as nat));
    } else if nano % 1_000_000 == 0 {
        out.push('.');
        push_padded(out, nano / 1_000_000, 3);
        assert(final(out)@ =~= old(out)@ + fraction_text(nano as nat));
    } else if nano % 1_000 == 0 {
        out.push('.');
        push_padded(out, nano / 1_000, 6);
        assert(final(out)@ =~= old(out)@ + fraction_text(nano as nat));
    } else {
        out.push('.');
        push_padded(out, nano, 9);
        assert(final(out)@ =~= old(out)@ + fraction_text(nano as nat));
    }
}

fn push_time(out: &mut Vec<char>, ns: u64)
    requires
        ns < ns_per_day(),
    ensures
        final(out)@ == old(out)@ + time_text(ns as nat),
{
    push_clock(out, ns);
    push_fraction(out, ns % 1_000_000_000);
    assert(final(out)@ =~= old(out)@ + time_text(ns as nat));
}

fn push_offset(out: &mut Vec<char>, minutes: i16)
    requires
        -1440 < minutes < 1440,
    ensures
        final(out)@ == old(out)@ + offset_text(minutes as int),
{
    let m: u64 = if minutes < 0 {
        out.push('-');
        (0i32 - minutes as i32) as u64
    } else {
        out.push('+');
        minutes as u64
    };
    push_padded(out, m / 60, 2);
    out.push(':');
    push_padded(out, m % 60, 2);
    assert(final(out)@ =~= old(out)@ + offset_text(minutes as int));
}

fn factor_of(scale: u8) -> (r: u64)
    requires
        scale <= 9,
    ensures
        r == scale_factor(scale),
{
    match scale {
        0 => 1_000_000_000,
        1 => 100_000_000,
        2 => 10_000_000,
        3 => 1_000_000,
        4 => 100_000,
        5 => 10_000,
        6 => 1_000,
        7 => 100,
        8 => 10,
        _ => 1,
    }
}

fn time_of_day(t: &TimeCell) -> (r: u64)
    requires
        time_defined(*t),
    ensures
        r == time_of_day_ns(*t),
        r < ns_per_day(),
{
    let ns: u64 = t.increments * factor_of(t.scale);
    ns % 86_400_000_000_000
}

fn days_date(start_year: i32, days: i64) -> (r: DateParts)
    requires
        days_in_chrono_range(start_year as int, days as int),
    ensures
        date_tuple(r) == civil_date_after(start_year as int, days as int),
{
    date_after_days(start_year, days)
}

/// The text of a temporal cell (see `temporal_text_of`): `date` as
/// `YYYY-MM-DD`, `time` as `HH:MM:SS` with the fraction of a second,
/// `smalldatetime` as `YYYY-MM-DDTHH:MM:SS`, `datetime` and `datetime2`
/// with the fraction, and `datetimeoffset` in RFC 3339 at its own offset.
#[verifier::spinoff_prover]
#[verifier::rlimit(40)]
pub fn temporal_text(cell: &CellValue) -> (r: Option<String>)
    requires
        cell_defined(*cell),
    ensures
        match temporal_text_of(*cell) {
            Some(t) => r is Some && r->0@ == t,
            None => r is None,
        },
{
    let mut out: Vec<char> = Vec::new();
    match cell {
        CellValue::Date(Some(days)) => {
            let d = days_date(1, *days as i64);
            push_date(&mut out, &d);
        },
        CellValue::Time(Some(t)) => {
            let ns = time_of_day(t);
            push_time(&mut out, ns);
        },
        CellValue::SmallDateTime(Some(s)) => {
            let d = days_date(1900, s.days as i64);
            push_date(&mut out, &d);
            out.push('T');
            let ns: u64 = (s.minutes as u64 * 60_000_000_000) % 86_400_000_000_000;
            push_clock(&mut out, ns);
        },
        CellValue::DateTime(Some(dt)) => {
            let d = days_date(1900, dt.days as i64);
            push_date(&mut out, &d);
            out.push('T');
            let ns: u64 = (dt.fragments as u64 * 1_000_000_000 / 300) % 86_400_000_000_000;
            push_time(&mut out, ns);
        },
        CellValue::DateTime2(Some(dt)) => {
            let d = days_date(1, dt.days as i64);
            push_date(&mut out, &d);
            out.push('T');
            let ns = time_of_day(&dt.time);
            push_time(&mut out, ns);
        },
        CellValue::DateTimeOffset(Some(o)) => {
            let utc = time_of_day(&o.datetime.time) as i64;
            let local: i64 = utc + o.offset_minutes as i64 * 60_000_000_000;
            let (carry, tod): (i64, u64) = if local < 0 {
                (-1, (local + 86_400_000_000_000) as u64)
            } else if local >= 86_400_000_000_000 {
                (1, (local - 86_400_000_000_000) as u64)
            } else {
                (0, local as u64)
            };
            let d = days_date(1, o.datetime.days as i64 + carry);
            push_date(&mut out, &d);
            out.push('T');
            push_time(&mut out, tod);
            push_offset(&mut out, o.offset_minutes);
        },
        _ => {
            return None;
        },
    }
    assert(out@ =~= temporal_text_of(*cell)->0);
    Some(string_of(&out))
}

/// A temporal cell as a JSON string, or null (a null or non-temporal
/// cell).
pub fn temporal_to_json(cell: &CellValue) -> (r: JsonValue)
    requires
        cell_defined(*cell),
    ensures
        text_json(temporal_text_of(*cell), r),
{
    match temporal_text(cell) {
        Some(t) => JsonValue::String(t),
        None => JsonValue::Null,
    }
}

fn int_value(i: i64) -> (r: JsonValue)
    ensures
        r == int_json(i as int),
{
    if i < 0 {
        JsonValue::Number(JsonNumber::NegInt(i))
    } else {
        JsonValue::Number(JsonNumber::PosInt(i as u64))
    }
}

fn float_value(f: &Option<FloatRepr>) -> (r: JsonValue)
    ensures
        float_json(*f, r),
{
    match f {
        Some(x) => {
            if (x.bits >> 52u64) & 0x7ffu64 != 0x7ffu64 {
                JsonValue::Number(JsonNumber::Float(FloatRepr { bits: x.bits, text: x.text.clone() }))
            } else {
                JsonValue::Null
            }
        },
        None => JsonValue::Null,
    }
}

fn text_value(t: Option<String>) -> (r: JsonValue)
    ensures
        text_json(
            match t {
                Some(s) => Some(s@),
                None => None,
            },
            r,
        ),
{
    match t {
        Some(s) => JsonValue::String(s),
        None => JsonValue::Null,
    }
}

/// Converts one decoded cell into JSON (see `cell_json`): integers and
/// finite floats as numbers (a non-finite float as null), `bit` as a
/// boolean, exact decimals, strings, XML, GUIDs (hyphenated, lowercase),
/// binary (standard base64) and calendar values as strings, and a null cell
/// as null.
pub fn column_data_to_json(cell: &CellValue) -> (r: JsonValue)
    requires
        cell_defined(*cell),
    ensures
        cell_json(*cell, r),
{
    match cell {
        CellValue::U8(v) => match v {
            Some(n) => int_value(*n as i64),
            None => JsonValue::Null,
        },
        CellValue::I16(v) => match v {
            Some(n) => int_value(*n as i64),
            None => JsonValue::Null,
        },
        CellValue::I32(v) => match v {
            Some(n) => int_value(*n as i64),
            None => JsonValue::Null,
        },
        CellValue::I64(v) => match v {
            Some(n) => int_value(*n),
            None => JsonValue::Null,
        },
        CellValue::F32(v) => float_value(v),
        CellValue::F64(v) => float_value(v),
        CellValue::Bit(v) => match v {
            Some(b) => JsonValue::Bool(*b),
            None => JsonValue::Null,
        },
        CellValue::Numeric(v) => match v {
            Some(n) => text_value(Some(format_numeric(NumericValue { value: n.value, scale: n.scale }))),
            None => JsonValue::Null,
        },
        CellValue::String(v) => match v {
            Some(s) => text_value(Some(s.clone())),
            None => JsonValue::Null,
        },
        CellValue::Guid(v) => match v {
            Some(g) => text_value(Some(format_uuid(g))),
            None => JsonValue::Null,
        },
        CellValue::Binary(v) => match v {
            Some(b) => text_value(Some(encode_base64(b.as_slice()))),
            None => JsonValue::Null,
        },
        CellValue::Xml(v) => match v {
            Some(x) => text_value(Some(x.clone())),
            None => JsonValue::Null,
        },
        _ => temporal_to_json(cell),
    }
}

// ---------------------------------------------------------------------------
// Rows

/// The last cell of a row in a column of the given name.
pub open spec fn last_cell(row: Seq<(String, CellValue)>, name: Seq<char>) -> Option<CellValue>
    decreases row.len(),
{
    if row.len() == 0 {
        None
    } else if row.last().0@ == name {
        Some(row.last().1)
    } else {
        last_cell(row.drop_last(), name)
    }
}

/// A row's JSON object: one member per column name, holding the JSON of
/// the row's last cell of that name.
pub open spec fn row_json(row: Seq<(String, CellValue)>, o: JsonObject) -> bool {
    forall|name: Seq<char>|
        match #[trigger] last_cell(row, name) {
            Some(c) => lookup(o.entries@, name) matches Some(v) && cell_json(c, v),
            None => lookup(o.entries@, name) is None,
        }
}

pub open spec fn rows_defined(rows: Seq<Vec<(String, CellValue)>>) -> bool {
    forall|i: int, j: int|
        0 <= i < rows.len() && 0 <= j < rows[i]@.len() ==> cell_defined(#[trigger] rows[i]@[j].1)
}

/// Converts one row: each cell is rendered and stored under its column's
/// name, a later column of the same name replacing an earlier one.
pub fn row_to_json(row: &Vec<(String, CellValue)>) -> (r: JsonObject)
    requires
        forall|j: int| 0 <= j < row@.len() ==> cell_defined(#[trigger] row@[j].1),
    ensures
        row_json(row@, r),
{
    let mut obj = JsonObject::new();
    let mut j: usize = 0;
    while j < row.len()
        invariant
            j <= row@.len(),
            forall|k: int| 0 <= k < row@.len() ==> cell_defined(#[trigger] row@[k].1),
            row_json(row@.take(j as int), obj),
        decreases row@.len() - j,
    {
        let value = column_data_to_json(&row[j].1);
        let ghost before = obj.entries@;
        let key = row[j].0.clone();
        obj.insert(key, value);
        proof {
            let prefix = row@.take(j + 1);
            assert(prefix.drop_last() == row@.take(j as int));
            assert(prefix.last() == row@[j as int]);
            assert forall|name: Seq<char>|
                match #[trigger] last_cell(prefix, name) {
                    Some(c) => lookup(obj.entries@, name) matches Some(v) && cell_json(c, v),
                    None => lookup(obj.entries@, name) is None,
                } by {
                lemma_lookup_after_insert(before, obj.entries@, key, value, name);
                if name != key@ {
                    assert(last_cell(prefix, name) == last_cell(row@.take(j as int), name));
                }
            }
        }
        j = j + 1;
    }
    assert(row@.take(row@.len() as int) == row@);
    obj
}

/// Converts a result set into a JSON array of row objects, in row order.
pub fn rows_to_json(rows: &Vec<Vec<(String, CellValue)>>) -> (r: Vec<JsonObject>)
    requires
        rows_defined(rows@),
    ensures
        r@.len() == rows@.len(),
        forall|i: int| 0 <= i < rows@.len() ==> row_json(rows@[i]@, #[trigger] r@[i]),
{
    let mut out: Vec<JsonObject> = Vec::new();
    let mut i: usize = 0;
    while i < rows.len()
        invariant
            i <= rows@.len(),
            rows_defined(rows@),
            out@.len() == i,
            forall|k: int| 0 <= k < i ==> row_json(rows@[k]@, #[trigger] out@[k]),
        decreases rows@.len() - i,
    {
        assert forall|j: int| 0 <= j < rows@[i as int]@.len() implies cell_defined(
            #[trigger] rows@[i as int]@[j].1,
        ) by {}
        let o = row_to_json(&rows[i]);
        out.push(o);
        i = i + 1;
    }
    out
}

/// A null cell of any type is rendered as JSON null.
pub proof fn law_null_cells_are_json_null(c: CellValue, r: JsonValue)
    requires
        match c {
            CellValue::U8(v) => v is None,
            CellValue::I16(v) => v is None,
            CellValue::I32(v) => v is None,
            CellValue::I64(v) => v is None,
            CellValue::F32(v) => v is None,
            CellValue::F64(v) => v is None,
            CellValue::Bit(v) => v is None,
            CellValue::Numeric(v) => v is None,
            CellValue::String(v) => v is None,
            CellValue::Guid(v) => v is None,
            CellValue::Binary(v) => v is None,
            CellValue::Xml(v) => v is None,
            CellValue::DateTime(v) => v is None,
            CellValue::SmallDateTime(v) => v is None,
            CellValue::Time(v) => v is None,
            CellValue::Date(v) => v is None,
            CellValue::DateTime2(v) => v is None,
            CellValue::DateTimeOffset(v) => v is None,
        },
        cell_json(c, r),
    ensures
        r is Null,
{
}

/// An integer cell is rendered as the JSON number of the same value: a
/// `tinyint` (0 to 255) always as a non-negative number, and a `smallint`,
/// `int` or `bigint` as a non-negative number when it is at least zero and
/// as a negative number otherwise.
pub proof fn law_integer_cells_keep_their_value(c: CellValue, r: JsonValue)
    requires
        cell_json(c, r),
    ensures
        match c {
            CellValue::U8(Some(n)) => r == JsonValue::Number(JsonNumber::PosInt(n as u64)),
            CellValue::I16(Some(n)) => if n < 0 {
                r == JsonValue::Number(JsonNumber::NegInt(n as i64))
            } else {
                r == JsonValue::Number(JsonNumber::PosInt(n as u64))
            },
            CellValue::I32(Some(n)) => if n < 0 {
                r == JsonValue::Number(JsonNumber::NegInt(n as i64))
            } else {
                r == JsonValue::Number(JsonNumber::PosInt(n as u64))
            },
            CellValue::I64(Some(n)) => if n < 0 {
                r == JsonValue::Number(JsonNumber::NegInt(n))
            } else {
                r == JsonValue::Number(JsonNumber::PosInt(n as u64))
            },
            _ => true,
        },
{
}

/// A `bit` cell is rendered as the JSON boolean of the same value, and a
/// floating-point cell as the number with the same bits and text when it
/// is finite, and as null when it is infinite or not a number.
pub proof fn law_bit_and_float_cells_keep_their_value(c: CellValue, r: JsonValue)
    requires
        cell_json(c, r),
    ensures
        c matches CellValue::Bit(Some(b)) ==> r == JsonValue::Bool(b),
        match c {
            CellValue::F32(Some(f)) | CellValue::F64(Some(f)) => if (f.bits >> 52u64) & 0x7ffu64
                == 0x7ffu64 {
                r is Null
            } else {
                r matches JsonValue::Number(JsonNumber::Float(g)) && g.bits == f.bits && g.text@
                    == f.text@
            },
            _ => true,
        },
{
}

} // verus!
