//! Turning one JSON argument into a typed SQL parameter, keyed by the
//! parameter's declared `x-sql-type`.
use vstd::prelude::*;

use crate::external::{
    base64_decoded, base64_standard, chrono_date_parsed, chrono_datetime_parsed, chrono_rfc3339_parsed,
    chrono_time_parsed, decode_base64, parse_datetime_with, parse_iso_date, parse_rfc3339,
    parse_time_with, parse_uuid, uuid_parsed,
};
use crate::json::{json_as_str, number_text, JsonNumber, JsonValue};
use crate::numeric::{
    abs_int, numeric_body, numeric_digits, numeric_outcome, numeric_sign_overflows,
    unscaled_digits, numeric_error_text, NumericError, NumericOutcome, NumericValue,
};
use crate::sql_type::{base_type, base_type_of, precision_scale, precision_scale_of};
use crate::temporal::{date_tuple, time_tuple, DateParts, DateTimeParts, OffsetDateTimeParts, TimeParts};
use crate::text::{str_eq, concat2, concat3, dec_digits, string_of, u128_digits};

verus! {

/// A typed value to bind as one `@P<n>` argument. `Real` and `Float` carry
/// the JSON number itself (the float conversion happens where the value is
/// bound); `Rendered` is a JSON value to be bound as its JSON text.
pub enum SqlParam<'a> {
    Bit(Option<bool>),
    TinyInt(Option<u8>),
    SmallInt(Option<i16>),
    Int(Option<i32>),
    BigInt(Option<i64>),
    Real(Option<&'a JsonNumber>),
    Float(Option<&'a JsonNumber>),
    Numeric(Option<NumericValue>),
    Guid(Option<[u8; 16]>),
    Date(Option<DateParts>),
    Time(Option<TimeParts>),
    DateTime(Option<DateTimeParts>),
    DateTimeOffset(Option<OffsetDateTimeParts>),
    Binary(Option<Vec<u8>>),
    Text(Option<String>),
    Rendered(&'a JsonValue),
}

/// Why a JSON argument could not be turned into its declared SQL type.
pub enum ParamError<'a> {
    /// A `decimal`-family parameter given something other than a number, a
    /// numeric string or null.
    ExpectedNumber(&'a JsonValue),
    Numeric(NumericError),
    /// The message of the UUID parser.
    Uuid(String),
    /// The message of the date parser.
    Date(String),
    /// The text that no accepted time format matched.
    Time(String),
    /// The text that no accepted datetime format matched.
    DateTime(String),
    /// The message of the RFC 3339 parser.
    DateTimeOffset(String),
    /// The message of the base64 decoder.
    Base64(String),
    /// A number outside the range of the declared type (named here).
    OutOfRange(String),
    /// A non-null value of a kind the declared type (named here) does not
    /// take.
    Invalid(String),
}

/// The message of a conversion error. An `ExpectedNumber` message leaves
/// out the offending value, which is a JSON value for the caller to render.
pub open spec fn param_error_text(e: ParamError) -> Seq<char> {
    match e {
        ParamError::ExpectedNumber(_) => "expected a number or numeric string"@,
        ParamError::Numeric(n) => numeric_error_text(n),
        ParamError::Uuid(m) => m@,
        ParamError::Date(m) => m@,
        ParamError::Time(t) => "could not parse '"@ + t@ + "' as a time"@,
        ParamError::DateTime(t) => "could not parse '"@ + t@ + "' as a datetime"@,
        ParamError::DateTimeOffset(m) => m@,
        ParamError::Base64(m) => "expected base64-encoded binary: "@ + m@,
        ParamError::OutOfRange(t) => "value is out of range for SQL type '"@ + t@ + "'"@,
        ParamError::Invalid(t) => "value is not valid for SQL type '"@ + t@ + "'"@,
    }
}

impl<'a> ParamError<'a> {
    /// The error's message (`param_error_text`).
    pub fn message(&self) -> (r: String)
        ensures
            r@ == param_error_text(*self),
    {
        match self {
            ParamError::ExpectedNumber(_) => "expected a number or numeric string".to_owned(),
            ParamError::Numeric(n) => n.message(),
            ParamError::Uuid(m) => m.clone(),
            ParamError::Date(m) => m.clone(),
            ParamError::Time(t) => concat3("could not parse '", t.as_str(), "' as a time"),
            ParamError::DateTime(t) => concat3("could not parse '", t.as_str(), "' as a datetime"),
            ParamError::DateTimeOffset(m) => m.clone(),
            ParamError::Base64(m) => concat2("expected base64-encoded binary: ", m.as_str()),
            ParamError::OutOfRange(t) => concat3(
                "value is out of range for SQL type '",
                t.as_str(),
                "'",
            ),
            ParamError::Invalid(t) => concat3("value is not valid for SQL type '", t.as_str(), "'"),
        }
    }
}

pub open spec fn is_decimal_base(b: Seq<char>) -> bool {
    b == "decimal"@ || b == "numeric"@ || b == "money"@ || b == "smallmoney"@
}

pub open spec fn is_datetime_base(b: Seq<char>) -> bool {
    b == "datetime"@ || b == "datetime2"@ || b == "smalldatetime"@
}

pub open spec fn is_binary_base(b: Seq<char>) -> bool {
    b == "binary"@ || b == "varbinary"@ || b == "image"@ || b == "rowversion"@ || b
        == "timestamp"@
}

/// The time formats tried in order: `%H:%M:%S%.f`, `%H:%M:%S`, `%H:%M`.
pub open spec fn time_parsed(text: Seq<char>) -> Option<(int, int, int, int)> {
    if chrono_time_parsed(text, "%H:%M:%S%.f"@) is Ok {
        Some(chrono_time_parsed(text, "%H:%M:%S%.f"@)->Ok_0)
    } else if chrono_time_parsed(text, "%H:%M:%S"@) is Ok {
        Some(chrono_time_parsed(text, "%H:%M:%S"@)->Ok_0)
    } else if chrono_time_parsed(text, "%H:%M"@) is Ok {
        Some(chrono_time_parsed(text, "%H:%M"@)->Ok_0)
    } else {
        None
    }
}

/// A naive datetime: `%Y-%m-%dT%H:%M:%S%.f`, else an RFC 3339 timestamp taken
/// in UTC.
pub open spec fn datetime_parsed(text: Seq<char>) -> Option<((int, int, int), (int, int, int, int))> {
    if chrono_datetime_parsed(text, "%Y-%m-%dT%H:%M:%S%.f"@) is Ok {
        Some(chrono_datetime_parsed(text, "%Y-%m-%dT%H:%M:%S%.f"@)->Ok_0)
    } else if chrono_rfc3339_parsed(text) is Ok {
        let p = chrono_rfc3339_parsed(text)->Ok_0;
        Some((p.0, p.1))
    } else {
        None
    }
}

/// The text a `decimal`-family parameter is read from, for a string or a
/// number.
pub open spec fn decimal_text(v: JsonValue) -> Option<Seq<char>> {
    match v {
        JsonValue::String(s) => Some(s@),
        JsonValue::Number(n) => Some(number_text(n)),
        _ => None,
    }
}

/// The integer a JSON value holds: a number without a fractional part.
pub open spec fn json_integer(v: JsonValue) -> Option<int> {
    match v {
        JsonValue::Number(JsonNumber::PosInt(n)) => Some(n as int),
        JsonValue::Number(JsonNumber::NegInt(n)) => Some(n as int),
        _ => None,
    }
}

/// Whether a decimal's unscaled value has at most `precision` digits.
pub open spec fn within_precision(v: int, precision: u8) -> bool {
    dec_digits(abs_int(v)).len() <= precision
}

/// Whether a binary64 value (by its bit pattern) rounds to an infinite
/// binary32 value: its magnitude is at least `2^128 - 2^103`, halfway
/// between `f32::MAX` and `2^128`.
pub open spec fn real_overflows(bits: u64) -> bool {
    let exponent = (bits >> 52u64) & 0x7ffu64;
    let fraction = bits & 0xf_ffff_ffff_ffffu64;
    exponent > 1150 || (exponent == 1150 && fraction >= 0xf_ffff_f000_0000u64)
}

/// The inputs on which the conversion is defined: a `decimal`-family value
/// that is parsed and fits the declared precision must have a scale below
/// 38, and no decimal text may denote the negation of `i128::MIN`.
pub open spec fn param_defined(v: JsonValue, x: Seq<char>) -> bool {
    is_decimal_base(base_type_of(x)) ==> {
        let (precision, scale) = precision_scale_of(x);
        match decimal_text(v) {
            Some(t) => {
                &&& !numeric_sign_overflows(t, scale as nat)
                &&& match numeric_outcome(t, scale as nat) {
                    NumericOutcome::Value(n) => within_precision(n, precision) ==> scale < 38,
                    _ => true,
                }
            },
            None => true,
        }
    }
}

pub open spec fn is_out_of_range<'a>(r: Result<SqlParam<'a>, ParamError<'a>>, x: Seq<char>) -> bool {
    r matches Err(ParamError::OutOfRange(t)) && t@ == x
}

pub open spec fn is_invalid<'a>(r: Result<SqlParam<'a>, ParamError<'a>>, x: Seq<char>) -> bool {
    r matches Err(ParamError::Invalid(t)) && t@ == x
}

pub open spec fn decimal_result<'a>(
    value: &'a JsonValue,
    x: Seq<char>,
    r: Result<SqlParam<'a>, ParamError<'a>>,
) -> bool {
    let (precision, scale) = precision_scale_of(x);
    match decimal_text(*value) {
        Some(t) => match numeric_outcome(t, scale as nat) {
            NumericOutcome::Value(v) => if within_precision(v, precision) {
                r == Ok::<SqlParam<'a>, ParamError<'a>>(
                    SqlParam::Numeric(Some(NumericValue { value: v as i128, scale })),
                )
            } else {
                is_out_of_range(r, x)
            },
            NumericOutcome::TooManyFractionalDigits => r matches Err(
                ParamError::Numeric(NumericError::TooManyFractionalDigits { text: b, scale: s }),
            ) && b@ == numeric_body(t).1 && s == scale,
            NumericOutcome::InvalidDigits => r matches Err(
                ParamError::Numeric(NumericError::InvalidDigits(d)),
            ) && d@ == numeric_digits(t, scale as nat),
        },
        None => match *value {
            JsonValue::Null => r == Ok::<SqlParam<'a>, ParamError<'a>>(SqlParam::Numeric(None)),
            _ => r == Err::<SqlParam<'a>, ParamError<'a>>(ParamError::ExpectedNumber(value)),
        },
    }
}

/// An integer parameter of the range `lo..=hi`: null is a typed null, an
/// integer in range is bound, an integer out of range is `OutOfRange`, and
/// anything else is `Invalid`.
pub open spec fn integer_result<'a>(
    value: JsonValue,
    x: Seq<char>,
    lo: int,
    hi: int,
    null: SqlParam<'a>,
    bound: SqlParam<'a>,
    r: Result<SqlParam<'a>, ParamError<'a>>,
) -> bool {
    match value {
        JsonValue::Null => r == Ok::<SqlParam<'a>, ParamError<'a>>(null),
        _ => match json_integer(value) {
            Some(n) => if lo <= n <= hi {
                r == Ok::<SqlParam<'a>, ParamError<'a>>(bound)
            } else {
                is_out_of_range(r, x)
            },
            None => is_invalid(r, x),
        },
    }
}

/// What `json_to_param` returns for a value and a declared type.
pub open spec fn param_result<'a>(
    value: &'a JsonValue,
    x: Seq<char>,
    r: Result<SqlParam<'a>, ParamError<'a>>,
) -> bool {
    let base = base_type_of(x);
    let n = json_integer(*value)->0;
    if base == "bit"@ {
        match *value {
            JsonValue::Null => r == Ok::<SqlParam<'a>, ParamError<'a>>(SqlParam::Bit(None)),
            JsonValue::Bool(b) => r == Ok::<SqlParam<'a>, ParamError<'a>>(SqlParam::Bit(Some(b))),
            _ => is_invalid(r, x),
        }
    } else if base == "tinyint"@ {
        integer_result(*value, x, 0, 255, SqlParam::TinyInt(None), SqlParam::TinyInt(Some(n as u8)), r)
    } else if base == "smallint"@ {
        integer_result(*value, x, -32768, 32767, SqlParam::SmallInt(None), SqlParam::SmallInt(Some(n as i16)), r)
    } else if base == "int"@ {
        integer_result(*value, x, -2147483648, 2147483647, SqlParam::Int(None), SqlParam::Int(Some(n as i32)), r)
    } else if base == "bigint"@ {
        integer_result(*value, x, i64::MIN as int, i64::MAX as int, SqlParam::BigInt(None), SqlParam::BigInt(Some(n as i64)), r)
    } else if base == "real"@ {
        match value {
            JsonValue::Null => r == Ok::<SqlParam<'a>, ParamError<'a>>(SqlParam::Real(None)),
            JsonValue::Number(num) => match num {
                JsonNumber::Float(f) => if real_overflows(f.bits) {
                    is_out_of_range(r, x)
                } else {
                    r == Ok::<SqlParam<'a>, ParamError<'a>>(SqlParam::Real(Some(num)))
                },
                _ => r == Ok::<SqlParam<'a>, ParamError<'a>>(SqlParam::Real(Some(num))),
            },
            _ => is_invalid(r, x),
        }
    } else if base == "float"@ {
        match value {
            JsonValue::Null => r == Ok::<SqlParam<'a>, ParamError<'a>>(SqlParam::Float(None)),
            JsonValue::Number(num) => r == Ok::<SqlParam<'a>, ParamError<'a>>(SqlParam::Float(Some(num))),
            _ => is_invalid(r, x),
        }
    } else if is_decimal_base(base) {
        decimal_result(value, x, r)
    } else if base == "uniqueidentifier"@ {
        match *value {
            JsonValue::Null => r == Ok::<SqlParam<'a>, ParamError<'a>>(SqlParam::Guid(None)),
            JsonValue::String(s) => match uuid_parsed(s@) {
                Ok(b) => r matches Ok(SqlParam::Guid(Some(g))) && g@ == b,
                Err(e) => r matches Err(ParamError::Uuid(m)) && m@ == e,
            },
            _ => is_invalid(r, x),
        }
    } else if base == "date"@ {
        match *value {
            JsonValue::Null => r == Ok::<SqlParam<'a>, ParamError<'a>>(SqlParam::Date(None)),
            JsonValue::String(s) => match chrono_date_parsed(s@) {
                Ok(d) => r matches Ok(SqlParam::Date(Some(p))) && date_tuple(p) == d,
                Err(e) => r matches Err(ParamError::Date(m)) && m@ == e,
            },
            _ => is_invalid(r, x),
        }
    } else if base == "time"@ {
        match *value {
            JsonValue::Null => r == Ok::<SqlParam<'a>, ParamError<'a>>(SqlParam::Time(None)),
            JsonValue::String(s) => match time_parsed(s@) {
                Some(t) => r matches Ok(SqlParam::Time(Some(p))) && time_tuple(p) == t,
                None => r matches Err(ParamError::Time(m)) && m@ == s@,
            },
            _ => is_invalid(r, x),
        }
    } else if is_datetime_base(base) {
        match *value {
            JsonValue::Null => r == Ok::<SqlParam<'a>, ParamError<'a>>(SqlParam::DateTime(None)),
            JsonValue::String(s) => match datetime_parsed(s@) {
                Some(dt) => r matches Ok(SqlParam::DateTime(Some(p))) && (date_tuple(p.date),
                time_tuple(p.time)) == dt,
                None => r matches Err(ParamError::DateTime(m)) && m@ == s@,
            },
            _ => is_invalid(r, x),
        }
    } else if base == "datetimeoffset"@ {
        match *value {
            JsonValue::Null => r == Ok::<SqlParam<'a>, ParamError<'a>>(SqlParam::DateTimeOffset(None)),
            JsonValue::String(s) => match chrono_rfc3339_parsed(s@) {
                Ok(o) => r matches Ok(SqlParam::DateTimeOffset(Some(p))) && (date_tuple(p.utc.date),
                time_tuple(p.utc.time), p.offset_seconds as int) == o,
                Err(e) => r matches Err(ParamError::DateTimeOffset(m)) && m@ == e,
            },
            _ => is_invalid(r, x),
        }
    } else if is_binary_base(base) {
        match *value {
            JsonValue::Null => r == Ok::<SqlParam<'a>, ParamError<'a>>(SqlParam::Binary(None)),
            JsonValue::String(s) => match base64_decoded(s@) {
                Ok(b) => r matches Ok(SqlParam::Binary(Some(v))) && v@ == b && base64_standard(b)
                    == s@,
                Err(e) => r matches Err(ParamError::Base64(m)) && m@ == e && forall|t: Seq<u8>|
                    #[trigger] base64_standard(t) != s@,
            },
            _ => is_invalid(r, x),
        }
    } else {
        match *value {
            JsonValue::Null => r == Ok::<SqlParam<'a>, ParamError<'a>>(SqlParam::Text(None)),
            JsonValue::String(s) => r matches Ok(SqlParam::Text(Some(t))) && t@ == s@,
            _ => r == Ok::<SqlParam<'a>, ParamError<'a>>(SqlParam::Rendered(value)),
        }
    }
}

fn within_precision_exec(v: i128, precision: u8) -> (r: bool)
    ensures
        r == within_precision(v as int, precision),
{
    let magnitude: u128 = if v >= 0 {
        v as u128
    } else if v == i128::MIN {
        0x8000_0000_0000_0000_0000_0000_0000_0000
    } else {
        (0i128 - v) as u128
    };
    let digits = u128_digits(magnitude);
    digits.len() <= precision as usize
}

fn parse_decimal<'a>(value: &'a JsonValue, x_sql_type: &str) -> (r: Result<SqlParam<'a>, ParamError<'a>>)
    requires
        is_decimal_base(base_type_of(x_sql_type@)),
        param_defined(*value, x_sql_type@),
    ensures
        decimal_result(value, x_sql_type@, r),
{
    let (precision, scale) = precision_scale(x_sql_type);
    let text = match value {
        JsonValue::Null => {
            return Ok(SqlParam::Numeric(None));
        },
        JsonValue::String(s) => s.clone(),
        JsonValue::Number(n) => string_of(&n.text()),
        _ => {
            return Err(ParamError::ExpectedNumber(value));
        },
    };
    match unscaled_digits(text.as_str(), scale) {
        Ok((neg, unscaled)) => {
            let v: i128 = if neg {
                0i128 - unscaled
            } else {
                unscaled
            };
            if !within_precision_exec(v, precision) {
                return Err(ParamError::OutOfRange(x_sql_type.to_owned()));
            }
            Ok(SqlParam::Numeric(Some(NumericValue { value: v, scale })))
        },
        Err(e) => Err(ParamError::Numeric(e)),
    }
}

/// Tries `%H:%M:%S%.f`, `%H:%M:%S` and `%H:%M` in turn.
pub fn parse_naive_time(s: &str) -> (r: Option<TimeParts>)
    ensures
        match time_parsed(s@) {
            Some(t) => r is Some && time_tuple(r->0) == t,
            None => r is None,
        },
{
    if let Ok(t) = parse_time_with(s, "%H:%M:%S%.f") {
        return Some(t);
    }
    if let Ok(t) = parse_time_with(s, "%H:%M:%S") {
        return Some(t);
    }
    if let Ok(t) = parse_time_with(s, "%H:%M") {
        return Some(t);
    }
    None
}

/// Tries `%Y-%m-%dT%H:%M:%S%.f`, then RFC 3339 (converted to UTC).
pub fn parse_naive_datetime(s: &str) -> (r: Option<DateTimeParts>)
    ensures
        match datetime_parsed(s@) {
            Some(dt) => r is Some && (date_tuple(r->0.date), time_tuple(r->0.time)) == dt,
            None => r is None,
        },
{
    if let Ok(dt) = parse_datetime_with(s, "%Y-%m-%dT%H:%M:%S%.f") {
        return Some(dt);
    }
    if let Ok(o) = parse_rfc3339(s) {
        return Some(o.utc);
    }
    None
}

fn base_is(base: &String, name: &str) -> (r: bool)
    ensures
        r == (base@ == name@),
{
    str_eq(base.as_str(), name)
}

fn json_integer_exec(value: &JsonValue) -> (r: Option<i128>)
    ensures
        match json_integer(*value) {
            Some(n) => r == Some(n as i128),
            None => r is None,
        },
{
    match value {
        JsonValue::Number(JsonNumber::PosInt(n)) => Some(*n as i128),
        JsonValue::Number(JsonNumber::NegInt(n)) => Some(*n as i128),
        _ => None,
    }
}

/// Builds the typed parameter for one argument from its JSON value and
/// declared `x-sql-type` (see `param_result` for every case). Null is a
/// typed null for every type. Integers must be JSON integers within the
/// type's range, `bit` a boolean, `real` and `float` numbers (a `real` with
/// a finite single-precision value); `decimal`-family values are read
/// exactly at the declared scale and must fit the declared precision;
/// UUIDs, dates, times and binary are read from strings. A value of the
/// wrong kind is `Invalid`, a number out of range `OutOfRange`. Any other
/// type is text: a JSON string's contents, or the JSON text of a
/// non-string value.
pub fn json_to_param<'a>(value: &'a JsonValue, x_sql_type: &str) -> (r: Result<
    SqlParam<'a>,
    ParamError<'a>,
>)
    requires
        param_defined(*value, x_sql_type@),
    ensures
        param_result(value, x_sql_type@, r),
{
    let base = base_type(x_sql_type);
    let integer = json_integer_exec(value);
    let is_null = matches!(value, JsonValue::Null);
    if base_is(&base, "bit") {
        match value {
            JsonValue::Null => Ok(SqlParam::Bit(None)),
            JsonValue::Bool(b) => Ok(SqlParam::Bit(Some(*b))),
            _ => Err(ParamError::Invalid(x_sql_type.to_owned())),
        }
    } else if base_is(&base, "tinyint") || base_is(&base, "smallint") || base_is(&base, "int")
        || base_is(&base, "bigint") {
        let (lo, hi): (i128, i128) = if base_is(&base, "tinyint") {
            (0, 255)
        } else if base_is(&base, "smallint") {
            (-32768, 32767)
        } else if base_is(&base, "int") {
            (-2147483648, 2147483647)
        } else {
            (-9223372036854775808, 9223372036854775807)
        };
        let n = match integer {
            Some(n) => n,
            None => {
                if is_null {
                    return Ok(
                        if base_is(&base, "tinyint") {
                            SqlParam::TinyInt(None)
                        } else if base_is(&base, "smallint") {
                            SqlParam::SmallInt(None)
                        } else if base_is(&base, "int") {
                            SqlParam::Int(None)
                        } else {
                            SqlParam::BigInt(None)
                        },
                    );
                }
                return Err(ParamError::Invalid(x_sql_type.to_owned()));
            },
        };
        if n < lo || n > hi {
            return Err(ParamError::OutOfRange(x_sql_type.to_owned()));
        }
        Ok(
            if base_is(&base, "tinyint") {
                SqlParam::TinyInt(Some(n as u8))
            } else if base_is(&base, "smallint") {
                SqlParam::SmallInt(Some(n as i16))
            } else if base_is(&base, "int") {
                SqlParam::Int(Some(n as i32))
            } else {
                SqlParam::BigInt(Some(n as i64))
            },
        )
    } else if base_is(&base, "real") || base_is(&base, "float") {
        let single = base_is(&base, "real");
        match value {
            JsonValue::Null => Ok(
                if single {
                    SqlParam::Real(None)
                } else {
                    SqlParam::Float(None)
                },
            ),
            JsonValue::Number(num) => {
                if single {
                    if let JsonNumber::Float(f) = num {
                        let exponent = (f.bits >> 52u64) & 0x7ffu64;
                        let fraction = f.bits & 0xf_ffff_ffff_ffffu64;
                        if exponent > 1150 || (exponent == 1150 && fraction >= 0xf_ffff_f000_0000u64) {
                            return Err(ParamError::OutOfRange(x_sql_type.to_owned()));
                        }
                    }
                    Ok(SqlParam::Real(Some(num)))
                } else {
                    Ok(SqlParam::Float(Some(num)))
                }
            },
            _ => Err(ParamError::Invalid(x_sql_type.to_owned())),
        }
    } else if base_is(&base, "decimal") || base_is(&base, "numeric") || base_is(&base, "money")
        || base_is(&base, "smallmoney") {
        parse_decimal(value, x_sql_type)
    } else if base_is(&base, "uniqueidentifier") {
        match value {
            JsonValue::Null => Ok(SqlParam::Guid(None)),
            JsonValue::String(s) => match parse_uuid(s.as_str()) {
                Ok(b) => Ok(SqlParam::Guid(Some(b))),
                Err(e) => Err(ParamError::Uuid(e)),
            },
            _ => Err(ParamError::Invalid(x_sql_type.to_owned())),
        }
    } else if base_is(&base, "date") {
        match value {
            JsonValue::Null => Ok(SqlParam::Date(None)),
            JsonValue::String(s) => match parse_iso_date(s.as_str()) {
                Ok(d) => Ok(SqlParam::Date(Some(d))),
                Err(e) => Err(ParamError::Date(e)),
            },
            _ => Err(ParamError::Invalid(x_sql_type.to_owned())),
        }
    } else if base_is(&base, "time") {
        match value {
            JsonValue::Null => Ok(SqlParam::Time(None)),
            JsonValue::String(s) => match parse_naive_time(s.as_str()) {
                Some(t) => Ok(SqlParam::Time(Some(t))),
                None => Err(ParamError::Time(s.clone())),
            },
            _ => Err(ParamError::Invalid(x_sql_type.to_owned())),
        }
    } else if base_is(&base, "datetime") || base_is(&base, "datetime2") || base_is(
        &base,
        "smalldatetime",
    ) {
        match value {
            JsonValue::Null => Ok(SqlParam::DateTime(None)),
            JsonValue::String(s) => match parse_naive_datetime(s.as_str()) {
                Some(dt) => Ok(SqlParam::DateTime(Some(dt))),
                None => Err(ParamError::DateTime(s.clone())),
            },
            _ => Err(ParamError::Invalid(x_sql_type.to_owned())),
        }
    } else if base_is(&base, "datetimeoffset") {
        match value {
            JsonValue::Null => Ok(SqlParam::DateTimeOffset(None)),
            JsonValue::String(s) => match parse_rfc3339(s.as_str()) {
                Ok(o) => Ok(SqlParam::DateTimeOffset(Some(o))),
                Err(e) => Err(ParamError::DateTimeOffset(e)),
            },
            _ => Err(ParamError::Invalid(x_sql_type.to_owned())),
        }
    } else if base_is(&base, "binary") || base_is(&base, "varbinary") || base_is(&base, "image")
        || base_is(&base, "rowversion") || base_is(&base, "timestamp") {
        match value {
            JsonValue::Null => Ok(SqlParam::Binary(None)),
            JsonValue::String(s) => match decode_base64(s.as_str()) {
                Ok(b) => Ok(SqlParam::Binary(Some(b))),
                Err(e) => Err(ParamError::Base64(e)),
            },
            _ => Err(ParamError::Invalid(x_sql_type.to_owned())),
        }
    } else {
        match value {
            JsonValue::Null => Ok(SqlParam::Text(None)),
            JsonValue::String(s) => Ok(SqlParam::Text(Some(s.clone()))),
            _ => Ok(SqlParam::Rendered(value)),
        }
    }
}

/// Whether `json_to_param` may be called on these inputs
/// (`param_defined`): false exactly for a `decimal`-family value whose text
/// denotes the negation of `i128::MIN`, or that is parsed and fits the
/// declared precision while the declared scale is 38 or more.
pub fn param_is_defined(value: &JsonValue, x_sql_type: &str) -> (r: bool)
    ensures
        r == param_defined(*value, x_sql_type@),
{
    let base = base_type(x_sql_type);
    if !(base_is(&base, "decimal") || base_is(&base, "numeric") || base_is(&base, "money")
        || base_is(&base, "smallmoney")) {
        return true;
    }
    let (precision, scale) = precision_scale(x_sql_type);
    let text = match value {
        JsonValue::String(s) => s.clone(),
        JsonValue::Number(n) => string_of(&n.text()),
        _ => {
            return true;
        },
    };
    match unscaled_digits(text.as_str(), scale) {
        Ok((neg, u)) => {
            if neg && u == i128::MIN {
                return false;
            }
            let v: i128 = if neg {
                0i128 - u
            } else {
                u
            };
            !(within_precision_exec(v, precision) && scale >= 38)
        },
        Err(_) => true,
    }
}

/// Whether converting `v` to the type `x` is an error.
pub open spec fn param_fails(v: JsonValue, x: Seq<char>) -> bool {
    let base = base_type_of(x);
    if v is Null {
        false
    } else if base == "bit"@ {
        !(v is Bool)
    } else if base == "tinyint"@ {
        !(json_integer(v) matches Some(n) && 0 <= n <= 255)
    } else if base == "smallint"@ {
        !(json_integer(v) matches Some(n) && -32768 <= n <= 32767)
    } else if base == "int"@ {
        !(json_integer(v) matches Some(n) && -2147483648 <= n <= 2147483647)
    } else if base == "bigint"@ {
        !(json_integer(v) matches Some(n) && i64::MIN <= n <= i64::MAX)
    } else if base == "real"@ {
        match v {
            JsonValue::Number(JsonNumber::Float(f)) => real_overflows(f.bits),
            JsonValue::Number(_) => false,
            _ => true,
        }
    } else if base == "float"@ {
        !(v is Number)
    } else if is_decimal_base(base) {
        let (precision, scale) = precision_scale_of(x);
        match decimal_text(v) {
            Some(t) => !(numeric_outcome(t, scale as nat) matches NumericOutcome::Value(n)
                && within_precision(n, precision)),
            None => true,
        }
    } else if base == "uniqueidentifier"@ {
        match v {
            JsonValue::String(s) => uuid_parsed(s@) is Err,
            _ => true,
        }
    } else if base == "date"@ {
        match v {
            JsonValue::String(s) => chrono_date_parsed(s@) is Err,
            _ => true,
        }
    } else if base == "time"@ {
        match v {
            JsonValue::String(s) => time_parsed(s@) is None,
            _ => true,
        }
    } else if is_datetime_base(base) {
        match v {
            JsonValue::String(s) => datetime_parsed(s@) is None,
            _ => true,
        }
    } else if base == "datetimeoffset"@ {
        match v {
            JsonValue::String(s) => chrono_rfc3339_parsed(s@) is Err,
            _ => true,
        }
    } else if is_binary_base(base) {
        match v {
            JsonValue::String(s) => base64_decoded(s@) is Err,
            _ => true,
        }
    } else {
        false
    }
}

/// The conversion fails exactly on the inputs `param_fails` names.
pub proof fn lemma_param_fails<'a>(v: &'a JsonValue, x: Seq<char>, r: Result<SqlParam<'a>, ParamError<'a>>)
    requires
        param_result(v, x, r),
    ensures
        r is Err <==> param_fails(*v, x),
{
}

/// A `datetime`, `datetime2` or `smalldatetime` argument is read with the
/// ISO format `%Y-%m-%dT%H:%M:%S%.f` first: text that chrono reads that way
/// is bound as exactly that date and time; other text that chrono reads as
/// RFC 3339 is bound as that instant in UTC; any other text is a
/// `DateTime` error naming it.
pub proof fn law_datetime_arguments_are_read_iso_first<'a>(
    value: &'a JsonValue,
    x: Seq<char>,
    r: Result<SqlParam<'a>, ParamError<'a>>,
)
    requires
        param_result(value, x, r),
        base_type_of(x) == "datetime"@ || base_type_of(x) == "datetime2"@ || base_type_of(x)
            == "smalldatetime"@,
    ensures
        match *value {
            JsonValue::String(s) => if chrono_datetime_parsed(s@, "%Y-%m-%dT%H:%M:%S%.f"@) is Ok {
                r matches Ok(SqlParam::DateTime(Some(p))) && (date_tuple(p.date), time_tuple(p.time))
                    == chrono_datetime_parsed(s@, "%Y-%m-%dT%H:%M:%S%.f"@)->Ok_0
            } else if chrono_rfc3339_parsed(s@) is Ok {
                r matches Ok(SqlParam::DateTime(Some(p))) && date_tuple(p.date)
                    == chrono_rfc3339_parsed(s@)->Ok_0.0 && time_tuple(p.time)
                    == chrono_rfc3339_parsed(s@)->Ok_0.1
            } else {
                r matches Err(ParamError::DateTime(m)) && m@ == s@
            },
            _ => true,
        },
{
    reveal_strlit("bit");
    reveal_strlit("tinyint");
    reveal_strlit("smallint");
    reveal_strlit("int");
    reveal_strlit("bigint");
    reveal_strlit("real");
    reveal_strlit("float");
    reveal_strlit("decimal");
    reveal_strlit("numeric");
    reveal_strlit("money");
    reveal_strlit("smallmoney");
    reveal_strlit("uniqueidentifier");
    reveal_strlit("date");
    reveal_strlit("time");
    reveal_strlit("datetime");
    reveal_strlit("datetime2");
    reveal_strlit("smalldatetime");
    // The type names tested before the datetime family differ from it in
    // length, or in their first or fifth character.
    let b = base_type_of(x);
    let others = seq![
        "bit"@, "tinyint"@, "smallint"@, "int"@, "bigint"@, "real"@, "float"@, "decimal"@,
        "numeric"@, "money"@, "smallmoney"@, "uniqueidentifier"@, "date"@, "time"@,
    ];
    assert forall|k: int| 0 <= k < others.len() implies b != #[trigger] others[k] by {
        if b == others[k] {
            assert(b[0] == others[k][0]);
            assert(b.len() == others[k].len());
            assert(b[4] == others[k][4]);
        }
    }
    assert(is_datetime_base(b));
}

/// `parse_naive_datetime` reads the ISO format `%Y-%m-%dT%H:%M:%S%.f`
/// first and gives exactly the date and time chrono reads; only text that
/// format rejects is read as RFC 3339 (taken in UTC), and text both reject
/// gives nothing.
pub proof fn law_naive_datetime_reads_iso_first(s: Seq<char>, r: Option<DateTimeParts>)
    requires
        match datetime_parsed(s) {
            Some(dt) => r is Some && (date_tuple(r->0.date), time_tuple(r->0.time)) == dt,
            None => r is None,
        },
    ensures
        if chrono_datetime_parsed(s, "%Y-%m-%dT%H:%M:%S%.f"@) is Ok {
            r is Some && (date_tuple(r->0.date), time_tuple(r->0.time)) == chrono_datetime_parsed(
                s,
                "%Y-%m-%dT%H:%M:%S%.f"@,
            )->Ok_0
        } else if chrono_rfc3339_parsed(s) is Ok {
            r is Some && date_tuple(r->0.date) == chrono_rfc3339_parsed(s)->Ok_0.0 && time_tuple(
                r->0.time,
            ) == chrono_rfc3339_parsed(s)->Ok_0.1
        } else {
            r is None
        },
{
}

/// `parse_naive_time` tries `%H:%M:%S%.f`, then `%H:%M:%S`, then `%H:%M`,
/// and gives exactly the time chrono reads with the first format that
/// accepts the text; text all three reject gives nothing.
pub proof fn law_naive_time_tries_three_formats(s: Seq<char>, r: Option<TimeParts>)
    requires
        match time_parsed(s) {
            Some(t) => r is Some && time_tuple(r->0) == t,
            None => r is None,
        },
    ensures
        if chrono_time_parsed(s, "%H:%M:%S%.f"@) is Ok {
            r is Some && time_tuple(r->0) == chrono_time_parsed(s, "%H:%M:%S%.f"@)->Ok_0
        } else if chrono_time_parsed(s, "%H:%M:%S"@) is Ok {
            r is Some && time_tuple(r->0) == chrono_time_parsed(s, "%H:%M:%S"@)->Ok_0
        } else if chrono_time_parsed(s, "%H:%M"@) is Ok {
            r is Some && time_tuple(r->0) == chrono_time_parsed(s, "%H:%M"@)->Ok_0
        } else {
            r is None
        },
{
}

/// An integer argument of a `tinyint`, `smallint`, `int` or `bigint`
/// parameter is bound as that same integer exactly when it lies in the
/// type's range (0 to 255, -32768 to 32767, -2147483648 to 2147483647,
/// and the `i64` range), and is an `OutOfRange` error naming the declared
/// type otherwise.
pub proof fn law_integer_arguments_are_checked_against_the_type_range<'a>(
    value: &'a JsonValue,
    x: Seq<char>,
    r: Result<SqlParam<'a>, ParamError<'a>>,
)
    requires
        param_result(value, x, r),
        json_integer(*value) is Some,
    ensures
        ({
            let n = json_integer(*value)->0;
            &&& base_type_of(x) == "tinyint"@ ==> if 0 <= n <= 255 {
                r == Ok::<SqlParam<'a>, ParamError<'a>>(SqlParam::TinyInt(Some(n as u8)))
            } else {
                r matches Err(ParamError::OutOfRange(t)) && t@ == x
            }
            &&& base_type_of(x) == "smallint"@ ==> if -32768 <= n <= 32767 {
                r == Ok::<SqlParam<'a>, ParamError<'a>>(SqlParam::SmallInt(Some(n as i16)))
            } else {
                r matches Err(ParamError::OutOfRange(t)) && t@ == x
            }
            &&& base_type_of(x) == "int"@ ==> if -2147483648 <= n <= 2147483647 {
                r == Ok::<SqlParam<'a>, ParamError<'a>>(SqlParam::Int(Some(n as i32)))
            } else {
                r matches Err(ParamError::OutOfRange(t)) && t@ == x
            }
            &&& base_type_of(x) == "bigint"@ ==> if -9223372036854775808 <= n
                <= 9223372036854775807 {
                r == Ok::<SqlParam<'a>, ParamError<'a>>(SqlParam::BigInt(Some(n as i64)))
            } else {
                r matches Err(ParamError::OutOfRange(t)) && t@ == x
            }
        }),
{
    reveal_strlit("bit");
    reveal_strlit("tinyint");
    reveal_strlit("smallint");
    reveal_strlit("int");
    reveal_strlit("bigint");
    // The integer type names differ from each other and from `bit` in
    // length or in their first character.
    let b = base_type_of(x);
    let names = seq!["bit"@, "tinyint"@, "smallint"@, "int"@, "bigint"@];
    assert forall|i: int, j: int|
        0 <= i < j < names.len() && b == #[trigger] names[j] implies b != #[trigger] names[i] by {
        if b == names[i] {
            assert(names[i][0] == names[j][0]);
            assert(names[i].len() == names[j].len());
        }
    }
}

/// A null argument is accepted for every declared type: it becomes a typed
/// null parameter (never an error).
pub proof fn law_null_is_always_accepted(x: Seq<char>, r: Result<SqlParam, ParamError>)
    requires
        param_result(&JsonValue::Null, x, r),
    ensures
        r is Ok,
{
}

} // verus!
