use sqlserver_mcp::cells::{
    column_data_to_json, rows_to_json, temporal_to_json, CellValue, DateTime2Cell, DateTimeCell,
    DateTimeOffsetCell, SmallDateTimeCell, TimeCell,
};
use sqlserver_mcp::json::{FloatRepr, JsonNumber, JsonValue};
use sqlserver_mcp::numeric::{format_numeric, parse_numeric, NumericError, NumericValue};
use sqlserver_mcp::param::{json_to_param, param_is_defined, ParamError, SqlParam};
use sqlserver_mcp::sql_type::{base_type, precision_scale};

fn text_of(v: &JsonValue) -> String {
    match v {
        JsonValue::String(s) => s.clone(),
        _ => panic!("expected a JSON string"),
    }
}

fn time(increments: u64, scale: u8) -> TimeCell {
    TimeCell { increments, scale }
}

#[test]
fn base_type_strips_length_and_lowercases() {
    assert_eq!(base_type("NVARCHAR(256)"), "nvarchar");
    assert_eq!(base_type("decimal(18,2)"), "decimal");
    assert_eq!(base_type("int"), "int");
}

#[test]
fn precision_scale_parses_both_numbers() {
    assert_eq!(precision_scale("decimal(18,2)"), (18, 2));
    assert_eq!(precision_scale("numeric(38,10)"), (38, 10));
    assert_eq!(precision_scale("decimal"), (18, 0));
}

#[test]
fn parse_numeric_round_trips_a_negative_decimal() {
    let n = parse_numeric("-123.45", 2).ok().unwrap();
    assert_eq!(format_numeric(n), "-123.45");
}

#[test]
fn parse_numeric_pads_missing_fractional_digits() {
    let n = parse_numeric("5", 2).ok().unwrap();
    assert_eq!(format_numeric(n), "5.00");
}

#[test]
fn parse_numeric_rejects_too_many_fractional_digits() {
    assert!(parse_numeric("1.2345", 2).is_err());
}

#[test]
fn format_numeric_handles_zero_and_positive_values() {
    assert_eq!(format_numeric(parse_numeric("0", 2).ok().unwrap()), "0.00");
    assert_eq!(format_numeric(parse_numeric("7.5", 2).ok().unwrap()), "7.50");
    assert_eq!(format_numeric(parse_numeric("-0.01", 2).ok().unwrap()), "-0.01");
}

#[test]
fn json_to_param_handles_int_and_string() {
    assert!(json_to_param(&JsonValue::Number(JsonNumber::PosInt(42)), "int").is_ok());
    assert!(json_to_param(&JsonValue::String("hello".to_string()), "nvarchar(50)").is_ok());
    assert!(json_to_param(&JsonValue::Null, "int").is_ok());
}

// ---------------------------------------------------------------------------
// Further cases

#[test]
fn parse_numeric_reports_each_error() {
    match parse_numeric(" +1.2345 ", 2) {
        Err(NumericError::TooManyFractionalDigits { text, scale }) => {
            assert_eq!(text, "1.2345");
            assert_eq!(scale, 2);
        }
        _ => panic!("expected too many fractional digits"),
    }
    match parse_numeric("12x", 0) {
        Err(NumericError::InvalidDigits(d)) => assert_eq!(d, "12x"),
        _ => panic!("expected invalid digits"),
    }
    let n = parse_numeric("", 3).ok().unwrap();
    assert_eq!((n.value, n.scale), (0, 3));
}

#[test]
fn numeric_text_round_trips() {
    for (text, scale) in [("0", 0u8), ("-1", 0), ("123.4500", 4), ("-0.5", 1), ("99999999999999999999", 5)] {
        let n = parse_numeric(text, scale).ok().unwrap();
        let again = parse_numeric(&format_numeric(NumericValue { value: n.value, scale: n.scale }), scale)
            .ok()
            .unwrap();
        assert_eq!(again.value, n.value);
    }
}

#[test]
fn json_to_param_converts_each_declared_type() {
    let num = |n: u64| JsonValue::Number(JsonNumber::PosInt(n));
    let s = |t: &str| JsonValue::String(t.to_string());
    assert!(matches!(json_to_param(&JsonValue::Bool(true), "bit"), Ok(SqlParam::Bit(Some(true)))));
    assert!(matches!(json_to_param(&num(255), "tinyint"), Ok(SqlParam::TinyInt(Some(255)))));
    assert!(matches!(json_to_param(&num(300), "tinyint"), Err(ParamError::OutOfRange(_))));
    assert!(matches!(json_to_param(&num(70000), "smallint"), Err(ParamError::OutOfRange(_))));
    assert!(matches!(json_to_param(&s("12"), "int"), Err(ParamError::Invalid(_))));
    assert!(matches!(json_to_param(&JsonValue::Number(JsonNumber::NegInt(-5)), "bigint"), Ok(SqlParam::BigInt(Some(-5)))));
    match json_to_param(&num(12), "decimal(10,2)") {
        Ok(SqlParam::Numeric(Some(n))) => assert_eq!((n.value, n.scale), (1200, 2)),
        _ => panic!("expected a numeric"),
    }
    assert!(matches!(json_to_param(&JsonValue::Bool(false), "money"), Err(ParamError::ExpectedNumber(_))));
    match json_to_param(&s("67e55044-10b1-426f-9247-bb680e5fe0c8"), "uniqueidentifier") {
        Ok(SqlParam::Guid(Some(g))) => assert_eq!(g[0], 0x67),
        _ => panic!("expected a guid"),
    }
    assert!(matches!(json_to_param(&s("nope"), "uniqueidentifier"), Err(ParamError::Uuid(_))));
    match json_to_param(&s("2024-02-29"), "date") {
        Ok(SqlParam::Date(Some(d))) => assert_eq!((d.year, d.month, d.day), (2024, 2, 29)),
        _ => panic!("expected a date"),
    }
    assert!(matches!(json_to_param(&s("2023-02-29"), "date"), Err(ParamError::Date(_))));
    match json_to_param(&s("13:45"), "time(7)") {
        Ok(SqlParam::Time(Some(t))) => assert_eq!((t.hour, t.minute, t.second), (13, 45, 0)),
        _ => panic!("expected a time"),
    }
    assert!(matches!(json_to_param(&s("25:00"), "time"), Err(ParamError::Time(_))));
    match json_to_param(&s("2024-01-02T03:04:05+02:00"), "datetime2") {
        Ok(SqlParam::DateTime(Some(dt))) => {
            assert_eq!((dt.date.day, dt.time.hour), (2, 1));
        }
        _ => panic!("expected a datetime"),
    }
    match json_to_param(&s("2024-01-02T03:04:05-01:30"), "datetimeoffset") {
        Ok(SqlParam::DateTimeOffset(Some(o))) => assert_eq!(o.offset_seconds, -5400),
        _ => panic!("expected a datetimeoffset"),
    }
    match json_to_param(&s("AAEC"), "varbinary(max)") {
        Ok(SqlParam::Binary(Some(b))) => assert_eq!(b, vec![0, 1, 2]),
        _ => panic!("expected binary"),
    }
    assert!(matches!(json_to_param(&s("***"), "image"), Err(ParamError::Base64(_))));
    assert!(matches!(json_to_param(&JsonValue::Bool(true), "xml"), Ok(SqlParam::Rendered(_))));
    assert!(matches!(json_to_param(&JsonValue::Null, "varchar(10)"), Ok(SqlParam::Text(None))));
}

#[test]
fn a_null_argument_is_accepted_for_every_type() {
    for t in ["bit", "tinyint", "decimal(5,2)", "uniqueidentifier", "date", "time", "datetime",
              "datetimeoffset", "binary(4)", "nvarchar(10)"] {
        assert!(json_to_param(&JsonValue::Null, t).is_ok());
    }
}

#[test]
fn param_is_defined_rejects_a_scale_of_38() {
    assert!(!param_is_defined(&JsonValue::String("0".to_string()), "decimal(38,38)"));
    assert!(param_is_defined(&JsonValue::String("1".to_string()), "decimal(38,38)"));
    assert!(param_is_defined(&JsonValue::String("x".to_string()), "decimal(38,38)"));
    assert!(param_is_defined(&JsonValue::Null, "decimal(38,38)"));
    assert!(param_is_defined(&JsonValue::String("1".to_string()), "decimal(38,37)"));
    assert!(param_is_defined(&JsonValue::String("1".to_string()), "int"));
}

#[test]
fn cells_become_json_numbers_strings_and_nulls() {
    assert!(matches!(column_data_to_json(&CellValue::I16(Some(-3))), JsonValue::Number(JsonNumber::NegInt(-3))));
    assert!(matches!(column_data_to_json(&CellValue::I64(Some(7))), JsonValue::Number(JsonNumber::PosInt(7))));
    assert!(matches!(column_data_to_json(&CellValue::U8(None)), JsonValue::Null));
    assert!(matches!(column_data_to_json(&CellValue::Bit(Some(true))), JsonValue::Bool(true)));
    let f = 1.5f64;
    let finite = CellValue::F64(Some(FloatRepr { bits: f.to_bits(), text: "1.5".to_string() }));
    assert!(matches!(column_data_to_json(&finite), JsonValue::Number(JsonNumber::Float(_))));
    let nan = f64::NAN;
    let not_finite = CellValue::F32(Some(FloatRepr { bits: nan.to_bits(), text: "NaN".to_string() }));
    assert!(matches!(column_data_to_json(&not_finite), JsonValue::Null));
    let numeric = CellValue::Numeric(Some(NumericValue { value: -12345, scale: 2 }));
    assert_eq!(text_of(&column_data_to_json(&numeric)), "-123.45");
    let guid = uuid::Uuid::parse_str("67E55044-10B1-426F-9247-BB680E5FE0C8").unwrap();
    let cell = CellValue::Guid(Some(*guid.as_bytes()));
    assert_eq!(text_of(&column_data_to_json(&cell)), "67e55044-10b1-426f-9247-bb680e5fe0c8");
    let cell = CellValue::Binary(Some(vec![0, 1, 2]));
    assert_eq!(text_of(&column_data_to_json(&cell)), "AAEC");
    let cell = CellValue::Xml(Some("<a/>".to_string()));
    assert_eq!(text_of(&column_data_to_json(&cell)), "<a/>");
    assert!(matches!(column_data_to_json(&CellValue::DateTime2(None)), JsonValue::Null));
}

#[test]
fn temporal_cells_are_rendered_like_chrono() {
    let date = CellValue::Date(Some(738_885));
    assert_eq!(text_of(&temporal_to_json(&date)), "2024-01-01");
    let t = CellValue::Time(Some(time(452_961_234_567, 7)));
    assert_eq!(text_of(&temporal_to_json(&t)), "12:34:56.123456700");
    let t = CellValue::Time(Some(time(45_296_500, 3)));
    assert_eq!(text_of(&temporal_to_json(&t)), "12:34:56.500");
    let t = CellValue::Time(Some(time(45_296, 0)));
    assert_eq!(text_of(&temporal_to_json(&t)), "12:34:56");
    let s = CellValue::SmallDateTime(Some(SmallDateTimeCell { days: 1, minutes: 61 }));
    assert_eq!(text_of(&temporal_to_json(&s)), "1900-01-02T01:01:00");
    let d = CellValue::DateTime(Some(DateTimeCell { days: 0, fragments: 450 }));
    assert_eq!(text_of(&temporal_to_json(&d)), "1900-01-01T00:00:01.500");
    let d2 = CellValue::DateTime2(Some(DateTime2Cell { days: 0, time: time(10, 6) }));
    assert_eq!(text_of(&temporal_to_json(&d2)), "0001-01-01T00:00:00.000010");
    let o = CellValue::DateTimeOffset(Some(DateTimeOffsetCell {
        datetime: DateTime2Cell { days: 738_885, time: time(23 * 3600 + 30 * 60, 0) },
        offset_minutes: 60,
    }));
    assert_eq!(text_of(&temporal_to_json(&o)), "2024-01-02T00:30:00+01:00");
    let o = CellValue::DateTimeOffset(Some(DateTimeOffsetCell {
        datetime: DateTime2Cell { days: 738_885, time: time(0, 0) },
        offset_minutes: -90,
    }));
    assert_eq!(text_of(&temporal_to_json(&o)), "2023-12-31T22:30:00-01:30");
    assert!(matches!(temporal_to_json(&CellValue::I32(Some(1))), JsonValue::Null));
}

#[test]
fn rows_become_objects_keyed_by_column_name() {
    let rows = vec![
        vec![("id".to_string(), CellValue::I32(Some(1))), ("name".to_string(), CellValue::String(Some("a".to_string())))],
        vec![("id".to_string(), CellValue::I32(None)), ("id".to_string(), CellValue::I32(Some(2)))],
    ];
    let objects = rows_to_json(&rows);
    assert_eq!(objects.len(), 2);
    assert!(matches!(objects[0].get("id"), Some(JsonValue::Number(JsonNumber::PosInt(1)))));
    assert_eq!(text_of(objects[0].get("name").unwrap()), "a");
    assert_eq!(objects[1].entries.len(), 1);
    assert!(matches!(objects[1].get("id"), Some(JsonValue::Number(JsonNumber::PosInt(2)))));
}

#[test]
fn binary_cells_use_padded_standard_base64() {
    let encode = |b: &[u8]| text_of(&column_data_to_json(&CellValue::Binary(Some(b.to_vec()))));
    assert_eq!(encode(b""), "");
    assert_eq!(encode(&[0xff]), "/w==");
    assert_eq!(encode(&[0xff, 0xfe]), "//4=");
    assert_eq!(encode(b"Man"), "TWFu");
    assert_eq!(encode(b"Many hands"), "TWFueSBoYW5kcw==");
}

#[test]
fn out_of_range_and_invalid_values_are_rejected() {
    let num = |n: u64| JsonValue::Number(JsonNumber::PosInt(n));
    let s = |t: &str| JsonValue::String(t.to_string());
    assert!(json_to_param(&num(300), "tinyint").is_err());
    assert!(json_to_param(&num(3_000_000_000), "int").is_err());
    assert!(json_to_param(&num(u64::MAX), "bigint").is_err());
    assert!(matches!(json_to_param(&JsonValue::Number(JsonNumber::NegInt(-1)), "tinyint"), Err(ParamError::OutOfRange(_))));
    assert!(json_to_param(&s("abc"), "int").is_err());
    assert!(json_to_param(&s("yes"), "bit").is_err());
    let half = 0.5f64;
    let fraction = JsonValue::Number(JsonNumber::Float(FloatRepr { bits: half.to_bits(), text: "0.5".to_string() }));
    assert!(matches!(json_to_param(&fraction, "int"), Err(ParamError::Invalid(_))));
    assert!(matches!(json_to_param(&fraction, "real"), Ok(SqlParam::Real(Some(_)))));
    let huge = 1e39f64;
    let huge = JsonValue::Number(JsonNumber::Float(FloatRepr { bits: huge.to_bits(), text: "1e39".to_string() }));
    assert!(matches!(json_to_param(&huge, "real"), Err(ParamError::OutOfRange(_))));
    assert!(matches!(json_to_param(&huge, "float"), Ok(SqlParam::Float(Some(_)))));
    let edge = (f32::MAX as f64) + 2f64.powi(102);
    let edge = JsonValue::Number(JsonNumber::Float(FloatRepr { bits: edge.to_bits(), text: String::new() }));
    assert!(matches!(json_to_param(&edge, "real"), Ok(_)));
    assert!(matches!(json_to_param(&s("true"), "real"), Err(ParamError::Invalid(_))));
    assert!(matches!(json_to_param(&JsonValue::Bool(true), "uniqueidentifier"), Err(ParamError::Invalid(_))));
    assert!(matches!(json_to_param(&num(5), "date"), Err(ParamError::Invalid(_))));
    assert!(matches!(json_to_param(&s("12345.6"), "decimal(5,1)"), Err(ParamError::OutOfRange(_))));
    assert!(matches!(json_to_param(&s("1234.5"), "decimal(5,1)"), Ok(SqlParam::Numeric(Some(_)))));
    match json_to_param(&s("x"), "int") {
        Err(e) => assert_eq!(e.message(), "value is not valid for SQL type 'int'"),
        Ok(_) => panic!("expected an error"),
    }
}

#[test]
fn the_earliest_datetime_chrono_holds_is_rendered() {
    let first = CellValue::DateTime(Some(DateTimeCell { days: -96_439_725, fragments: 0 }));
    assert!(sqlserver_mcp::cells::cell_is_defined(&first));
    assert_eq!(text_of(&temporal_to_json(&first)), "-262143-01-01T00:00:00");
    let before = CellValue::DateTime(Some(DateTimeCell { days: -96_439_726, fragments: 0 }));
    assert!(!sqlserver_mcp::cells::cell_is_defined(&before));
    let last = CellValue::DateTime(Some(DateTimeCell { days: 95_051_803, fragments: 0 }));
    assert_eq!(text_of(&temporal_to_json(&last)), "+262142-12-31T00:00:00");
}
