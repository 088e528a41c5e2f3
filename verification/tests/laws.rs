use sqlserver_mcp::ident::{parse_path, quote_ident};
use sqlserver_mcp::json::{JsonNumber, JsonObject, JsonValue};
use sqlserver_mcp::numeric::{format_numeric, parse_numeric, NumericValue};
use sqlserver_mcp::sql_type::{base_type, precision_scale};
use sqlserver_mcp::statement::ordered_params;

fn object(pairs: Vec<(&str, JsonValue)>) -> JsonValue {
    let mut obj = JsonObject::new();
    for (k, v) in pairs {
        obj.insert(k.to_string(), v);
    }
    JsonValue::Object(obj)
}

fn declared(ordinal: u64) -> JsonValue {
    object(vec![
        ("x-sql-ordinal", JsonValue::Number(JsonNumber::PosInt(ordinal))),
        ("x-sql-type", JsonValue::String("int".to_string())),
    ])
}

#[test]
fn quoting_keeps_distinct_identifiers_distinct() {
    assert_ne!(quote_ident("a]b"), quote_ident("a]]b"));
    assert_eq!(quote_ident("a]b"), "[a]]b]");
    assert_eq!(quote_ident("sp_who2"), "[sp_who2]");
}

#[test]
fn a_built_path_splits_back_into_its_parts() {
    for (schema, name) in [("sys", "objects"), ("INFORMATION_SCHEMA", "TABLES"), ("a1", "_b")] {
        let path = format!("/{schema}/{name}");
        assert_eq!(parse_path(&path).ok().unwrap(), (schema, name));
    }
    assert_eq!(parse_path("///sys/objects").ok().unwrap(), ("sys", "objects"));
}

#[test]
fn parameters_are_sorted_stably_by_ordinal() {
    let props = object(vec![
        ("c", declared(2)),
        ("a", declared(1)),
        ("execution_database", object(vec![])),
        ("b", declared(2)),
        ("z", declared(0)),
    ]);
    let schema = object(vec![(
        "properties",
        object(vec![("body", object(vec![("properties", props)]))]),
    )]);
    let names: Vec<String> = ordered_params(&schema).into_iter().map(|p| p.name).collect();
    assert_eq!(names, vec!["z", "a", "c", "b"]);
}

#[test]
fn a_decimal_round_trips_through_its_text() {
    for value in [0i128, 1, -1, 12345, -1234567890123456789, i128::MAX] {
        for scale in [0u8, 2, 5] {
            let text = format_numeric(NumericValue { value, scale });
            let back = parse_numeric(&text, scale).ok().unwrap();
            assert_eq!((back.value, back.scale), (value, scale));
        }
    }
}

#[test]
fn base_type_is_idempotent() {
    for t in ["NVARCHAR(256)", " Decimal (18, 2)", "int", "DATETIME2(7)"] {
        let once = base_type(t);
        assert_eq!(base_type(&once), once);
    }
}

#[test]
fn precision_and_scale_fall_back_to_the_defaults() {
    assert_eq!(precision_scale("decimal( 9 , 4 )"), (9, 4));
    assert_eq!(precision_scale("decimal(9)"), (9, 0));
    assert_eq!(precision_scale("decimal(x,y)"), (18, 0));
    assert_eq!(precision_scale("decimal(9,4"), (18, 0));
}
