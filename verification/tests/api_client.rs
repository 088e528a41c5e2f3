use sqlserver_mcp::api_client::{
    check_read_only, classify_tiberius_error, operation_allowed, ApiClient, DriverError,
    FailureCategory,
};
use sqlserver_mcp::config::{AuthMethod, Config, Transport};
use sqlserver_mcp::errors::ApiError;
use sqlserver_mcp::ident::{parse_path, quote_ident, validate_ident};
use sqlserver_mcp::json::{FloatRepr, JsonNumber, JsonObject, JsonValue};
use sqlserver_mcp::param::SqlParam;
use sqlserver_mcp::statement::{
    build_statement, ordered_params, resolve_execution_database, Param,
};

fn to_json(v: &serde_json::Value) -> JsonValue {
    match v {
        serde_json::Value::Null => JsonValue::Null,
        serde_json::Value::Bool(b) => JsonValue::Bool(*b),
        serde_json::Value::Number(n) => {
            if let Some(u) = n.as_u64() {
                JsonValue::Number(JsonNumber::PosInt(u))
            } else if let Some(i) = n.as_i64() {
                JsonValue::Number(JsonNumber::NegInt(i))
            } else {
                let f = n.as_f64().unwrap();
                JsonValue::Number(JsonNumber::Float(FloatRepr { bits: f.to_bits(), text: n.to_string() }))
            }
        }
        serde_json::Value::String(s) => JsonValue::String(s.clone()),
        serde_json::Value::Array(a) => JsonValue::Array(a.iter().map(to_json).collect()),
        serde_json::Value::Object(o) => {
            let mut obj = JsonObject::new();
            for (k, v) in o {
                obj.insert(k.clone(), to_json(v));
            }
            JsonValue::Object(obj)
        }
    }
}

fn parse(text: &str) -> JsonValue {
    to_json(&serde_json::from_str::<serde_json::Value>(text).unwrap())
}

fn object(pairs: Vec<(&str, JsonValue)>) -> JsonObject {
    let mut obj = JsonObject::new();
    for (k, v) in pairs {
        obj.insert(k.to_string(), v);
    }
    obj
}

fn string(s: &str) -> JsonValue {
    JsonValue::String(s.to_string())
}

fn test_config() -> Config {
    Config {
        url: "localhost".to_string(),
        auth_method: AuthMethod::SqlServer,
        sql_port: 1433,
        pool_max_size: 10,
        trust_server_cert: true,
        api_version: "2025".to_string(),
        log_level: "info".to_string(),
        rate_limit: 100,
        timeout_ms: 30_000,
        cache_size: 500,
        retry_attempts: 3,
        transport: Transport::Stdio,
        host: "127.0.0.1".to_string(),
        port: 3000,
        cors_allow: None,
        default_database: None,
    }
}

fn param(name: &str, ordinal: u64, x_sql_type: &str) -> Param {
    Param { name: name.to_string(), ordinal, x_sql_type: x_sql_type.to_string() }
}

#[test]
fn parse_path_splits_schema_name() {
    assert_eq!(
        parse_path("/INFORMATION_SCHEMA/COLUMNS").ok().unwrap(),
        ("INFORMATION_SCHEMA", "COLUMNS")
    );
}

#[test]
fn parse_path_rejects_a_path_with_too_few_segments() {
    assert!(parse_path("/COLUMNS").is_err());
}

#[test]
fn quote_ident_doubles_embedded_closing_brackets() {
    assert_eq!(quote_ident("weird]name"), "[weird]]name]");
}

#[test]
fn validate_ident_accepts_alphanumeric_and_underscore() {
    assert!(validate_ident("sp_who2").is_ok());
    assert!(validate_ident("INFORMATION_SCHEMA").is_ok());
}

#[test]
fn validate_ident_rejects_anything_else() {
    assert!(validate_ident("").is_err());
    assert!(validate_ident("robert'; drop table endpoints;--").is_err());
    assert!(validate_ident("weird]name").is_err());
    assert!(validate_ident("has space").is_err());
}

#[test]
fn parse_path_rejects_a_path_with_an_unsafe_segment() {
    assert!(parse_path("/sys/sp_who; DROP TABLE endpoints--").is_err());
}

#[test]
fn build_statement_selects_from_a_view_with_no_parameters() {
    let body = JsonObject::new();
    let (sql, bound) = build_statement("INFORMATION_SCHEMA", "COLUMNS", Some("VIEW"), &[], &body, None)
        .ok()
        .unwrap();
    assert_eq!(sql, "SELECT * FROM [INFORMATION_SCHEMA].[COLUMNS]");
    assert!(bound.is_empty());
}

#[test]
fn build_statement_execs_a_proc_with_named_parameters() {
    let params = vec![param("objname", 1, "nvarchar(1035)"), param("newname", 2, "sysname")];
    let body = object(vec![("objname", string("t1")), ("newname", string("t2"))]);
    let (sql, bound) = build_statement(
        "sys",
        "sp_rename",
        Some("SQL_STORED_PROCEDURE"),
        &params,
        &body,
        Some("master"),
    )
    .ok()
    .unwrap();
    assert_eq!(sql, "EXEC [master].[sys].[sp_rename] @objname = @P1, @newname = @P2");
    assert_eq!(bound.len(), 2);
}

#[test]
fn build_statement_uses_at_prefixed_names_not_bracket_quoting_for_named_exec_arguments() {
    let params = vec![param("table_name", 1, "nvarchar(384)")];
    let body = object(vec![("table_name", string("databases"))]);
    let (sql, _bound) = build_statement(
        "sys",
        "sp_columns",
        Some("SQL_STORED_PROCEDURE"),
        &params,
        &body,
        None,
    )
    .ok()
    .unwrap();
    assert_eq!(sql, "EXEC [sys].[sp_columns] @table_name = @P1");
    assert!(!sql.contains("[table_name]"));
}

#[test]
fn build_statement_selects_from_a_function_with_positional_placeholders() {
    let params = vec![param("session_id", 1, "smallint")];
    let body = object(vec![("session_id", JsonValue::Number(JsonNumber::PosInt(52)))]);
    let (sql, bound) = build_statement(
        "sys",
        "dm_exec_sql_text",
        Some("SQL_INLINE_TABLE_VALUED_FUNCTION"),
        &params,
        &body,
        Some("master"),
    )
    .ok()
    .unwrap();
    assert_eq!(sql, "SELECT * FROM [master].[sys].[dm_exec_sql_text](@P1)");
    assert_eq!(bound.len(), 1);
}

#[test]
fn build_statement_omits_the_database_qualifier_by_default() {
    let body = JsonObject::new();
    let (sql, bound) =
        build_statement("dbo", "widgets", Some("VIEW"), &[], &body, None).ok().unwrap();
    assert_eq!(sql, "SELECT * FROM [dbo].[widgets]");
    assert!(bound.is_empty());
}

#[test]
fn build_statement_three_part_qualifies_with_a_requested_execution_database() {
    let body = JsonObject::new();
    let (sql, bound) =
        build_statement("dbo", "widgets", Some("VIEW"), &[], &body, Some("reporting"))
            .ok()
            .unwrap();
    assert_eq!(sql, "SELECT * FROM [reporting].[dbo].[widgets]");
    assert!(bound.is_empty());
}

#[test]
fn build_statement_execs_a_parameterless_proc() {
    let body = JsonObject::new();
    let (sql, bound) =
        build_statement("sys", "sp_who", Some("SQL_STORED_PROCEDURE"), &[], &body, None)
            .ok()
            .unwrap();
    assert_eq!(sql, "EXEC [sys].[sp_who]");
    assert!(bound.is_empty());
}

#[test]
fn ordered_params_excludes_the_synthetic_execution_database_property() {
    let schema = parse(
        r##"{
            "properties": { "body": { "$ref": "#/$defs/sys_sp_who_Request" } },
            "$defs": {
                "sys_sp_who_Request": {
                    "properties": {
                        "loginame": { "x-sql-ordinal": 1, "x-sql-type": "sysname" },
                        "execution_database": { "type": "string" }
                    }
                }
            }
        }"##,
    );
    let params = ordered_params(&schema);
    assert_eq!(params.len(), 1);
    assert_eq!(params[0].name, "loginame");
}

#[test]
fn resolve_execution_database_prefers_the_body_property_over_the_configured_default() {
    let body = object(vec![("execution_database", string("reporting"))]);
    let mut config = test_config();
    config.default_database = Some("fallback".to_string());
    assert_eq!(
        resolve_execution_database(&body, &config).ok().unwrap().as_deref(),
        Some("reporting")
    );
}

#[test]
fn resolve_execution_database_falls_back_to_the_configured_default() {
    let mut config = test_config();
    config.default_database = Some("fallback".to_string());
    assert_eq!(
        resolve_execution_database(&JsonObject::new(), &config).ok().unwrap().as_deref(),
        Some("fallback")
    );
}

#[test]
fn resolve_execution_database_is_none_when_nothing_is_configured_or_supplied() {
    assert_eq!(resolve_execution_database(&JsonObject::new(), &test_config()).ok().unwrap(), None);
}

#[test]
fn ordered_params_follow_the_schema_ordinals() {
    let schema = parse(
        r##"{
            "properties": { "body": { "$ref": "#/$defs/sys_example_Request" } },
            "$defs": {
                "sys_example_Request": {
                    "properties": {
                        "second": { "x-sql-ordinal": 2, "x-sql-type": "int" },
                        "first": { "x-sql-ordinal": 1, "x-sql-type": "nvarchar(20)" }
                    }
                }
            }
        }"##,
    );
    let params = ordered_params(&schema);
    assert_eq!(params.len(), 2);
    assert_eq!(params[0].name, "first");
    assert_eq!(params[0].x_sql_type, "nvarchar(20)");
    assert_eq!(params[1].name, "second");
}

#[test]
fn ordered_params_resolves_the_body_ref_wrapper() {
    let schema = parse(
        r##"{
            "properties": { "body": { "$ref": "#/$defs/sys_sp_columns_Request" } },
            "$defs": {
                "sys_sp_columns_Request": {
                    "properties": {
                        "table_name": { "x-sql-ordinal": 1, "x-sql-type": "nvarchar(384)" },
                        "table_owner": { "x-sql-ordinal": 2, "x-sql-type": "nvarchar(384)" }
                    }
                }
            }
        }"##,
    );
    let params = ordered_params(&schema);
    assert_eq!(params.len(), 2);
    assert_eq!(params[0].name, "table_name");
    assert_eq!(params[1].name, "table_owner");
    assert!(params.iter().all(|p| p.name != "body"));
}

#[test]
fn ordered_params_resolves_an_inline_body_without_a_ref() {
    let schema = parse(
        r#"{
            "properties": {
                "body": {
                    "properties": {
                        "only": { "x-sql-ordinal": 1, "x-sql-type": "int" }
                    }
                }
            }
        }"#,
    );
    let params = ordered_params(&schema);
    assert_eq!(params.len(), 1);
    assert_eq!(params[0].name, "only");
}

#[test]
fn ordered_params_is_empty_for_a_schema_with_no_body_property() {
    let schema = parse(r#"{ "properties": {} }"#);
    assert!(ordered_params(&schema).is_empty());
}

#[test]
fn build_statement_rejects_an_unsafe_parameter_name() {
    let params = vec![param("unsafe name", 1, "int")];
    let body = JsonObject::new();
    assert!(build_statement(
        "sys",
        "sp_example",
        Some("SQL_STORED_PROCEDURE"),
        &params,
        &body,
        None,
    )
    .is_err());
}

#[test]
fn protocol_errors_are_classified_as_server_failures() {
    let driver = tiberius::error::Error::Protocol("invalid packet".into());
    let error = classify_tiberius_error(&DriverError::Other { description: driver.to_string() });
    assert_eq!(
        error.to_string(),
        "SQL Server connection/protocol error (500-equivalent): Protocol error: invalid packet"
    );
}

// ---------------------------------------------------------------------------
// Further cases

#[test]
fn server_errors_are_split_by_severity() {
    let server = |class: u8| DriverError::Server {
        number: 208,
        state: 1,
        class,
        message: "Invalid object name 'x'.".to_string(),
        procedure: "".to_string(),
        line: 1,
    };
    let statement = classify_tiberius_error(&server(16));
    assert!(statement.category == FailureCategory::Statement);
    assert_eq!(
        statement.to_string(),
        "SQL Server error 208 (severity 16, state 1) in '' line 1: Invalid object name 'x'. [statement/user error (400-equivalent)]"
    );
    let other_severity_14 = classify_tiberius_error(&server(14));
    assert!(other_severity_14.category == FailureCategory::Statement);
    assert!(other_severity_14.to_string().ends_with("[statement/user error (400-equivalent)]"));
    for number in [229u32, 230] {
        let permission = classify_tiberius_error(&DriverError::Server {
            number,
            state: 1,
            class: 14,
            message: "The SELECT permission was denied on the object 'x'.".to_string(),
            procedure: "".to_string(),
            line: 1,
        });
        assert!(permission.category == FailureCategory::PermissionDenied);
        assert!(permission.to_string().ends_with("[permission denied (403-equivalent)]"));
    }
    let fatal = classify_tiberius_error(&server(17));
    assert!(fatal.category == FailureCategory::Fatal);
    assert!(fatal.to_string().ends_with("[fatal/resource error (500-equivalent)]"));
    let connection = classify_tiberius_error(&DriverError::Other { description: "x".to_string() });
    assert!(connection.category == FailureCategory::Connection);
}

#[test]
fn resolve_execution_database_rejects_a_non_string_or_unsafe_database() {
    let body = object(vec![("execution_database", JsonValue::Bool(true))]);
    assert!(matches!(
        resolve_execution_database(&body, &test_config()),
        Err(ApiError::ExecutionDatabaseNotString)
    ));
    let body = object(vec![("execution_database", string("bad name"))]);
    match resolve_execution_database(&body, &test_config()) {
        Err(ApiError::InvalidIdentifier(t)) => assert_eq!(t, "bad name"),
        _ => panic!("expected an invalid identifier"),
    }
}

#[test]
fn build_statement_binds_missing_arguments_as_null_and_rejects_bad_ones() {
    let params = vec![param("n", 1, "int"), param("d", 2, "decimal(10,2)")];
    let body = JsonObject::new();
    let (sql, bound) =
        build_statement("dbo", "f", Some("SQL_SCALAR_FUNCTION"), &params, &body, None)
            .ok()
            .unwrap();
    assert_eq!(sql, "SELECT [dbo].[f](@P1, @P2)");
    assert!(matches!(bound[0], SqlParam::Int(None)));
    assert!(matches!(bound[1], SqlParam::Numeric(None)));
    let body = object(vec![("d", string("1.234"))]);
    assert!(matches!(
        build_statement("dbo", "f", Some("SQL_SCALAR_FUNCTION"), &params, &body, None),
        Err(ApiError::Param(_))
    ));
}

#[test]
fn prepare_builds_the_statement_for_a_call() {
    let mut config = test_config();
    config.default_database = Some("master".to_string());
    let client = ApiClient::new(config);
    let schema = parse(
        r##"{
            "properties": { "body": { "$ref": "#/$defs/r" } },
            "$defs": { "r": { "properties": {
                "loginame": { "x-sql-ordinal": 1, "x-sql-type": "sysname" }
            } } }
        }"##,
    );
    let args = parse(r#"{ "body": { "loginame": "sa" } }"#);
    assert!(client.prepare_is_defined("/sys/sp_who", Some("SQL_STORED_PROCEDURE"), Some(&schema), &args));
    let (sql, bound) = client
        .prepare("/sys/sp_who", "sys_sp_who", Some("SQL_STORED_PROCEDURE"), Some(&schema), &args)
        .ok()
        .unwrap();
    assert_eq!(sql, "EXEC [master].[sys].[sp_who] @loginame = @P1");
    assert!(matches!(&bound[0], SqlParam::Text(Some(s)) if s == "sa"));
    match client.prepare("/sys/sp_who", "sys_sp_who", None, None, &args) {
        Err(ApiError::NoResolvedSchema { operation_id, api_version }) => {
            assert_eq!(operation_id, "sys_sp_who");
            assert_eq!(api_version, "2025");
        }
        _ => panic!("expected a missing schema"),
    }
    assert!(matches!(
        client.prepare("nope", "x", None, Some(&schema), &args),
        Err(ApiError::BadPath(_))
    ));
}

#[test]
fn host_and_port_reads_an_explicit_port_suffix() {
    let mut config = test_config();
    assert_eq!(config.host_and_port(), ("localhost".to_string(), 1433));
    config.url = "db.example.com:14330".to_string();
    assert_eq!(config.host_and_port(), ("db.example.com".to_string(), 14330));
    config.url = "db.example.com:notaport".to_string();
    assert_eq!(config.host_and_port(), ("db.example.com:notaport".to_string(), 1433));
}

#[test]
fn a_decimal_argument_that_cannot_be_converted_is_reported_before_the_call() {
    let client = ApiClient::new(test_config());
    let schema = parse(
        r#"{ "properties": { "body": { "properties": {
            "v": { "x-sql-ordinal": 1, "x-sql-type": "decimal(38,38)" }
        } } } }"#,
    );
    let args = parse(r#"{ "body": { "v": "0" } }"#);
    assert!(!client.prepare_is_defined("/dbo/p", None, Some(&schema), &args));
    assert!(client.prepare_is_defined("/dbo bad/p", None, Some(&schema), &args));
    let omitted = parse(r#"{ "body": {} }"#);
    assert!(client.prepare_is_defined("/dbo/p", None, Some(&schema), &omitted));
    let too_wide = parse(r#"{ "body": { "v": "1" } }"#);
    assert!(client.prepare_is_defined("/dbo/p", None, Some(&schema), &too_wide));
}

#[test]
fn a_scalar_function_is_selected_as_a_value() {
    let params = vec![param("x", 1, "int")];
    let body = object(vec![("x", JsonValue::Number(JsonNumber::PosInt(1)))]);
    let (sql, bound) = build_statement("dbo", "fn", Some("SQL_SCALAR_FUNCTION"), &params, &body, None)
        .ok()
        .unwrap();
    assert_eq!(sql, "SELECT [dbo].[fn](@P1)");
    assert_eq!(bound.len(), 1);
    let (sql, _) = build_statement("dbo", "tvf", Some("SQL_TABLE_VALUED_FUNCTION"), &params, &body, None)
        .ok()
        .unwrap();
    assert_eq!(sql, "SELECT * FROM [dbo].[tvf](@P1)");
}

#[test]
fn an_omitted_procedure_parameter_keeps_its_default() {
    let params = vec![param("loginame", 1, "sysname")];
    let body = JsonObject::new();
    let (sql, bound) =
        build_statement("sys", "sp_who", Some("SQL_STORED_PROCEDURE"), &params, &body, None)
            .ok()
            .unwrap();
    assert_eq!(sql, "EXEC [sys].[sp_who]");
    assert!(bound.is_empty());
    let params = vec![param("a", 1, "int"), param("b", 2, "int"), param("c", 3, "int")];
    let body = object(vec![("c", JsonValue::Null), ("a", JsonValue::Number(JsonNumber::PosInt(1)))]);
    let (sql, bound) = build_statement("dbo", "p", None, &params, &body, None).ok().unwrap();
    assert_eq!(sql, "EXEC [dbo].[p] @a = @P1, @c = @P2");
    assert!(matches!(bound[0], SqlParam::Int(Some(1))));
    assert!(matches!(bound[1], SqlParam::Int(None)));
}

#[test]
fn errors_carry_their_messages() {
    let body = object(vec![("execution_database", JsonValue::Bool(true))]);
    match resolve_execution_database(&body, &test_config()) {
        Err(e) => assert_eq!(e.message(), "'execution_database' must be a string"),
        Ok(_) => panic!("expected an error"),
    }
    match parse_path("nope") {
        Err(e) => assert_eq!(e.message(), "endpoint path 'nope' is not in the expected /<schema>/<name> shape"),
        Ok(_) => panic!("expected an error"),
    }
    let params = vec![param("n", 1, "tinyint")];
    let body = object(vec![("n", JsonValue::Number(JsonNumber::PosInt(300)))]);
    match build_statement("dbo", "p", None, &params, &body, None) {
        Err(e) => assert_eq!(e.message(), "value is out of range for SQL type 'tinyint'"),
        Ok(_) => panic!("expected an error"),
    }
}

#[test]
fn an_unparsable_decimal_reports_the_integer_parser_message() {
    let params = vec![param("d", 1, "decimal(10,0)")];
    let nines = "9".repeat(39);
    let cases = [
        ("12x".to_string(), "12x".to_string()),
        ("+-".to_string(), "-".to_string()),
        (format!("{nines}x"), format!("{nines}x")),
        (format!("--{nines}"), format!("-{nines}")),
    ];
    for (text, digits) in cases {
        let expected = digits.parse::<i128>().unwrap_err().to_string();
        let body = object(vec![("d", string(&text))]);
        match build_statement("dbo", "p", None, &params, &body, None) {
            Err(e) => assert_eq!(e.message(), expected),
            Ok(_) => panic!("expected an error for {text}"),
        }
    }
}

#[test]
fn read_only_mode_admits_only_views_and_functions() {
    assert!(operation_allowed(true, Some("VIEW")));
    assert!(operation_allowed(true, Some("SQL_SCALAR_FUNCTION")));
    assert!(operation_allowed(true, Some("SQL_INLINE_TABLE_VALUED_FUNCTION")));
    assert!(!operation_allowed(true, Some("SQL_STORED_PROCEDURE")));
    assert!(!operation_allowed(true, None));
    assert!(operation_allowed(false, Some("SQL_STORED_PROCEDURE")));
    match check_read_only(true, "sys_sp_who", Some("SQL_STORED_PROCEDURE")) {
        Err(e) => assert_eq!(
            e.message(),
            "operation 'sys_sp_who' is refused in read-only mode: only views and functions may be called"
        ),
        Ok(()) => panic!("expected a refusal"),
    }
}

#[test]
fn the_pool_key_is_host_and_port() {
    let mut config = test_config();
    assert_eq!(config.pool_key(), "localhost:1433");
    config.url = "db:14330".to_string();
    assert_eq!(config.pool_key(), "db:14330");
}
