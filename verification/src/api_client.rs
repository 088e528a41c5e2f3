//! One operation call, from its endpoint path and arguments to the T-SQL
//! statement that runs it, and the driver's errors to the synthetic
//! 400/403/500 split.
use vstd::prelude::*;

use crate::config::Config;
use crate::errors::ApiError;
use crate::ident::{parse_path, path_has_shape, split_path, valid_ident};
use crate::json::{json_get, JsonObject, JsonValue};
use crate::param::SqlParam;
use crate::statement::{
    bound_params, build_statement_in, execution_database_of, opt_object, ordered_params,
    ordered_params_of, params_defined, resolve_execution_database, statement_result,
};
use crate::text::{ends_with_str, has_suffix, str_eq, extend_str, string_of, u128_digits, extend_chars, dec_digits};

verus! {

/// Runs operation calls against the configured SQL Server instance.
pub struct ApiClient {
    pub config: Config,
}

/// The `body` object of a call's arguments, when the arguments are an
/// object with an object-valued `body` member.
pub open spec fn call_body(args: JsonValue) -> Option<JsonObject> {
    match json_get(args, "body"@) {
        Some(JsonValue::Object(o)) => Some(o),
        _ => None,
    }
}

/// The members of an optional body (none when there is no body).
pub open spec fn body_entries(body: Option<JsonObject>) -> Seq<(String, JsonValue)> {
    match body {
        Some(o) => o.entries@,
        None => Seq::empty(),
    }
}

pub open spec fn opt_string_view(s: Option<String>) -> Option<Seq<char>> {
    match s {
        Some(t) => Some(t@),
        None => None,
    }
}

/// Whether a call gets as far as converting its arguments: a well-formed
/// path of valid identifiers, a known input schema and a valid execution
/// database.
pub open spec fn reaches_conversion(
    config: Config,
    path: Seq<char>,
    input: Option<JsonValue>,
    args: JsonValue,
) -> bool {
    let parts = split_path(path)->0;
    &&& path_has_shape(path)
    &&& valid_ident(parts.0)
    &&& valid_ident(parts.1)
    &&& input is Some
    &&& execution_database_of(
        body_entries(call_body(args)),
        opt_string_view(config.default_database),
    ) is Ok
}

/// The calls on which preparing does not panic: where the arguments are
/// converted, each must be convertible (`params_defined`).
pub open spec fn prepare_defined(
    config: Config,
    path: Seq<char>,
    kind: Option<Seq<char>>,
    input: Option<JsonValue>,
    args: JsonValue,
) -> bool {
    reaches_conversion(config, path, input, args) ==> params_defined(
        bound_params(kind, ordered_params_of(input->0), call_body(args)),
        call_body(args),
    )
}

/// What `ApiClient::prepare` returns: the path is checked first, then the
/// input schema is looked up, then the execution database is resolved, and
/// then the statement is built (`statement_result`).
pub open spec fn prepare_result<'a>(
    config: Config,
    path: Seq<char>,
    operation_id: Seq<char>,
    kind: Option<Seq<char>>,
    input: Option<JsonValue>,
    args: JsonValue,
    r: Result<(String, Vec<SqlParam<'a>>), ApiError<'a>>,
) -> bool {
    if !path_has_shape(path) {
        r matches Err(ApiError::BadPath(p)) && p@ == path
    } else {
        let (schema, name) = split_path(path)->0;
        if !valid_ident(schema) {
            r matches Err(ApiError::InvalidIdentifier(t)) && t@ == schema
        } else if !valid_ident(name) {
            r matches Err(ApiError::InvalidIdentifier(t)) && t@ == name
        } else {
            match input {
                None => r matches Err(ApiError::NoResolvedSchema { operation_id: o, api_version: v })
                    && o@ == operation_id && v@ == config.api_version@,
                Some(s) => match execution_database_of(
                    body_entries(call_body(args)),
                    opt_string_view(config.default_database),
                ) {
                    Err(Some(bad)) => r matches Err(ApiError::InvalidIdentifier(t)) && t@ == bad,
                    Err(None) => r matches Err(ApiError::ExecutionDatabaseNotString),
                    Ok(db) => statement_result(
                        schema,
                        name,
                        kind,
                        ordered_params_of(s),
                        call_body(args),
                        db,
                        r,
                    ),
                },
            }
        }
    }
}

fn body_of<'a>(args: &'a JsonValue) -> (r: Option<&'a JsonObject>)
    ensures
        opt_object(r) == call_body(*args),
{
    match args.get("body") {
        Some(b) => b.as_object(),
        None => None,
    }
}

impl ApiClient {
    pub fn new(config: Config) -> (r: Self)
        ensures
            r.config == config,
    {
        ApiClient { config }
    }

    /// Everything an operation call decides before it reaches the server:
    /// splits the endpoint path into schema and name, takes the operation's
    /// input schema (`None` when none is known for the configured API
    /// version), orders its declared parameters, reads the `body` object of
    /// the arguments (an absent or non-object body counts as empty),
    /// resolves the execution database, and builds the statement with its
    /// bound arguments (see `prepare_result`).
    pub fn prepare<'a>(
        &self,
        path: &str,
        operation_id: &str,
        kind: Option<&str>,
        input_schema: Option<&JsonValue>,
        args: &'a JsonValue,
    ) -> (r: Result<(String, Vec<SqlParam<'a>>), ApiError<'a>>)
        requires
            prepare_defined(
                self.config,
                path@,
                match kind {
                    Some(k) => Some(k@),
                    None => None,
                },
                match input_schema {
                    Some(s) => Some(*s),
                    None => None,
                },
                *args,
            ),
        ensures
            prepare_result(
                self.config,
                path@,
                operation_id@,
                match kind {
                    Some(k) => Some(k@),
                    None => None,
                },
                match input_schema {
                    Some(s) => Some(*s),
                    None => None,
                },
                *args,
                r,
            ),
    {
        let (schema, name) = match parse_path(path) {
            Ok(p) => p,
            Err(e) => {
                return Err(e);
            },
        };
        let input = match input_schema {
            Some(s) => s,
            None => {
                return Err(ApiError::NoResolvedSchema {
                    operation_id: operation_id.to_owned(),
                    api_version: self.config.api_version.clone(),
                });
            },
        };
        let params = ordered_params(input);
        let body = body_of(args);
        let empty = JsonObject::new();
        let body_ref: &JsonObject = match body {
            Some(b) => b,
            None => &empty,
        };
        assert(body_ref.entries@ == body_entries(call_body(*args)));
        let execution_database = match resolve_execution_database(body_ref, &self.config) {
            Ok(d) => d,
            Err(e) => {
                return Err(e);
            },
        };
        let db: Option<&str> = match &execution_database {
            Some(d) => Some(d.as_str()),
            None => None,
        };
        build_statement_in(schema, name, kind, params.as_slice(), body, db)
    }

    /// Whether `prepare` may be called on these inputs (`prepare_defined`):
    /// false exactly where converting an argument would overflow or use an
    /// unsupported scale.
    pub fn prepare_is_defined(
        &self,
        path: &str,
        kind: Option<&str>,
        input_schema: Option<&JsonValue>,
        args: &JsonValue,
    ) -> (r: bool)
        ensures
            r == prepare_defined(
                self.config,
                path@,
                match kind {
                    Some(k) => Some(k@),
                    None => None,
                },
                match input_schema {
                    Some(s) => Some(*s),
                    None => None,
                },
                *args,
            ),
    {
        if parse_path(path).is_err() {
            return true;
        }
        let input = match input_schema {
            Some(s) => s,
            None => {
                return true;
            },
        };
        let body = body_of(args);
        let empty = JsonObject::new();
        let body_ref: &JsonObject = match body {
            Some(b) => b,
            None => &empty,
        };
        assert(body_ref.entries@ == body_entries(call_body(*args)));
        if resolve_execution_database(body_ref, &self.config).is_err() {
            return true;
        }
        let params = ordered_params(input);
        crate::statement::arguments_convertible(kind, params.as_slice(), body)
    }
}

// ---------------------------------------------------------------------------
// Read-only mode

/// The kinds SQL Server itself guarantees free of side effects: views and
/// functions (any kind ending in `_FUNCTION`). A stored procedure, or an
/// operation with no kind, is not one of them.
pub open spec fn side_effect_free_kind(kind: Option<Seq<char>>) -> bool {
    match kind {
        Some(k) => k == "VIEW"@ || has_suffix(k, "_FUNCTION"@),
        None => false,
    }
}

/// Whether an operation of this kind may be called: always outside
/// read-only mode, and in read-only mode only a view or a function.
pub fn operation_allowed(read_only: bool, kind: Option<&str>) -> (r: bool)
    ensures
        r == operation_allowed_spec(read_only, kind),
{
    if !read_only {
        return true;
    }
    match kind {
        Some(k) => str_eq(k, "VIEW") || ends_with_str(k, "_FUNCTION"),
        None => false,
    }
}

/// The read-only safeguard of the `call` tool: `ReadOnlyRefused` naming
/// the operation where `operation_allowed` is false.
pub fn check_read_only(read_only: bool, operation_id: &str, kind: Option<&str>) -> (r: Result<
    (),
    ApiError<'static>,
>)
    ensures
        match r {
            Ok(()) => operation_allowed_spec(read_only, kind),
            Err(e) => !operation_allowed_spec(read_only, kind) && (e matches ApiError::ReadOnlyRefused(
                o,
            ) && o@ == operation_id@),
        },
{
    if operation_allowed(read_only, kind) {
        Ok(())
    } else {
        Err(ApiError::ReadOnlyRefused(operation_id.to_owned()))
    }
}

pub open spec fn operation_allowed_spec(read_only: bool, kind: Option<&str>) -> bool {
    !read_only || side_effect_free_kind(
        match kind {
            Some(k) => Some(k@),
            None => None,
        },
    )
}

/// Read-only mode admits exactly views and functions. Outside it every
/// operation may be called. In it an operation may be called exactly when
/// its kind is `VIEW` or ends in `_FUNCTION` (every function kind: scalar,
/// inline or multi-statement table-valued, CLR); a stored procedure or an
/// operation with no kind is refused, and the refusal names the operation.
pub proof fn law_read_only_admits_views_and_functions(
    read_only: bool,
    operation_id: &str,
    kind: Option<&str>,
    allowed: bool,
    checked: Result<(), ApiError<'static>>,
)
    requires
        allowed == operation_allowed_spec(read_only, kind),
        match checked {
            Ok(()) => operation_allowed_spec(read_only, kind),
            Err(e) => !operation_allowed_spec(read_only, kind) && (e matches ApiError::ReadOnlyRefused(
                o,
            ) && o@ == operation_id@),
        },
    ensures
        !read_only ==> allowed,
        read_only ==> (allowed <==> match kind {
            Some(k) => k@ == "VIEW"@ || has_suffix(k@, "_FUNCTION"@),
            None => false,
        }),
        checked is Ok <==> allowed,
        checked matches Err(e) ==> e matches ApiError::ReadOnlyRefused(o) && o@ == operation_id@,
{
}

// ---------------------------------------------------------------------------
// Driver errors

/// An error reported by the SQL Server driver: an error token sent by the
/// server, or any other failure (connection, protocol, TLS, ...), described
/// by its message.
pub enum DriverError {
    Server { number: u32, state: u8, class: u8, message: String, procedure: String, line: u32 },
    Other { description: String },
}

/// The synthetic HTTP-like status an error maps to.
#[derive(Clone, Copy, Debug, PartialEq, Eq, Structural)]
pub enum FailureCategory {
    /// A statement or user error (severity 16 and below, but a permission
    /// error): 400-equivalent.
    Statement,
    /// A permission error (severity 14, Msg 229 or 230): 403-equivalent.
    PermissionDenied,
    /// An engine or resource error (severity 17-25): 500-equivalent.
    Fatal,
    /// A connection or protocol failure: 500-equivalent.
    Connection,
}

/// A classified driver error and its message.
pub struct ClassifiedError {
    pub category: FailureCategory,
    pub message: String,
}

impl ClassifiedError {
    /// The error's message.
    pub fn to_string(&self) -> (r: String)
        ensures
            r@ == self.message@,
    {
        self.message.clone()
    }
}

/// The category of a server error of the given number and severity
/// class: severity 17 and above is fatal (500); a severity-14 permission
/// error (Msg 229 or 230) is denied access (403); any other is a
/// statement or user error (400).
pub open spec fn category_of_error(number: u32, class: u8) -> FailureCategory {
    if class >= 17 {
        FailureCategory::Fatal
    } else if class == 14 && (number == 229 || number == 230) {
        FailureCategory::PermissionDenied
    } else {
        FailureCategory::Statement
    }
}

pub open spec fn category_label(c: FailureCategory) -> Seq<char> {
    match c {
        FailureCategory::Fatal => "fatal/resource error (500-equivalent)"@,
        FailureCategory::PermissionDenied => "permission denied (403-equivalent)"@,
        _ => "statement/user error (400-equivalent)"@,
    }
}

/// The message of a classified driver error.
pub open spec fn driver_error_message(e: DriverError) -> Seq<char> {
    match e {
        DriverError::Server { number, state, class, message, procedure, line } => "SQL Server error "@
            + dec_digits(number as nat) + " (severity "@ + dec_digits(class as nat) + ", state "@
            + dec_digits(state as nat) + ") in '"@ + procedure@ + "' line "@ + dec_digits(
            line as nat,
        ) + ": "@ + message@ + " ["@ + category_label(category_of_error(number, class)) + "]"@,
        DriverError::Other { description } =>
            "SQL Server connection/protocol error (500-equivalent): "@ + description@,
    }
}

fn push_number(out: &mut Vec<char>, n: u32)
    ensures
        final(out)@ == old(out)@ + dec_digits(n as nat),
{
    let d = u128_digits(n as u128);
    extend_chars(out, &d);
}

/// Maps a driver error to the synthetic 400/403/500 split: a server error
/// of severity 17 or more is fatal, a severity-14 permission error (Msg 229
/// or 230) is denied access, and any other is a statement error; every
/// other failure is a connection error.
/// The message names the error number, severity, state, procedure, line
/// and text.
pub fn classify_tiberius_error(err: &DriverError) -> (r: ClassifiedError)
    ensures
        r.category == match *err {
            DriverError::Server { number, class, .. } => category_of_error(number, class),
            DriverError::Other { .. } => FailureCategory::Connection,
        },
        r.message@ == driver_error_message(*err),
{
    let mut out: Vec<char> = Vec::new();
    match err {
        DriverError::Server { number, state, class, message, procedure, line } => {
            let category = if *class >= 17 {
                FailureCategory::Fatal
            } else if *class == 14 && (*number == 229 || *number == 230) {
                FailureCategory::PermissionDenied
            } else {
                FailureCategory::Statement
            };
            let label = match category {
                FailureCategory::Fatal => "fatal/resource error (500-equivalent)",
                FailureCategory::PermissionDenied => "permission denied (403-equivalent)",
                _ => "statement/user error (400-equivalent)",
            };
            extend_str(&mut out, "SQL Server error ");
            push_number(&mut out, *number);
            extend_str(&mut out, " (severity ");
            push_number(&mut out, *class as u32);
            extend_str(&mut out, ", state ");
            push_number(&mut out, *state as u32);
            extend_str(&mut out, ") in '");
            extend_str(&mut out, procedure.as_str());
            extend_str(&mut out, "' line ");
            push_number(&mut out, *line);
            extend_str(&mut out, ": ");
            extend_str(&mut out, message.as_str());
            extend_str(&mut out, " [");
            extend_str(&mut out, label);
            extend_str(&mut out, "]");
            assert(out@ =~= driver_error_message(*err));
            ClassifiedError { category, message: string_of(&out) }
        },
        DriverError::Other { description } => {
            extend_str(&mut out, "SQL Server connection/protocol error (500-equivalent): ");
            extend_str(&mut out, description.as_str());
            ClassifiedError { category: FailureCategory::Connection, message: string_of(&out) }
        },
    }
}

/// Every server error falls in exactly one of the three server categories:
/// severity 17 and above is fatal (500), a severity-14 Msg 229 or 230 is a
/// permission error (403), and every other is a statement error (400); a
/// non-server failure is never one of them.
pub proof fn law_error_categories_partition_by_severity(number: u32, class: u8)
    ensures
        (category_of_error(number, class) == FailureCategory::Fatal) <==> class >= 17,
        (category_of_error(number, class) == FailureCategory::PermissionDenied) <==> (class == 14
            && (number == 229 || number == 230)),
        (category_of_error(number, class) == FailureCategory::Statement) <==> (class < 17 && !(
        class == 14 && (number == 229 || number == 230))),
        category_of_error(number, class) != FailureCategory::Connection,
{
}

} // verus!
