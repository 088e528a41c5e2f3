//! Turning one operation call into T-SQL: the operation's declared
//! parameters (read from its input schema, ordered by ordinal), the
//! execution database, and the statement text with its `@P<n>` arguments.
use vstd::prelude::*;

use crate::config::Config;
use crate::errors::ApiError;
use crate::text::str_eq;
use crate::ident::{quote_ident, quoted, valid_ident, validate_ident};
use crate::json::{
    json_as_str, json_as_u64, json_get, lookup, opt_json_get, JsonObject, JsonValue,
};
use crate::param::{
    json_to_param, param_is_defined, lemma_param_fails, param_defined, param_fails, param_result, SqlParam,
};
use crate::text::{
    contains_at, contains_seq, contains_str, dec_digits, ends_with_str, extend_chars, extend_str,
    has_prefix, has_suffix, string_of, strip_prefix_str, u128_digits,
};

verus! {

/// One declared parameter of an operation.
pub struct Param {
    pub name: String,
    pub ordinal: u64,
    pub x_sql_type: String,
}

/// A parameter as `(name, ordinal, x-sql-type)`.
pub type ParamView = (Seq<char>, u64, Seq<char>);

pub open spec fn param_view(p: Param) -> ParamView {
    (p.name@, p.ordinal, p.x_sql_type@)
}

pub open spec fn params_view(ps: Seq<Param>) -> Seq<ParamView> {
    ps.map_values(|p: Param| param_view(p))
}

/// The top-level `body` property of an input schema, resolved through a
/// `$ref` of the form `#/$defs/<name>` when it has one.
pub open spec fn resolved_body(input: JsonValue) -> Option<JsonValue> {
    match opt_json_get(json_get(input, "properties"@), "body"@) {
        None => None,
        Some(body) => match json_get(body, "$ref"@) {
            Some(reference) => match json_as_str(reference) {
                Some(r) => if has_prefix(r, "#/$defs/"@) {
                    opt_json_get(json_get(input, "$defs"@), r.skip(8))
                } else {
                    None
                },
                None => Some(body),
            },
            None => Some(body),
        },
    }
}

/// The parameter-name map of an input schema: the `properties` object of
/// its resolved `body`.
pub open spec fn request_properties_of(input: JsonValue) -> Option<JsonObject> {
    match resolved_body(input) {
        Some(b) => match json_get(b, "properties"@) {
            Some(JsonValue::Object(o)) => Some(o),
            _ => None,
        },
        None => None,
    }
}

/// A parameter schema's declared ordinal (`x-sql-ordinal`, default 0).
pub open spec fn ordinal_of(schema: JsonValue) -> u64 {
    match json_get(schema, "x-sql-ordinal"@) {
        Some(v) => match json_as_u64(v) {
            Some(n) => n,
            None => 0,
        },
        None => 0,
    }
}

/// A parameter schema's declared SQL type (`x-sql-type`, default
/// `nvarchar(max)`).
pub open spec fn sql_type_of(schema: JsonValue) -> Seq<char> {
    match json_get(schema, "x-sql-type"@) {
        Some(v) => match json_as_str(v) {
            Some(s) => s,
            None => "nvarchar(max)"@,
        },
        None => "nvarchar(max)"@,
    }
}

/// The declared parameters in property order, without the synthetic
/// `execution_database` property.
pub open spec fn declared_params(entries: Seq<(String, JsonValue)>) -> Seq<ParamView>
    decreases entries.len(),
{
    if entries.len() == 0 {
        Seq::empty()
    } else {
        let rest = declared_params(entries.drop_last());
        let e = entries.last();
        if e.0@ == "execution_database"@ {
            rest
        } else {
            rest.push((e.0@, ordinal_of(e.1), sql_type_of(e.1)))
        }
    }
}

/// Inserts `p` after every element whose ordinal is at most its own.
pub open spec fn insert_by_ordinal(s: Seq<ParamView>, p: ParamView) -> Seq<ParamView>
    decreases s.len(),
{
    if s.len() == 0 {
        seq![p]
    } else if s.last().1 <= p.1 {
        s.push(p)
    } else {
        insert_by_ordinal(s.drop_last(), p).push(s.last())
    }
}

/// The stable sort by ordinal: equal ordinals keep their relative order.
pub open spec fn sort_by_ordinal(s: Seq<ParamView>) -> Seq<ParamView>
    decreases s.len(),
{
    if s.len() == 0 {
        Seq::empty()
    } else {
        insert_by_ordinal(sort_by_ordinal(s.drop_last()), s.last())
    }
}

/// The ordered parameter list of an input schema.
pub open spec fn ordered_params_of(input: JsonValue) -> Seq<ParamView> {
    match request_properties_of(input) {
        Some(o) => sort_by_ordinal(declared_params(o.entries@)),
        None => Seq::empty(),
    }
}

/// Resolves the real parameter-name map of an input schema: the
/// `properties` of its top-level `body` property, following a
/// `#/$defs/<name>` reference. `None` when there is no such map.
pub fn request_properties(input_schema: &JsonValue) -> (r: Option<&JsonObject>)
    ensures
        match r {
            Some(o) => request_properties_of(*input_schema) == Some(*o),
            None => request_properties_of(*input_schema) is None,
        },
{
    let props = input_schema.get("properties")?;
    let body_schema = props.get("body")?;
    let resolved = match body_schema.get("$ref") {
        Some(reference) => match reference.as_str() {
            Some(r) => {
                let name = strip_prefix_str(r, "#/$defs/")?;
                proof {
                    reveal_strlit("#/$defs/");
                }
                let defs = input_schema.get("$defs")?;
                defs.get(name)?
            },
            None => body_schema,
        },
        None => body_schema,
    };
    match resolved.get("properties") {
        Some(p) => p.as_object(),
        None => None,
    }
}

proof fn lemma_insert_position(s: Seq<ParamView>, p: ParamView, j: int)
    requires
        0 <= j <= s.len(),
        forall|k: int| j <= k < s.len() ==> s[k].1 > p.1,
        j == 0 || s[j - 1].1 <= p.1,
    ensures
        insert_by_ordinal(s, p) == s.insert(j, p),
    decreases s.len(),
{
    if s.len() == 0 {
        assert(s.insert(j, p) =~= seq![p]);
    } else if s.last().1 <= p.1 {
        assert(j == s.len());
        assert(s.insert(j, p) =~= s.push(p));
    } else {
        assert(j < s.len());
        lemma_insert_position(s.drop_last(), p, j);
        assert(s.drop_last().insert(j, p).push(s.last()) =~= s.insert(j, p));
    }
}

fn insert_sorted(v: &mut Vec<Param>, p: Param)
    ensures
        params_view(final(v)@) == insert_by_ordinal(params_view(old(v)@), param_view(p)),
{
    let mut j = v.len();
    while j > 0 && v[j - 1].ordinal > p.ordinal
        invariant
            j <= v.len(),
            forall|k: int| j <= k < v.len() ==> v@[k].ordinal > p.ordinal,
        decreases j,
    {
        j = j - 1;
    }
    let ghost before = v@;
    proof {
        lemma_insert_position(params_view(before), param_view(p), j as int);
    }
    v.insert(j, p);
    assert(params_view(v@) =~= params_view(before).insert(j as int, param_view(p)));
}

/// Reads the declared parameters (`x-sql-ordinal`, `x-sql-type`) off an
/// input schema, without the synthetic `execution_database` property, in a
/// stable sort by ordinal.
pub fn ordered_params(input_schema: &JsonValue) -> (r: Vec<Param>)
    ensures
        params_view(r@) == ordered_params_of(*input_schema),
{
    let mut out: Vec<Param> = Vec::new();
    let props = match request_properties(input_schema) {
        Some(o) => o,
        None => {
            assert(params_view(out@) =~= Seq::<ParamView>::empty());
            return out;
        },
    };
    let ghost entries = props.entries@;
    let mut i: usize = 0;
    assert(params_view(out@) =~= sort_by_ordinal(declared_params(entries.take(0))));
    while i < props.entries.len()
        invariant
            i <= props.entries.len(),
            entries == props.entries@,
            params_view(out@) == sort_by_ordinal(declared_params(entries.take(i as int))),
        decreases props.entries.len() - i,
    {
        let name = &props.entries[i].0;
        let schema = &props.entries[i].1;
        assert(entries.take(i + 1).drop_last() == entries.take(i as int));
        if !str_eq(name.as_str(), "execution_database") {
            let ordinal = match schema.get("x-sql-ordinal") {
                Some(v) => match v.as_u64() {
                    Some(n) => n,
                    None => 0,
                },
                None => 0,
            };
            let x_sql_type = match schema.get("x-sql-type") {
                Some(v) => match v.as_str() {
                    Some(s) => s.to_owned(),
                    None => "nvarchar(max)".to_owned(),
                },
                None => "nvarchar(max)".to_owned(),
            };
            let p = Param { name: name.clone(), ordinal, x_sql_type };
            let ghost model = declared_params(entries.take(i as int));
            assert(declared_params(entries.take(i + 1)) == model.push(param_view(p)));
            assert(model.push(param_view(p)).drop_last() == model);
            insert_sorted(&mut out, p);
        }
        i = i + 1;
    }
    assert(entries.take(entries.len() as int) == entries);
    out
}

// ---------------------------------------------------------------------------
// The execution database

/// The execution database of a call: the body's `execution_database`
/// string if present (validated), else the configured default (validated),
/// else none.
pub open spec fn execution_database_of(
    body: Seq<(String, JsonValue)>,
    default_database: Option<Seq<char>>,
) -> Result<Option<Seq<char>>, Option<Seq<char>>> {
    match lookup(body, "execution_database"@) {
        Some(v) => match json_as_str(v) {
            Some(s) => if valid_ident(s) {
                Ok(Some(s))
            } else {
                Err(Some(s))
            },
            None => Err(None),
        },
        None => match default_database {
            Some(d) => if valid_ident(d) {
                Ok(Some(d))
            } else {
                Err(Some(d))
            },
            None => Ok(None),
        },
    }
}

/// Resolves the database an operation runs in: the caller-supplied
/// `execution_database` body property if present, else the configured
/// default database, else `None` (the connection's current database).
/// Either source must be a valid identifier; a non-string body property is
/// `ExecutionDatabaseNotString`.
pub fn resolve_execution_database(body: &JsonObject, config: &Config) -> (r: Result<
    Option<String>,
    ApiError<'static>,
>)
    ensures
        match execution_database_of(
            body.entries@,
            match config.default_database {
                Some(d) => Some(d@),
                None => None,
            },
        ) {
            Ok(Some(d)) => r is Ok && r->Ok_0 is Some && r->Ok_0->0@ == d,
            Ok(None) => r is Ok && r->Ok_0 is None,
            Err(Some(bad)) => r matches Err(ApiError::InvalidIdentifier(t)) && t@ == bad,
            Err(None) => r matches Err(ApiError::ExecutionDatabaseNotString),
        },
{
    if let Some(value) = body.get("execution_database") {
        let requested = match value.as_str() {
            Some(s) => s,
            None => {
                return Err(ApiError::ExecutionDatabaseNotString);
            },
        };
        let valid = validate_ident(requested)?;
        return Ok(Some(valid.to_owned()));
    }
    match &config.default_database {
        Some(d) => {
            let valid = validate_ident(d.as_str())?;
            Ok(Some(valid.to_owned()))
        },
        None => Ok(None),
    }
}

// ---------------------------------------------------------------------------
// The statement

/// `[schema].[name]`, or `[db].[schema].[name]` when a database is given.
pub open spec fn qualified_name(db: Option<Seq<char>>, schema: Seq<char>, name: Seq<char>) -> Seq<
    char,
> {
    match db {
        Some(d) => quoted(d) + "."@ + quoted(schema) + "."@ + quoted(name),
        None => quoted(schema) + "."@ + quoted(name),
    }
}

pub open spec fn placeholder(i: nat) -> Seq<char> {
    "@P"@ + dec_digits(i)
}

/// `@P1, @P2, ..., @Pn`.
pub open spec fn placeholder_list(n: nat) -> Seq<char>
    decreases n,
{
    if n == 0 {
        Seq::empty()
    } else if n == 1 {
        placeholder(1)
    } else {
        placeholder_list((n - 1) as nat) + ", "@ + placeholder(n)
    }
}

/// `@name1 = @P1, @name2 = @P2, ...` for the first `n` names.
pub open spec fn assignment_list(names: Seq<Seq<char>>, n: nat) -> Seq<char>
    decreases n,
{
    if n == 0 {
        Seq::empty()
    } else if n == 1 {
        "@"@ + names[0] + " = "@ + placeholder(1)
    } else {
        assignment_list(names, (n - 1) as nat) + ", "@ + "@"@ + names[n - 1] + " = "@
            + placeholder(n)
    }
}

/// A table-valued function kind: selected from.
pub open spec fn is_table_function_kind(k: Seq<char>) -> bool {
    contains_seq(k, "TABLE_VALUED_FUNCTION"@)
}

/// A scalar function kind (ending in `_FUNCTION`, not table-valued):
/// selected as a value.
pub open spec fn is_scalar_function_kind(k: Seq<char>) -> bool {
    has_suffix(k, "_FUNCTION"@) && !is_table_function_kind(k)
}

/// Whether the kind takes the `EXEC` path (stored procedures, and a
/// missing kind).
pub open spec fn is_exec_kind(kind: Option<Seq<char>>) -> bool {
    match kind {
        Some(k) => k != "VIEW"@ && !is_table_function_kind(k) && !is_scalar_function_kind(k),
        None => true,
    }
}

/// The statement text: a `SELECT` from a view, a `SELECT` from a
/// table-valued function with positional placeholders, a `SELECT` of a
/// scalar function's value, or an `EXEC` with named arguments (a bare
/// `EXEC` when none is passed).
pub open spec fn statement_text(
    kind: Option<Seq<char>>,
    qualified: Seq<char>,
    names: Seq<Seq<char>>,
) -> Seq<char> {
    let exec = if names.len() == 0 {
        "EXEC "@ + qualified
    } else {
        "EXEC "@ + qualified + " "@ + assignment_list(names, names.len())
    };
    match kind {
        Some(k) => if k == "VIEW"@ {
            "SELECT * FROM "@ + qualified
        } else if is_table_function_kind(k) {
            "SELECT * FROM "@ + qualified + "("@ + placeholder_list(names.len()) + ")"@
        } else if is_scalar_function_kind(k) {
            "SELECT "@ + qualified + "("@ + placeholder_list(names.len()) + ")"@
        } else {
            exec
        },
        None => exec,
    }
}

/// The argument value bound for a parameter: the body member of that name,
/// or null.
pub open spec fn bound_value(body: Option<JsonObject>, name: Seq<char>) -> JsonValue {
    match body {
        Some(b) => match lookup(b.entries@, name) {
            Some(v) => v,
            None => JsonValue::Null,
        },
        None => JsonValue::Null,
    }
}

/// Whether the body supplies an argument of this name (explicit null
/// included).
pub open spec fn supplied(body: Option<JsonObject>, name: Seq<char>) -> bool {
    body matches Some(b) && lookup(b.entries@, name) is Some
}

/// The parameters the body supplies, in order.
pub open spec fn supplied_params(params: Seq<ParamView>, body: Option<JsonObject>) -> Seq<ParamView>
    decreases params.len(),
{
    if params.len() == 0 {
        Seq::empty()
    } else {
        let rest = supplied_params(params.drop_last(), body);
        if supplied(body, params.last().0) {
            rest.push(params.last())
        } else {
            rest
        }
    }
}

/// The parameters bound as arguments: on the `EXEC` path only those the
/// body supplies (an omitted procedure parameter keeps its default);
/// otherwise every parameter, an omitted one as null.
pub open spec fn bound_params(
    kind: Option<Seq<char>>,
    params: Seq<ParamView>,
    body: Option<JsonObject>,
) -> Seq<ParamView> {
    if is_exec_kind(kind) {
        supplied_params(params, body)
    } else {
        params
    }
}

pub open spec fn opt_seq(s: Option<&str>) -> Option<Seq<char>> {
    match s {
        Some(t) => Some(t@),
        None => None,
    }
}

pub open spec fn param_names(params: Seq<ParamView>) -> Seq<Seq<char>> {
    params.map_values(|p: ParamView| p.0)
}

/// Every parameter's argument can be converted without a panic.
pub open spec fn params_defined(params: Seq<ParamView>, body: Option<JsonObject>) -> bool {
    forall|i: int|
        0 <= i < params.len() ==> param_defined(
            bound_value(body, params[i].0),
            #[trigger] params[i].2,
        )
}

/// What `build_statement` returns for the parameters `params`: the bound
/// arguments (`bound_params`) converted in order (the first failing one is
/// the error), then on the `EXEC` path every declared parameter name
/// checked in order, then the statement text.
pub open spec fn statement_result<'a>(
    schema: Seq<char>,
    name: Seq<char>,
    kind: Option<Seq<char>>,
    params: Seq<ParamView>,
    body: Option<JsonObject>,
    db: Option<Seq<char>>,
    r: Result<(String, Vec<SqlParam<'a>>), ApiError<'a>>,
) -> bool {
    let bp = bound_params(kind, params, body);
    match r {
        Ok((sql, bound)) => {
            &&& bound@.len() == bp.len()
            &&& forall|i: int|
                0 <= i < bp.len() ==> param_result(
                    &bound_value(body, bp[i].0),
                    bp[i].2,
                    Ok(#[trigger] bound@[i]),
                )
            &&& (is_exec_kind(kind) ==> forall|i: int|
                0 <= i < params.len() ==> valid_ident(#[trigger] params[i].0))
            &&& sql@ == statement_text(kind, qualified_name(db, schema, name), param_names(bp))
        },
        Err(ApiError::Param(e)) => exists|k: int|
            0 <= k < bp.len() && (forall|i: int|
                0 <= i < k ==> !param_fails(bound_value(body, bp[i].0), #[trigger] bp[i].2))
                && param_result(&bound_value(body, bp[k].0), bp[k].2, Err(e)),
        Err(ApiError::InvalidIdentifier(t)) => {
            &&& is_exec_kind(kind)
            &&& forall|i: int|
                0 <= i < bp.len() ==> !param_fails(bound_value(body, bp[i].0), #[trigger] bp[i].2)
            &&& exists|k: int|
                0 <= k < params.len() && (forall|i: int|
                    0 <= i < k ==> valid_ident(#[trigger] params[i].0)) && !valid_ident(
                    params[k].0,
                ) && t@ == params[k].0
        },
        Err(_) => false,
    }
}

pub open spec fn opt_object(o: Option<&JsonObject>) -> Option<JsonObject> {
    match o {
        Some(b) => Some(*b),
        None => None,
    }
}

fn qualified(schema: &str, name: &str, execution_database: Option<&str>) -> (r: Vec<char>)
    ensures
        r@ == qualified_name(opt_seq(execution_database), schema@, name@),
{
    proof { reveal_strlit("."); }
    let mut q: Vec<char> = Vec::new();
    match execution_database {
        Some(db) => {
            extend_str(&mut q, quote_ident(db).as_str());
            q.push('.');
        },
        None => {},
    }
    extend_str(&mut q, quote_ident(schema).as_str());
    q.push('.');
    extend_str(&mut q, quote_ident(name).as_str());
    match execution_database {
        Some(db) => {
            assert(q@ =~= quoted(db@) + "."@ + quoted(schema@) + "."@ + quoted(name@));
        },
        None => {
            assert(q@ =~= quoted(schema@) + "."@ + quoted(name@));
        },
    }
    q
}

fn push_placeholder(out: &mut Vec<char>, i: usize)
    ensures
        final(out)@ == old(out)@ + placeholder(i as nat),
{
    extend_str(out, "@P");
    let d = u128_digits(i as u128);
    extend_chars(out, &d);
    assert(final(out)@ =~= old(out)@ + placeholder(i as nat));
}

/// The bound arguments of the parameters, in order.
fn bind_params<'a>(params: &[Param], body: Option<&'a JsonObject>) -> (r: Result<
    Vec<SqlParam<'a>>,
    ApiError<'a>,
>)
    requires
        params_defined(params_view(params@), opt_object(body)),
    ensures
        match r {
            Ok(bound) => bound@.len() == params@.len() && forall|i: int|
                0 <= i < params@.len() ==> param_result(
                    &bound_value(opt_object(body), params@[i].name@),
                    params@[i].x_sql_type@,
                    Ok(#[trigger] bound@[i]),
                ),
            Err(ApiError::Param(e)) => exists|k: int|
                0 <= k < params@.len() && (forall|i: int|
                    0 <= i < k ==> !param_fails(
                        bound_value(opt_object(body), params@[i].name@),
                        #[trigger] params@[i].x_sql_type@,
                    )) && param_result(
                    &bound_value(opt_object(body), params@[k].name@),
                    params@[k].x_sql_type@,
                    Err(e),
                ),
            Err(_) => false,
        },
{
    let mut bound: Vec<SqlParam<'a>> = Vec::new();
    let mut i: usize = 0;
    while i < params.len()
        invariant
            i <= params@.len(),
            params_defined(params_view(params@), opt_object(body)),
            bound@.len() == i,
            forall|k: int|
                0 <= k < i ==> param_result(
                    &bound_value(opt_object(body), params@[k].name@),
                    params@[k].x_sql_type@,
                    Ok(#[trigger] bound@[k]),
                ),
        decreases params@.len() - i,
    {
        let value: &'a JsonValue = match body {
            Some(b) => match b.get(params[i].name.as_str()) {
                Some(v) => v,
                None => &JsonValue::Null,
            },
            None => &JsonValue::Null,
        };
        assert(*value == bound_value(opt_object(body), params@[i as int].name@));
        let ghost pv = params_view(params@);
        assert(pv[i as int] == param_view(params@[i as int]));
        assert(param_defined(bound_value(opt_object(body), pv[i as int].0), pv[i as int].2));
        match json_to_param(value, params[i].x_sql_type.as_str()) {
            Ok(p) => {
                bound.push(p);
            },
            Err(e) => {
                assert forall|k: int| 0 <= k < i implies !param_fails(
                    bound_value(opt_object(body), params@[k].name@),
                    #[trigger] params@[k].x_sql_type@,
                ) by {
                    lemma_param_fails(
                        &bound_value(opt_object(body), params@[k].name@),
                        params@[k].x_sql_type@,
                        Ok(bound@[k]),
                    );
                }
                return Err(ApiError::Param(e));
            },
        }
        i = i + 1;
    }
    Ok(bound)
}

/// Whether every parameter bound for a call of this kind can be converted
/// (`params_defined` of `bound_params`), so that `build_statement` may be
/// called.
pub fn arguments_convertible(kind: Option<&str>, params: &[Param], body: Option<&JsonObject>) -> (r:
    bool)
    ensures
        r == params_defined(
            bound_params(opt_seq(kind), params_view(params@), opt_object(body)),
            opt_object(body),
        ),
{
    let chosen = select_params(params, body, exec_kind(kind));
    all_convertible(chosen.as_slice(), body)
}

/// Whether the kind takes the `EXEC` path (`is_exec_kind`).
fn exec_kind(kind: Option<&str>) -> (r: bool)
    ensures
        r == is_exec_kind(opt_seq(kind)),
{
    match kind {
        Some(k) => {
            let is_view = str_eq(k, "VIEW");
            let is_table = contains_str(k, "TABLE_VALUED_FUNCTION");
            let is_scalar = ends_with_str(k, "_FUNCTION") && !is_table;
            !is_view && !is_table && !is_scalar
        },
        None => true,
    }
}

fn all_convertible(params: &[Param], body: Option<&JsonObject>) -> (r: bool)
    ensures
        r == params_defined(params_view(params@), opt_object(body)),
{
    let ghost pv = params_view(params@);
    let mut i: usize = 0;
    while i < params.len()
        invariant
            i <= params@.len(),
            pv == params_view(params@),
            forall|k: int|
                0 <= k < i ==> param_defined(
                    bound_value(opt_object(body), pv[k].0),
                    #[trigger] pv[k].2,
                ),
        decreases params@.len() - i,
    {
        let value: &JsonValue = match body {
            Some(b) => match b.get(params[i].name.as_str()) {
                Some(v) => v,
                None => &JsonValue::Null,
            },
            None => &JsonValue::Null,
        };
        assert(pv[i as int] == param_view(params@[i as int]));
        assert(*value == bound_value(opt_object(body), pv[i as int].0));
        if !param_is_defined(value, params[i].x_sql_type.as_str()) {
            assert(!param_defined(bound_value(opt_object(body), pv[i as int].0), pv[i as int].2));
            return false;
        }
        i = i + 1;
    }
    true
}

/// Builds the T-SQL text (with `@P1`, `@P2`, ... placeholders) and the
/// matching bound arguments for one operation call (see
/// `statement_result`). The object is two-part qualified, or three-part
/// qualified with the execution database when one is given. A view is
/// selected from; a table-valued function (a kind containing
/// `TABLE_VALUED_FUNCTION`) is selected from with positional placeholders,
/// and a scalar function (any other kind ending in `_FUNCTION`) is selected
/// as a value, `SELECT name(@P1, ...)`; for both, every declared parameter
/// is bound, a missing argument as null. Anything else (stored procedures,
/// and a missing kind) is `EXEC`uted with `@name = @Pn` arguments for the
/// parameters the body supplies only, so an omitted parameter keeps its
/// default; every declared parameter name must pass the identifier
/// allow-list. The bound arguments are converted first, in parameter
/// order, then the names are checked.
pub fn build_statement<'a>(
    schema: &str,
    name: &str,
    kind: Option<&str>,
    params: &[Param],
    body: &'a JsonObject,
    execution_database: Option<&str>,
) -> (r: Result<(String, Vec<SqlParam<'a>>), ApiError<'a>>)
    requires
        params_defined(bound_params(opt_seq(kind), params_view(params@), Some(*body)), Some(*body)),
    ensures
        statement_result(
            schema@,
            name@,
            opt_seq(kind),
            params_view(params@),
            Some(*body),
            opt_seq(execution_database),
            r,
        ),
{
    build_statement_in(schema, name, kind, params, Some(body), execution_database)
}

/// The parameters to bind: on the `EXEC` path those the body supplies,
/// otherwise all of them.
fn select_params(params: &[Param], body: Option<&JsonObject>, exec: bool) -> (r: Vec<Param>)
    ensures
        params_view(r@) == if exec {
            supplied_params(params_view(params@), opt_object(body))
        } else {
            params_view(params@)
        },
{
    let ghost pv = params_view(params@);
    let mut out: Vec<Param> = Vec::new();
    let mut i: usize = 0;
    assert(pv.take(0) =~= Seq::<ParamView>::empty());
    while i < params.len()
        invariant
            i <= params@.len(),
            pv == params_view(params@),
            params_view(out@) == if exec {
                supplied_params(pv.take(i as int), opt_object(body))
            } else {
                pv.take(i as int)
            },
        decreases params@.len() - i,
    {
        let keep = !exec || match body {
            Some(b) => b.get(params[i].name.as_str()).is_some(),
            None => false,
        };
        proof {
            assert(pv.take(i + 1).drop_last() =~= pv.take(i as int));
            assert(pv.take(i + 1).last() == pv[i as int]);
            assert(pv[i as int] == param_view(params@[i as int]));
            assert(pv.take(i + 1) =~= pv.take(i as int).push(pv[i as int]));
        }
        if keep {
            let ghost before = out@;
            out.push(
                Param {
                    name: params[i].name.clone(),
                    ordinal: params[i].ordinal,
                    x_sql_type: params[i].x_sql_type.clone(),
                },
            );
            assert(params_view(out@) =~= params_view(before).push(pv[i as int]));
        }
        i = i + 1;
    }
    assert(pv.take(params@.len() as int) =~= pv);
    out
}

fn push_placeholder_list(out: &mut Vec<char>, n: usize)
    ensures
        final(out)@ == old(out)@ + placeholder_list(n as nat),
{
    proof {
        reveal_strlit(", ");
    }
    let ghost prefix = out@;
    let mut i: usize = 0;
    assert(out@ =~= prefix + placeholder_list(0));
    while i < n
        invariant
            i <= n,
            out@ == prefix + placeholder_list(i as nat),
        decreases n - i,
    {
        if i > 0 {
            extend_str(out, ", ");
        }
        push_placeholder(out, i + 1);
        i = i + 1;
        assert(out@ =~= prefix + placeholder_list(i as nat));
    }
}

fn push_assignments(out: &mut Vec<char>, params: &[Param])
    ensures
        final(out)@ == old(out)@ + assignment_list(
            param_names(params_view(params@)),
            params@.len() as nat,
        ),
{
    proof {
        reveal_strlit(", ");
    }
    let ghost prefix = out@;
    let ghost names = param_names(params_view(params@));
    let mut i: usize = 0;
    assert(out@ =~= prefix + assignment_list(names, 0));
    while i < params.len()
        invariant
            i <= params@.len(),
            names == param_names(params_view(params@)),
            out@ == prefix + assignment_list(names, i as nat),
        decreases params@.len() - i,
    {
        if i > 0 {
            extend_str(out, ", ");
        }
        extend_str(out, "@");
        extend_str(out, params[i].name.as_str());
        extend_str(out, " = ");
        push_placeholder(out, i + 1);
        assert(names[i as int] == params@[i as int].name@);
        i = i + 1;
        assert(out@ =~= prefix + assignment_list(names, i as nat));
    }
}

/// `build_statement` for a call whose body may be absent (no arguments).
pub fn build_statement_in<'a>(
    schema: &str,
    name: &str,
    kind: Option<&str>,
    params: &[Param],
    body: Option<&'a JsonObject>,
    execution_database: Option<&str>,
) -> (r: Result<(String, Vec<SqlParam<'a>>), ApiError<'a>>)
    requires
        params_defined(
            bound_params(opt_seq(kind), params_view(params@), opt_object(body)),
            opt_object(body),
        ),
    ensures
        statement_result(
            schema@,
            name@,
            opt_seq(kind),
            params_view(params@),
            opt_object(body),
            opt_seq(execution_database),
            r,
        ),
{
    let q = qualified(schema, name, execution_database);
    let is_view = match kind {
        Some(k) => str_eq(k, "VIEW"),
        None => false,
    };
    let is_table = match kind {
        Some(k) => !is_view && contains_str(k, "TABLE_VALUED_FUNCTION"),
        None => false,
    };
    let is_scalar = match kind {
        Some(k) => !is_view && !is_table && ends_with_str(k, "_FUNCTION"),
        None => false,
    };
    let exec = !is_view && !is_table && !is_scalar;
    proof {
        match kind {
            Some(k) => {
                assert(is_view == (k@ == "VIEW"@));
                assert(is_table == (k@ != "VIEW"@ && is_table_function_kind(k@)));
                assert(is_scalar == (k@ != "VIEW"@ && is_scalar_function_kind(k@)));
            },
            None => {},
        }
        assert(exec == is_exec_kind(opt_seq(kind)));
    }
    let chosen = select_params(params, body, exec);
    let ghost bp = params_view(chosen@);
    assert(bp == bound_params(opt_seq(kind), params_view(params@), opt_object(body)));
    let bound = match bind_params(chosen.as_slice(), body) {
        Ok(b) => b,
        Err(e) => {
            proof {
                if e is Param {
                    let pe = e->Param_0;
                    let k = choose|k: int|
                        0 <= k < chosen@.len() && (forall|i: int|
                            0 <= i < k ==> !param_fails(
                                bound_value(opt_object(body), chosen@[i].name@),
                                #[trigger] chosen@[i].x_sql_type@,
                            )) && param_result(
                            &bound_value(opt_object(body), chosen@[k].name@),
                            chosen@[k].x_sql_type@,
                            Err(pe),
                        );
                    assert(bp[k] == param_view(chosen@[k]));
                    assert forall|i: int| 0 <= i < k implies !param_fails(
                        bound_value(opt_object(body), bp[i].0),
                        #[trigger] bp[i].2,
                    ) by {
                        assert(bp[i] == param_view(chosen@[i]));
                    }
                }
            }
            return Err(e);
        },
    };
    assert forall|k: int| 0 <= k < bp.len() implies param_result(
        &bound_value(opt_object(body), bp[k].0),
        #[trigger] bp[k].2,
        Ok(bound@[k]),
    ) && !param_fails(bound_value(opt_object(body), bp[k].0), bp[k].2) by {
        assert(bp[k] == param_view(chosen@[k]));
        lemma_param_fails(
            &bound_value(opt_object(body), chosen@[k].name@),
            chosen@[k].x_sql_type@,
            Ok(bound@[k]),
        );
    }
    let ghost pv = params_view(params@);
    if exec {
        let mut j: usize = 0;
        while j < params.len()
            invariant
                j <= params@.len(),
                pv == params_view(params@),
                exec == is_exec_kind(opt_seq(kind)),
                exec,
                bp == bound_params(opt_seq(kind), pv, opt_object(body)),
                forall|k: int|
                    0 <= k < bp.len() ==> !param_fails(
                        bound_value(opt_object(body), bp[k].0),
                        #[trigger] bp[k].2,
                    ),
                forall|k: int| 0 <= k < j ==> valid_ident(#[trigger] pv[k].0),
            decreases params@.len() - j,
        {
            assert(pv[j as int] == param_view(params@[j as int]));
            match validate_ident(params[j].name.as_str()) {
                Ok(_) => {},
                Err(e) => {
                    assert(!valid_ident(pv[j as int].0));
                    return Err(e);
                },
            }
            j = j + 1;
        }
    }
    let ghost names = param_names(bp);
    assert(names.len() == bound@.len());
    let mut sql: Vec<char> = Vec::new();
    if is_view {
        extend_str(&mut sql, "SELECT * FROM ");
        extend_chars(&mut sql, &q);
    } else if is_table {
        extend_str(&mut sql, "SELECT * FROM ");
        extend_chars(&mut sql, &q);
        extend_str(&mut sql, "(");
        push_placeholder_list(&mut sql, bound.len());
        extend_str(&mut sql, ")");
    } else if is_scalar {
        extend_str(&mut sql, "SELECT ");
        extend_chars(&mut sql, &q);
        extend_str(&mut sql, "(");
        push_placeholder_list(&mut sql, bound.len());
        extend_str(&mut sql, ")");
    } else {
        extend_str(&mut sql, "EXEC ");
        extend_chars(&mut sql, &q);
        if chosen.len() > 0 {
            extend_str(&mut sql, " ");
            push_assignments(&mut sql, chosen.as_slice());
        }
    }
    assert(sql@ =~= statement_text(opt_seq(kind), q@, names));
    let text = string_of(&sql);
    Ok((text, bound))
}

// ---------------------------------------------------------------------------
// Laws

pub open spec fn sorted_by_ordinal(s: Seq<ParamView>) -> bool {
    forall|i: int, j: int| 0 <= i <= j < s.len() ==> s[i].1 <= s[j].1
}

proof fn lemma_insert_by_ordinal(s: Seq<ParamView>, p: ParamView)
    requires
        sorted_by_ordinal(s),
    ensures
        sorted_by_ordinal(insert_by_ordinal(s, p)),
        insert_by_ordinal(s, p).to_multiset() == s.to_multiset().insert(p),
        forall|i: int|
            0 <= i < insert_by_ordinal(s, p).len() ==> #[trigger] insert_by_ordinal(s, p)[i]
                == p || s.contains(insert_by_ordinal(s, p)[i]),
    decreases s.len(),
{
    broadcast use vstd::seq_lib::group_to_multiset_ensures;

    if s.len() == 0 {
        assert(seq![p] == Seq::<ParamView>::empty().push(p));
    } else if s.last().1 <= p.1 {
        let t = s.push(p);
        assert forall|i: int| 0 <= i < t.len() implies t[i] == p || s.contains(t[i]) by {
            if i < s.len() {
                assert(t[i] == s[i]);
            }
        }
    } else {
        let d = s.drop_last();
        assert(sorted_by_ordinal(d));
        lemma_insert_by_ordinal(d, p);
        let t = insert_by_ordinal(d, p);
        let u = t.push(s.last());
        assert(s == d.push(s.last()));
        assert forall|i: int| 0 <= i < t.len() implies t[i].1 <= s.last().1 by {
            if t[i] != p {
                assert(d.contains(t[i]));
                let k = choose|k: int| 0 <= k < d.len() && d[k] == t[i];
                assert(s[k] == d[k]);
            }
        }
        assert forall|i: int| 0 <= i < u.len() implies u[i] == p || s.contains(u[i]) by {
            if i < t.len() {
                assert(u[i] == t[i]);
                if t[i] != p {
                    let k = choose|k: int| 0 <= k < d.len() && d[k] == t[i];
                    assert(s[k] == d[k]);
                }
            } else {
                assert(s[s.len() - 1] == u[i]);
            }
        }
        assert(u.to_multiset() =~= s.to_multiset().insert(p));
    }
}

proof fn lemma_sort_by_ordinal(s: Seq<ParamView>)
    ensures
        sorted_by_ordinal(sort_by_ordinal(s)),
        sort_by_ordinal(s).to_multiset() == s.to_multiset(),
    decreases s.len(),
{
    broadcast use vstd::seq_lib::group_to_multiset_ensures;

    if s.len() > 0 {
        lemma_sort_by_ordinal(s.drop_last());
        lemma_insert_by_ordinal(sort_by_ordinal(s.drop_last()), s.last());
        assert(s == s.drop_last().push(s.last()));
    } else {
        assert(s.to_multiset() =~= Seq::<ParamView>::empty().to_multiset());
    }
}

proof fn lemma_declared_params_exclude(entries: Seq<(String, JsonValue)>)
    ensures
        forall|i: int|
            0 <= i < declared_params(entries).len() ==> (#[trigger] declared_params(entries)[i]).0
                != "execution_database"@,
    decreases entries.len(),
{
    if entries.len() > 0 {
        lemma_declared_params_exclude(entries.drop_last());
        let rest = declared_params(entries.drop_last());
        let e = entries.last();
        if e.0@ != "execution_database"@ {
            let d = rest.push((e.0@, ordinal_of(e.1), sql_type_of(e.1)));
            assert forall|i: int| 0 <= i < d.len() implies (#[trigger] d[i]).0
                != "execution_database"@ by {
                if i < rest.len() {
                    assert(d[i] == rest[i]);
                }
            }
        }
    }
}

/// The parameter list of any input schema is ordered by ordinal, holds
/// exactly the declared parameters (as a multiset), and never holds the
/// synthetic `execution_database` property.
pub proof fn law_ordered_params_are_sorted_declared_params(input: JsonValue)
    ensures
        sorted_by_ordinal(ordered_params_of(input)),
        match request_properties_of(input) {
            Some(o) => ordered_params_of(input).to_multiset() == declared_params(
                o.entries@,
            ).to_multiset(),
            None => ordered_params_of(input).len() == 0,
        },
        forall|i: int|
            0 <= i < ordered_params_of(input).len() ==> (#[trigger] ordered_params_of(
                input,
            )[i]).0 != "execution_database"@,
{
    broadcast use vstd::seq_lib::group_to_multiset_ensures;

    match request_properties_of(input) {
        Some(o) => {
            let d = declared_params(o.entries@);
            lemma_sort_by_ordinal(d);
            lemma_declared_params_exclude(o.entries@);
            let r = sort_by_ordinal(d);
            assert forall|i: int| 0 <= i < r.len() implies (#[trigger] r[i]).0
                != "execution_database"@ by {
                assert(r.to_multiset().count(r[i]) > 0);
                assert(d.contains(r[i]));
            }
        },
        None => {},
    }
}

/// A table-valued function (a kind containing `TABLE_VALUED_FUNCTION`) is
/// always called with an argument list in parentheses:
/// `SELECT * FROM <object>(@P1, ..., @Pn)`, one placeholder for each
/// declared parameter, all of them bound; with no parameter the list is
/// empty and the text ends in `()`.
pub proof fn law_table_function_is_called_with_parentheses<'a>(
    schema: Seq<char>,
    name: Seq<char>,
    kind: Seq<char>,
    params: Seq<ParamView>,
    body: Option<JsonObject>,
    db: Option<Seq<char>>,
    r: Result<(String, Vec<SqlParam<'a>>), ApiError<'a>>,
)
    requires
        contains_seq(kind, "TABLE_VALUED_FUNCTION"@),
        statement_result(schema, name, Some(kind), params, body, db, r),
    ensures
        r matches Ok((sql, bound)) ==> {
            &&& bound@.len() == params.len()
            &&& sql@ == "SELECT * FROM "@ + qualified_name(db, schema, name) + "("@
                + placeholder_list(params.len()) + ")"@
        },
        r matches Ok((sql, bound)) ==> params.len() == 0 ==> sql@ == "SELECT * FROM "@
            + qualified_name(db, schema, name) + "()"@,
{
    reveal_strlit("VIEW");
    reveal_strlit("TABLE_VALUED_FUNCTION");
    reveal_strlit("()");
    reveal_strlit("(");
    reveal_strlit(")");
    if kind == "VIEW"@ {
        let i = choose|i: int| contains_at(kind, "TABLE_VALUED_FUNCTION"@, i);
        assert(i + 21 <= 4);
    }
    assert(!is_exec_kind(Some(kind)));
    match r {
        Ok((sql, bound)) => {
            assert(param_names(params).len() == params.len());
            if params.len() == 0 {
                assert("("@ + placeholder_list(0) + ")"@ =~= "()"@);
                assert(sql@ =~= "SELECT * FROM "@ + qualified_name(db, schema, name) + "()"@);
            }
        },
        Err(_) => {},
    }
}

/// The other kinds of operation: a view is selected from with no argument,
/// `SELECT * FROM <object>`; a scalar function (a kind ending in
/// `_FUNCTION` that is not table-valued) is selected as a value,
/// `SELECT <object>(@P1, ..., @Pn)`, one placeholder for each declared
/// parameter; anything else (a stored procedure, or no kind) is
/// `EXEC <object>`, followed by `@name = @Pn` for each parameter the body
/// supplies, in declaration order, when there is one.
pub proof fn law_views_scalars_and_procedures_have_their_own_statements<'a>(
    schema: Seq<char>,
    name: Seq<char>,
    kind: Option<Seq<char>>,
    params: Seq<ParamView>,
    body: Option<JsonObject>,
    db: Option<Seq<char>>,
    r: Result<(String, Vec<SqlParam<'a>>), ApiError<'a>>,
)
    requires
        statement_result(schema, name, kind, params, body, db, r),
    ensures
        r matches Ok((sql, bound)) ==> kind == Some("VIEW"@) ==> sql@ == "SELECT * FROM "@
            + qualified_name(db, schema, name),
        r matches Ok((sql, bound)) ==> (kind matches Some(k) && has_suffix(k, "_FUNCTION"@)
            && !contains_seq(k, "TABLE_VALUED_FUNCTION"@)) ==> {
            &&& bound@.len() == params.len()
            &&& sql@ == "SELECT "@ + qualified_name(db, schema, name) + "("@ + placeholder_list(
                params.len(),
            ) + ")"@
        },
        r matches Ok((sql, bound)) ==> (kind matches Some(k) && k != "VIEW"@ && !has_suffix(
            k,
            "_FUNCTION"@,
        ) && !contains_seq(k, "TABLE_VALUED_FUNCTION"@) || kind is None) ==> {
            let supplied = supplied_params(params, body);
            &&& bound@.len() == supplied.len()
            &&& supplied.len() == 0 ==> sql@ == "EXEC "@ + qualified_name(db, schema, name)
            &&& supplied.len() > 0 ==> sql@ == "EXEC "@ + qualified_name(db, schema, name) + " "@
                + assignment_list(param_names(supplied), supplied.len())
        },
{
    reveal_strlit("VIEW");
    reveal_strlit("_FUNCTION");
    if kind == Some("VIEW"@) {
        assert(!has_suffix("VIEW"@, "_FUNCTION"@));
    }
}

/// A call's own `execution_database` decides the database whatever the
/// configured default is; the default is used only when the call names
/// none, and with neither the call runs in the connection's database.
pub proof fn law_call_database_wins_over_the_default(
    body: Seq<(String, JsonValue)>,
    d1: Option<Seq<char>>,
    d2: Option<Seq<char>>,
)
    ensures
        lookup(body, "execution_database"@) is Some ==> execution_database_of(body, d1)
            == execution_database_of(body, d2),
        lookup(body, "execution_database"@) is None ==> execution_database_of(body, None) == Ok::<
            Option<Seq<char>>,
            Option<Seq<char>>,
        >(None),
{
}

/// Identifiers that pass the allow-list are qualified as `[schema].[name]`
/// with no execution database, and as `[db].[schema].[name]` with one.
pub proof fn law_qualified_name_of_valid_idents(db: Seq<char>, schema: Seq<char>, name: Seq<char>)
    requires
        valid_ident(db),
        valid_ident(schema),
        valid_ident(name),
    ensures
        qualified_name(None, schema, name) == seq!['['] + schema + "].["@ + name + seq![']'],
        qualified_name(Some(db), schema, name) == seq!['['] + db + "].["@ + schema + "].["@ + name
            + seq![']'],
{
    reveal_strlit("].[");
    reveal_strlit(".");
    crate::ident::law_quote_of_valid_ident(db);
    crate::ident::law_quote_of_valid_ident(schema);
    crate::ident::law_quote_of_valid_ident(name);
    assert(qualified_name(None, schema, name) =~= seq!['['] + schema + "].["@ + name + seq![']']);
    assert(qualified_name(Some(db), schema, name) =~= seq!['['] + db + "].["@ + schema + "].["@
        + name + seq![']']);
}

} // verus!
