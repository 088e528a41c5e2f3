//! The library's error values.
use vstd::prelude::*;

use crate::param::{param_error_text, ParamError};
use crate::text::{concat3, extend_str, string_of};

verus! {

/// Why an operation call could not be prepared.
pub enum ApiError<'a> {
    /// An identifier outside the `[A-Za-z0-9_]` allow-list (or empty).
    InvalidIdentifier(String),
    /// An operation path not of the `/<schema>/<name>` shape.
    BadPath(String),
    /// The `execution_database` argument is present but not a string.
    ExecutionDatabaseNotString,
    /// No input schema is known for the operation under the API version.
    NoResolvedSchema { operation_id: String, api_version: String },
    /// An argument that could not be converted to its declared SQL type.
    Param(ParamError<'a>),
    /// In read-only mode, an operation (named here) that is neither a view
    /// nor a function.
    ReadOnlyRefused(String),
}

/// The message of an error.
pub open spec fn api_error_text(e: ApiError) -> Seq<char> {
    match e {
        ApiError::InvalidIdentifier(t) => "identifier '"@ + t@
            + "' contains characters outside [A-Za-z0-9_]"@,
        ApiError::BadPath(p) => "endpoint path '"@ + p@
            + "' is not in the expected /<schema>/<name> shape"@,
        ApiError::ExecutionDatabaseNotString => "'execution_database' must be a string"@,
        ApiError::NoResolvedSchema { operation_id, api_version } =>
            "no resolved schema found for operation '"@ + operation_id@ + "' under api_version '"@
            + api_version@ + "'"@,
        ApiError::Param(e) => param_error_text(e),
        ApiError::ReadOnlyRefused(o) => "operation '"@ + o@
            + "' is refused in read-only mode: only views and functions may be called"@,
    }
}

impl<'a> ApiError<'a> {
    /// The error's message (`api_error_text`).
    pub fn message(&self) -> (r: String)
        ensures
            r@ == api_error_text(*self),
    {
        match self {
            ApiError::InvalidIdentifier(t) => concat3(
                "identifier '",
                t.as_str(),
                "' contains characters outside [A-Za-z0-9_]",
            ),
            ApiError::BadPath(p) => concat3(
                "endpoint path '",
                p.as_str(),
                "' is not in the expected /<schema>/<name> shape",
            ),
            ApiError::ExecutionDatabaseNotString => "'execution_database' must be a string".to_owned(),
            ApiError::NoResolvedSchema { operation_id, api_version } => {
                let mut v: Vec<char> = Vec::new();
                extend_str(&mut v, "no resolved schema found for operation '");
                extend_str(&mut v, operation_id.as_str());
                extend_str(&mut v, "' under api_version '");
                extend_str(&mut v, api_version.as_str());
                extend_str(&mut v, "'");
                string_of(&v)
            },
            ApiError::Param(e) => e.message(),
            ApiError::ReadOnlyRefused(o) => concat3(
                "operation '",
                o.as_str(),
                "' is refused in read-only mode: only views and functions may be called",
            ),
        }
    }
}

} // verus!
