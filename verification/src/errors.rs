//! Errors of the gateway and the JSON error answers they turn into.
use vstd::prelude::*;

use crate::text::concat;
use crate::types::ErrorBody;

verus! {

/// Everything that can go wrong while serving a request. Errors of the JSON
/// and HTTP libraries are carried as the text they display.
#[derive(Debug, Clone, PartialEq, Eq)]
pub enum AppError {
    Upstream(String),
    BadRequest(String),
    NotFound(String),
    RateLimit,
    Internal(String),
    Cache(String),
    Serialization(String),
    Network(String),
    Config(String),
}

/// The human-readable text of an error.
pub open spec fn error_text(e: AppError) -> Seq<char> {
    match e {
        AppError::Upstream(m) => "Upstream service error: "@ + m@,
        AppError::BadRequest(m) => "Invalid request: "@ + m@,
        AppError::NotFound(m) => "Not found: "@ + m@,
        AppError::RateLimit => "Rate limit exceeded"@,
        AppError::Internal(m) => "Internal server error: "@ + m@,
        AppError::Cache(m) => "Cache error: "@ + m@,
        AppError::Serialization(m) => "Serialization error: "@ + m@,
        AppError::Network(m) => "Network error: "@ + m@,
        AppError::Config(m) => "Configuration error: "@ + m@,
    }
}

/// The HTTP status an error is answered with.
pub open spec fn error_status(e: AppError) -> u16 {
    match e {
        AppError::Upstream(_) => 502,
        AppError::BadRequest(_) => 400,
        AppError::NotFound(_) => 404,
        AppError::RateLimit => 429,
        AppError::Internal(_) => 500,
        AppError::Cache(_) => 500,
        AppError::Serialization(_) => 500,
        AppError::Network(_) => 502,
        AppError::Config(_) => 500,
    }
}

/// The machine-readable code of the JSON answer to an error.
pub open spec fn error_code(e: AppError) -> Seq<char> {
    match e {
        AppError::Upstream(_) => "upstream_error"@,
        AppError::BadRequest(_) => "bad_request"@,
        AppError::NotFound(_) => "not_found"@,
        AppError::RateLimit => "rate_limit"@,
        AppError::Internal(_) => "internal_error"@,
        AppError::Cache(_) => "cache_error"@,
        AppError::Serialization(_) => "serialization_error"@,
        AppError::Network(_) => "network_error"@,
        AppError::Config(_) => "config_error"@,
    }
}

/// The message of the JSON answer to an error.
pub open spec fn error_message(e: AppError) -> Seq<char> {
    match e {
        AppError::Upstream(m) => m@,
        AppError::BadRequest(m) => m@,
        AppError::NotFound(m) => m@,
        AppError::RateLimit => "Too many requests. Please try again later."@,
        AppError::Internal(m) => m@,
        AppError::Cache(m) => m@,
        AppError::Serialization(m) => m@,
        AppError::Network(m) => "Network error: "@ + m@,
        AppError::Config(m) => m@,
    }
}

impl AppError {
    /// The human-readable text of the error, e.g. `Not found: item 4151`.
    pub fn to_string(&self) -> (s: String)
        ensures
            s@ == error_text(*self),
    {
        match self {
            AppError::Upstream(m) => concat("Upstream service error: ", m.as_str()),
            AppError::BadRequest(m) => concat("Invalid request: ", m.as_str()),
            AppError::NotFound(m) => concat("Not found: ", m.as_str()),
            AppError::RateLimit => "Rate limit exceeded".to_string(),
            AppError::Internal(m) => concat("Internal server error: ", m.as_str()),
            AppError::Cache(m) => concat("Cache error: ", m.as_str()),
            AppError::Serialization(m) => concat("Serialization error: ", m.as_str()),
            AppError::Network(m) => concat("Network error: ", m.as_str()),
            AppError::Config(m) => concat("Configuration error: ", m.as_str()),
        }
    }

    /// The HTTP status and JSON body that answer the error.
    pub fn response_parts(&self) -> (r: (u16, ErrorBody))
        ensures
            r.0 == error_status(*self),
            r.1.code@ == error_code(*self),
            r.1.message@ == error_message(*self),
    {
        match self {
            AppError::Upstream(m) => (
                502,
                ErrorBody { code: "upstream_error".to_string(), message: m.clone() },
            ),
            AppError::BadRequest(m) => (
                400,
                ErrorBody { code: "bad_request".to_string(), message: m.clone() },
            ),
            AppError::NotFound(m) => (
                404,
                ErrorBody { code: "not_found".to_string(), message: m.clone() },
            ),
            AppError::RateLimit => (
                429,
                ErrorBody {
                    code: "rate_limit".to_string(),
                    message: "Too many requests. Please try again later.".to_string(),
                },
            ),
            AppError::Internal(m) => (
                500,
                ErrorBody { code: "internal_error".to_string(), message: m.clone() },
            ),
            AppError::Cache(m) => (
                500,
                ErrorBody { code: "cache_error".to_string(), message: m.clone() },
            ),
            AppError::Serialization(m) => (
                500,
                ErrorBody { code: "serialization_error".to_string(), message: m.clone() },
            ),
            AppError::Network(m) => (
                502,
                ErrorBody {
                    code: "network_error".to_string(),
                    message: concat("Network error: ", m.as_str()),
                },
            ),
            AppError::Config(m) => (
                500,
                ErrorBody { code: "config_error".to_string(), message: m.clone() },
            ),
        }
    }
}

impl From<String> for AppError {
    /// Plain text becomes an internal error.
    fn from(s: String) -> (e: Self) {
        AppError::Internal(s)
    }
}

impl vstd::std_specs::convert::FromSpecImpl<String> for AppError {
    open spec fn obeys_from_spec() -> bool {
        true
    }

    open spec fn from_spec(s: String) -> AppError {
        AppError::Internal(s)
    }
}

impl From<&str> for AppError {
    /// Plain text becomes an internal error.
    fn from(s: &str) -> (e: Self)
        ensures
            e matches AppError::Internal(m) && m@ == s@,
    {
        AppError::Internal(s.to_string())
    }
}

impl vstd::std_specs::convert::FromSpecImpl<&str> for AppError {
    /// A `String` cannot be built in specifications, so the conversion is
    /// described by the `ensures` of `from` instead.
    open spec fn obeys_from_spec() -> bool {
        false
    }

    open spec fn from_spec(s: &str) -> AppError {
        AppError::Internal(choose|m: String| m@ == s@)
    }
}

} // verus!
