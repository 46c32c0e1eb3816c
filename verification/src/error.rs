//! Application-wide error type and its mapping onto HTTP answers.
use vstd::prelude::*;

use crate::text::{str_concat, owned};

verus! {

/// Application-wide error type.
///
/// Each variant maps to an HTTP status code and a message for the response body.
#[derive(Debug, Clone, PartialEq, Eq)]
pub enum AppError {
    /// A database failure, with the database's own description of it.
    Database(String),
    Internal(String),
    BadRequest(String),
    NotFound(String),
    Unauthorized,
    External(String),
    Config(String),
}

/// The HTTP status code that answers an error.
pub open spec fn spec_status_code(e: AppError) -> u16 {
    match e {
        AppError::Database(_) => 500,
        AppError::Internal(_) => 500,
        AppError::BadRequest(_) => 400,
        AppError::NotFound(_) => 404,
        AppError::Unauthorized => 401,
        AppError::External(_) => 502,
        AppError::Config(_) => 500,
    }
}

/// The message placed in the response body; database details stay private.
pub open spec fn spec_response_message(e: AppError) -> Seq<char> {
    match e {
        AppError::Database(_) => "database error"@,
        AppError::Internal(m) => m@,
        AppError::BadRequest(m) => m@,
        AppError::NotFound(m) => m@,
        AppError::Unauthorized => "unauthorized"@,
        AppError::External(m) => m@,
        AppError::Config(m) => m@,
    }
}

/// The human-readable description of an error (its `Display` text).
pub open spec fn spec_description(e: AppError) -> Seq<char> {
    match e {
        AppError::Database(m) => "database error: "@ + m@,
        AppError::Internal(m) => "internal error: "@ + m@,
        AppError::BadRequest(m) => "bad request: "@ + m@,
        AppError::NotFound(m) => "not found: "@ + m@,
        AppError::Unauthorized => "unauthorized"@,
        AppError::External(m) => "external service error: "@ + m@,
        AppError::Config(m) => "configuration error: "@ + m@,
    }
}

impl AppError {
    /// The HTTP status code of the response for this error.
    pub fn status_code(&self) -> (r: u16)
        ensures
            r == spec_status_code(*self),
    {
        match self {
            AppError::Database(_) => 500,
            AppError::Internal(_) => 500,
            AppError::BadRequest(_) => 400,
            AppError::NotFound(_) => 404,
            AppError::Unauthorized => 401,
            AppError::External(_) => 502,
            AppError::Config(_) => 500,
        }
    }

    /// The `error` message of the response body for this error.
    pub fn response_message(&self) -> (r: String)
        ensures
            r@ == spec_response_message(*self),
    {
        match self {
            AppError::Database(_) => String::from_str("database error"),
            AppError::Internal(m) => owned(m.as_str()),
            AppError::BadRequest(m) => owned(m.as_str()),
            AppError::NotFound(m) => owned(m.as_str()),
            AppError::Unauthorized => String::from_str("unauthorized"),
            AppError::External(m) => owned(m.as_str()),
            AppError::Config(m) => owned(m.as_str()),
        }
    }

    /// The error's description, as shown in logs and sync results.
    pub fn description(&self) -> (r: String)
        ensures
            r@ == spec_description(*self),
    {
        match self {
            AppError::Database(m) => str_concat("database error: ", m.as_str()),
            AppError::Internal(m) => str_concat("internal error: ", m.as_str()),
            AppError::BadRequest(m) => str_concat("bad request: ", m.as_str()),
            AppError::NotFound(m) => str_concat("not found: ", m.as_str()),
            AppError::Unauthorized => String::from_str("unauthorized"),
            AppError::External(m) => str_concat("external service error: ", m.as_str()),
            AppError::Config(m) => str_concat("configuration error: ", m.as_str()),
        }
    }
}

} // verus!
