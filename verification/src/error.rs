//! The errors of the gateway and the answers they turn into.

use crate::config::ConfigError;
use vstd::prelude::*;

verus! {

/// What can go wrong while a request is served. Each variant carries the
/// words of the underlying failure.
#[derive(Debug)]
pub enum AppError {
    /// The persistent store failed.
    Database(String),
    /// The upstream could not be reached.
    Http(String),
    /// A body was not valid JSON.
    Json(String),
    /// The configuration was turned down.
    Config(ConfigError),
    /// The request was not acceptable.
    Validation(String),
    /// Anything else.
    Internal(String),
}

/// The HTTP status that answers an error.
pub open spec fn status_of(e: AppError) -> u16 {
    match e {
        AppError::Database(_) => 500,
        AppError::Http(_) => 502,
        AppError::Json(_) => 400,
        AppError::Config(_) => 500,
        AppError::Validation(_) => 400,
        AppError::Internal(_) => 500,
    }
}

/// The words that open the description of an error.
pub open spec fn heading_of(e: AppError) -> Seq<char> {
    match e {
        AppError::Database(_) => "Database error: "@,
        AppError::Http(_) => "HTTP error: "@,
        AppError::Json(_) => "JSON error: "@,
        AppError::Config(_) => "Configuration error: "@,
        AppError::Validation(_) => "Validation error: "@,
        AppError::Internal(_) => "Internal error: "@,
    }
}

/// The words of the underlying failure.
pub open spec fn detail_of(e: AppError) -> Seq<char> {
    match e {
        AppError::Database(s) => s@,
        AppError::Http(s) => s@,
        AppError::Json(s) => s@,
        AppError::Config(c) => c.0@,
        AppError::Validation(s) => s@,
        AppError::Internal(s) => s@,
    }
}

impl AppError {
    /// The HTTP status that answers the error.
    pub fn status(&self) -> (code: u16)
        ensures
            code == status_of(*self),
    {
        match self {
            AppError::Database(_) => 500,
            AppError::Http(_) => 502,
            AppError::Json(_) => 400,
            AppError::Config(_) => 500,
            AppError::Validation(_) => 400,
            AppError::Internal(_) => 500,
        }
    }

    /// The message shown to the client; it never carries the detail.
    pub fn public_message(&self) -> (text: &'static str)
        ensures
            text@ == match *self {
                AppError::Database(_) => "Database error occurred"@,
                AppError::Http(_) => "Upstream service error"@,
                AppError::Json(_) => "Invalid JSON format"@,
                AppError::Config(_) => "Configuration error"@,
                AppError::Validation(_) => "Validation failed"@,
                AppError::Internal(_) => "Internal server error"@,
            },
    {
        match self {
            AppError::Database(_) => "Database error occurred",
            AppError::Http(_) => "Upstream service error",
            AppError::Json(_) => "Invalid JSON format",
            AppError::Config(_) => "Configuration error",
            AppError::Validation(_) => "Validation failed",
            AppError::Internal(_) => "Internal server error",
        }
    }

    /// The error type shown to the client: the name of the variant.
    pub fn kind(&self) -> (text: &'static str)
        ensures
            text@ == match *self {
                AppError::Database(_) => "Database"@,
                AppError::Http(_) => "Http"@,
                AppError::Json(_) => "Json"@,
                AppError::Config(_) => "Config"@,
                AppError::Validation(_) => "Validation"@,
                AppError::Internal(_) => "Internal"@,
            },
    {
        match self {
            AppError::Database(_) => "Database",
            AppError::Http(_) => "Http",
            AppError::Json(_) => "Json",
            AppError::Config(_) => "Config",
            AppError::Validation(_) => "Validation",
            AppError::Internal(_) => "Internal",
        }
    }

    /// The description of the error for the log: heading and detail.
    pub fn describe(&self) -> (text: String)
        ensures
            text@ == heading_of(*self) + detail_of(*self),
    {
        let (heading, detail) = match self {
            AppError::Database(s) => ("Database error: ", s.as_str()),
            AppError::Http(s) => ("HTTP error: ", s.as_str()),
            AppError::Json(s) => ("JSON error: ", s.as_str()),
            AppError::Config(c) => ("Configuration error: ", c.0.as_str()),
            AppError::Validation(s) => ("Validation error: ", s.as_str()),
            AppError::Internal(s) => ("Internal error: ", s.as_str()),
        };
        let mut text = String::from_str(heading);
        text.append(detail);
        text
    }
}

} // verus!
