//! The failures that the service reports to its callers.

use vstd::prelude::*;
use vstd::string::*;

verus! {

/// A failure, by the kind of answer it leads to.
#[derive(Debug)]
pub enum AppError {
    /// The portfolio, invoice or other record named does not exist.
    NotFound(String),
    /// The request is malformed.
    BadRequest(String),
    /// The caller is not signed in.
    Unauthorized,
    /// The request collides with a record that exists.
    Conflict(String),
    /// The store failed; the text is for the log.
    Database(String),
    /// No connection to the store could be had; the text is for the log.
    Pool(String),
    /// Anything else that went wrong inside; the text is for the log.
    Internal(String),
}

pub type AppResult<T> = Result<T, AppError>;

/// The HTTP status that answers a failure.
pub open spec fn status_code_spec(error: AppError) -> u16 {
    match error {
        AppError::NotFound(_) => 404,
        AppError::BadRequest(_) => 400,
        AppError::Unauthorized => 401,
        AppError::Conflict(_) => 409,
        AppError::Database(_) => 500,
        AppError::Pool(_) => 500,
        AppError::Internal(_) => 500,
    }
}

/// The text shown to the caller: the failure's own text where the caller caused it,
/// and a fixed text that gives nothing away where the service did.
pub open spec fn public_message_spec(error: AppError) -> Seq<char> {
    match error {
        AppError::NotFound(text) => text@,
        AppError::BadRequest(text) => text@,
        AppError::Unauthorized => "Unauthorized"@,
        AppError::Conflict(text) => text@,
        AppError::Database(_) => "Internal server error"@,
        AppError::Pool(_) => "Internal server error"@,
        AppError::Internal(_) => "Internal server error"@,
    }
}

impl AppError {
    /// The HTTP status that answers this failure.
    pub fn status_code(&self) -> (code: u16)
        ensures
            code == status_code_spec(*self),
    {
        match self {
            AppError::NotFound(_) => 404,
            AppError::BadRequest(_) => 400,
            AppError::Unauthorized => 401,
            AppError::Conflict(_) => 409,
            AppError::Database(_) => 500,
            AppError::Pool(_) => 500,
            AppError::Internal(_) => 500,
        }
    }

    /// The text shown to the caller.
    pub fn public_message(&self) -> (text: String)
        ensures
            text@ == public_message_spec(*self),
    {
        match self {
            AppError::NotFound(text) => text.clone(),
            AppError::BadRequest(text) => text.clone(),
            AppError::Unauthorized => String::from_str("Unauthorized"),
            AppError::Conflict(text) => text.clone(),
            AppError::Database(_) => String::from_str("Internal server error"),
            AppError::Pool(_) => String::from_str("Internal server error"),
            AppError::Internal(_) => String::from_str("Internal server error"),
        }
    }
}

} // verus!
