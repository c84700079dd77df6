//! The errors of the service, how they read, and how they are answered.
use vstd::prelude::*;
use vstd::string::*;

verus! {

/// An error of the service. A storage failure carries the text of the
/// database's error.
#[derive(Debug)]
pub enum AppError {
    NotFound(String),
    InvalidUrl(String),
    DatabaseError(String),
    InternalError(String),
    ValidationError(String),
    InvalidInput(String),
}

/// The body of the answer to a failed request.
#[derive(Debug)]
pub struct ErrorResponse {
    pub error: String,
    pub status: u16,
}

/// How an error reads.
pub open spec fn error_text(e: AppError) -> Seq<char> {
    match e {
        AppError::NotFound(m) => "URL not found: "@ + m@,
        AppError::InvalidUrl(m) => "Invalid URL: "@ + m@,
        AppError::DatabaseError(m) => "Database error: "@ + m@,
        AppError::InternalError(m) => "Internal server error: "@ + m@,
        AppError::ValidationError(m) => "Validation error: "@ + m@,
        AppError::InvalidInput(m) => "Invalid input: "@ + m@,
    }
}

/// The HTTP status that answers an error: 404 for an unknown short id, 400 for
/// a request that breaks a rule, 500 for a failure of the service itself.
pub open spec fn error_status(e: AppError) -> u16 {
    match e {
        AppError::NotFound(_) => 404,
        AppError::InvalidUrl(_) => 400,
        AppError::DatabaseError(_) => 500,
        AppError::InternalError(_) => 500,
        AppError::ValidationError(_) => 400,
        AppError::InvalidInput(_) => 400,
    }
}

/// The message sent back for an error: its own message, and for a storage
/// failure the database's text behind `Database error: `.
pub open spec fn error_message(e: AppError) -> Seq<char> {
    match e {
        AppError::NotFound(m) => m@,
        AppError::InvalidUrl(m) => m@,
        AppError::DatabaseError(m) => "Database error: "@ + m@,
        AppError::InternalError(m) => m@,
        AppError::ValidationError(m) => m@,
        AppError::InvalidInput(m) => m@,
    }
}

fn prefixed(prefix: &str, m: &String) -> (s: String)
    ensures
        s@ == prefix@ + m@,
{
    let mut s = String::from_str(prefix);
    s.append(m.as_str());
    s
}

impl AppError {
    /// The text of the error, as it is displayed.
    pub fn to_string(&self) -> (s: String)
        ensures
            s@ == error_text(*self),
    {
        match self {
            AppError::NotFound(m) => prefixed("URL not found: ", m),
            AppError::InvalidUrl(m) => prefixed("Invalid URL: ", m),
            AppError::DatabaseError(m) => prefixed("Database error: ", m),
            AppError::InternalError(m) => prefixed("Internal server error: ", m),
            AppError::ValidationError(m) => prefixed("Validation error: ", m),
            AppError::InvalidInput(m) => prefixed("Invalid input: ", m),
        }
    }

    /// The HTTP status code that answers this error.
    pub fn status_code(&self) -> (code: u16)
        ensures
            code == error_status(*self),
    {
        match self {
            AppError::NotFound(_) => 404,
            AppError::InvalidUrl(_) => 400,
            AppError::DatabaseError(_) => 500,
            AppError::InternalError(_) => 500,
            AppError::ValidationError(_) => 400,
            AppError::InvalidInput(_) => 400,
        }
    }

    /// The answer to a request that failed with this error.
    pub fn into_error_response(self) -> (r: ErrorResponse)
        ensures
            r.status == error_status(self),
            r.error@ == error_message(self),
    {
        let status = self.status_code();
        let error = match self {
            AppError::NotFound(m) => m,
            AppError::InvalidUrl(m) => m,
            AppError::DatabaseError(m) => prefixed("Database error: ", &m),
            AppError::InternalError(m) => m,
            AppError::ValidationError(m) => m,
            AppError::InvalidInput(m) => m,
        };
        ErrorResponse { error, status }
    }
}

} // verus!
