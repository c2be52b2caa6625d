//! The error type of the service and how each error is answered over HTTP.
use vstd::prelude::*;
use vstd::string::StringExecFns;

verus! {

/// An error that a request can end with.
#[derive(Debug, Clone)]
pub enum AppError {
    /// The request is malformed; the text says why.
    BadRequest(String),
    /// No credentials, or unknown ones.
    Unauthorized,
    /// The credentials lack the needed scope.
    Forbidden,
    /// The thing asked for does not exist.
    NotFound,
    /// Rate limit or queue full.
    TooManyRequests { retry_after_secs: u64 },
    /// A dependency of the service is not available; the text says which.
    Unavailable(String),
    /// An unexpected failure; the text describes it for the log only.
    Internal(String),
}

impl AppError {
    /// The error's display text.
    pub open spec fn display_spec(&self) -> Seq<char> {
        match self {
            AppError::BadRequest(m) => m@,
            AppError::Unauthorized => "unauthorized"@,
            AppError::Forbidden => "forbidden"@,
            AppError::NotFound => "not found"@,
            AppError::TooManyRequests { .. } => "too many requests"@,
            AppError::Unavailable(_) => "service unavailable"@,
            AppError::Internal(m) => m@,
        }
    }

    /// The HTTP status the error is answered with.
    pub open spec fn status_spec(&self) -> u16 {
        match self {
            AppError::BadRequest(_) => 400,
            AppError::Unauthorized => 401,
            AppError::Forbidden => 403,
            AppError::NotFound => 404,
            AppError::TooManyRequests { .. } => 429,
            AppError::Unavailable(_) => 503,
            AppError::Internal(_) => 500,
        }
    }

    /// The `error` text of the response body. Internal details stay out of it.
    pub open spec fn body_spec(&self) -> Seq<char> {
        match self {
            AppError::BadRequest(m) => m@,
            AppError::Unavailable(m) => m@,
            AppError::Internal(_) => "internal server error"@,
            _ => self.display_spec(),
        }
    }

    /// The `retry-after` header value in seconds, if the answer carries one.
    pub open spec fn retry_spec(&self) -> Option<u64> {
        match self {
            AppError::TooManyRequests { retry_after_secs } => Some(*retry_after_secs),
            AppError::Unavailable(_) => Some(2),
            _ => None,
        }
    }

    /// The display text (`to_string()`).
    pub fn message(&self) -> (r: String)
        ensures
            r@ == self.display_spec(),
    {
        match self {
            AppError::BadRequest(m) => m.clone(),
            AppError::Unauthorized => String::from_str("unauthorized"),
            AppError::Forbidden => String::from_str("forbidden"),
            AppError::NotFound => String::from_str("not found"),
            AppError::TooManyRequests { .. } => String::from_str("too many requests"),
            AppError::Unavailable(_) => String::from_str("service unavailable"),
            AppError::Internal(m) => m.clone(),
        }
    }

    /// The HTTP status code.
    pub fn status_code(&self) -> (r: u16)
        ensures
            r == self.status_spec(),
    {
        match self {
            AppError::BadRequest(_) => 400,
            AppError::Unauthorized => 401,
            AppError::Forbidden => 403,
            AppError::NotFound => 404,
            AppError::TooManyRequests { .. } => 429,
            AppError::Unavailable(_) => 503,
            AppError::Internal(_) => 500,
        }
    }

    /// The `error` text of the JSON body.
    pub fn body_message(&self) -> (r: String)
        ensures
            r@ == self.body_spec(),
    {
        match self {
            AppError::BadRequest(m) => m.clone(),
            AppError::Unavailable(m) => m.clone(),
            AppError::Internal(_) => String::from_str("internal server error"),
            _ => self.message(),
        }
    }

    /// The `retry-after` seconds, if any.
    pub fn retry_after(&self) -> (r: Option<u64>)
        ensures
            r == self.retry_spec(),
    {
        match self {
            AppError::TooManyRequests { retry_after_secs } => Some(*retry_after_secs),
            AppError::Unavailable(_) => Some(2),
            _ => None,
        }
    }
}

/// A `BadRequest` with the given text.
pub fn bad_request(m: &str) -> (r: AppError)
    ensures
        r matches AppError::BadRequest(t) && t@ == m@,
{
    AppError::BadRequest(String::from_str(m))
}

/// An `Internal` error with the given text.
pub fn internal(m: &str) -> (r: AppError)
    ensures
        r matches AppError::Internal(t) && t@ == m@,
{
    AppError::Internal(String::from_str(m))
}

} // verus!
