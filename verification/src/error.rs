//! The failures that callers are told of.

use vstd::prelude::*;

verus! {

/// Why an operation failed.
#[derive(Debug, PartialEq, Eq)]
pub enum AppError {
    /// The record store failed; the text is for the log.
    Database(String),
    /// The configuration cannot be used; the text is for the log.
    Config(String),
    /// A bearer token was refused; the text is for the log.
    Jwt(String),
    /// A login flow failed; the caller is told the text.
    OAuth(String),
    /// The blob store failed; the text is for the log.
    S3(String),
    /// The caller sent something malformed; the caller is told the text.
    Validation(String),
    /// No record is stored under the token or id, or its quota was used up
    /// when it was to be consumed.
    NotFound,
    Unauthorized,
    /// The caller does not own the record.
    Forbidden,
    RateLimitExceeded,
    /// The record's expiry has passed.
    SecretExpired,
    /// The record's quota is used up, or the request was answered already.
    SecretAlreadyViewed,
    /// A record is stored under the token already.
    Conflict,
    /// Something else went wrong; the text is for the log.
    Internal(String),
}

/// An [`AppError`] with its texts as sequences of characters.
pub enum ErrorView {
    Database(Seq<char>),
    Config(Seq<char>),
    Jwt(Seq<char>),
    OAuth(Seq<char>),
    S3(Seq<char>),
    Validation(Seq<char>),
    NotFound,
    Unauthorized,
    Forbidden,
    RateLimitExceeded,
    SecretExpired,
    SecretAlreadyViewed,
    Conflict,
    Internal(Seq<char>),
}

impl View for AppError {
    type V = ErrorView;

    open spec fn view(&self) -> ErrorView {
        match *self {
            AppError::Database(text) => ErrorView::Database(text@),
            AppError::Config(text) => ErrorView::Config(text@),
            AppError::Jwt(text) => ErrorView::Jwt(text@),
            AppError::OAuth(text) => ErrorView::OAuth(text@),
            AppError::S3(text) => ErrorView::S3(text@),
            AppError::Validation(text) => ErrorView::Validation(text@),
            AppError::NotFound => ErrorView::NotFound,
            AppError::Unauthorized => ErrorView::Unauthorized,
            AppError::Forbidden => ErrorView::Forbidden,
            AppError::RateLimitExceeded => ErrorView::RateLimitExceeded,
            AppError::SecretExpired => ErrorView::SecretExpired,
            AppError::SecretAlreadyViewed => ErrorView::SecretAlreadyViewed,
            AppError::Conflict => ErrorView::Conflict,
            AppError::Internal(text) => ErrorView::Internal(text@),
        }
    }
}

/// A result with its value and its error as their views.
pub open spec fn view_result<T: View>(r: Result<T, AppError>) -> Result<T::V, ErrorView> {
    match r {
        Ok(value) => Ok(value@),
        Err(error) => Err(error@),
    }
}

/// The result of a lookup with the record found and the error as their
/// views.
pub open spec fn view_found<T: View>(r: Result<Option<T>, AppError>) -> Result<
    Option<T::V>,
    ErrorView,
> {
    match r {
        Ok(Some(value)) => Ok(Some(value@)),
        Ok(None) => Ok(None),
        Err(error) => Err(error@),
    }
}

/// A result without a value, with its error as its view.
pub open spec fn view_done(r: Result<(), AppError>) -> Result<(), ErrorView> {
    match r {
        Ok(_) => Ok(()),
        Err(error) => Err(error@),
    }
}

impl ErrorView {
    /// The status code that stands for the failure on the wire.
    pub open spec fn status(self) -> u16 {
        match self {
            ErrorView::Database(_) => 500,
            ErrorView::Config(_) => 500,
            ErrorView::Jwt(_) => 401,
            ErrorView::OAuth(_) => 400,
            ErrorView::S3(_) => 500,
            ErrorView::Validation(_) => 400,
            ErrorView::NotFound => 404,
            ErrorView::Unauthorized => 401,
            ErrorView::Forbidden => 403,
            ErrorView::RateLimitExceeded => 429,
            ErrorView::SecretExpired => 410,
            ErrorView::SecretAlreadyViewed => 410,
            ErrorView::Conflict => 409,
            ErrorView::Internal(_) => 500,
        }
    }

    /// What the caller is told. Failures of the store, of the blob store and
    /// of the configuration are named by kind only: their texts stay in the
    /// log.
    pub open spec fn public_message(self) -> Seq<char> {
        match self {
            ErrorView::Database(_) => "Database error"@,
            ErrorView::Config(_) => "Configuration error"@,
            ErrorView::Jwt(_) => "Invalid token"@,
            ErrorView::OAuth(text) => text,
            ErrorView::S3(_) => "Storage error"@,
            ErrorView::Validation(text) => text,
            ErrorView::NotFound => "Resource not found"@,
            ErrorView::Unauthorized => "Unauthorized"@,
            ErrorView::Forbidden => "Forbidden"@,
            ErrorView::RateLimitExceeded => "Rate limit exceeded"@,
            ErrorView::SecretExpired => "Secret expired"@,
            ErrorView::SecretAlreadyViewed => "Secret already viewed"@,
            ErrorView::Conflict => "Conflict"@,
            ErrorView::Internal(_) => "Internal server error"@,
        }
    }

    /// The failure in words, with its text where it has one.
    pub open spec fn description(self) -> Seq<char> {
        match self {
            ErrorView::Database(text) => "Database error: "@ + text,
            ErrorView::Config(text) => "Configuration error: "@ + text,
            ErrorView::Jwt(text) => "JWT error: "@ + text,
            ErrorView::OAuth(text) => "OAuth error: "@ + text,
            ErrorView::S3(text) => "S3 error: "@ + text,
            ErrorView::Validation(text) => "Validation error: "@ + text,
            ErrorView::NotFound => "Not found"@,
            ErrorView::Unauthorized => "Unauthorized"@,
            ErrorView::Forbidden => "Forbidden"@,
            ErrorView::RateLimitExceeded => "Rate limit exceeded"@,
            ErrorView::SecretExpired => "Secret expired"@,
            ErrorView::SecretAlreadyViewed => "Secret already viewed"@,
            ErrorView::Conflict => "Conflict"@,
            ErrorView::Internal(text) => "Internal server error: "@ + text,
        }
    }
}

impl AppError {
    /// The status code and the message that answer a caller whose call
    /// failed.
    pub fn status_and_message(&self) -> (r: (u16, String))
        ensures
            r.0 == self@.status(),
            r.1@ == self@.public_message(),
    {
        match self {
            AppError::Database(_) => (500, String::from_str("Database error")),
            AppError::Config(_) => (500, String::from_str("Configuration error")),
            AppError::Jwt(_) => (401, String::from_str("Invalid token")),
            AppError::OAuth(text) => (400, text.clone()),
            AppError::S3(_) => (500, String::from_str("Storage error")),
            AppError::Validation(text) => (400, text.clone()),
            AppError::NotFound => (404, String::from_str("Resource not found")),
            AppError::Unauthorized => (401, String::from_str("Unauthorized")),
            AppError::Forbidden => (403, String::from_str("Forbidden")),
            AppError::RateLimitExceeded => (429, String::from_str("Rate limit exceeded")),
            AppError::SecretExpired => (410, String::from_str("Secret expired")),
            AppError::SecretAlreadyViewed => (410, String::from_str("Secret already viewed")),
            AppError::Conflict => (409, String::from_str("Conflict")),
            AppError::Internal(_) => (500, String::from_str("Internal server error")),
        }
    }

    /// The failure in words, with its text where it has one.
    pub fn describe(&self) -> (r: String)
        ensures
            r@ == self@.description(),
    {
        match self {
            AppError::Database(text) => String::from_str("Database error: ").concat(text.as_str()),
            AppError::Config(text) => String::from_str("Configuration error: ").concat(
                text.as_str(),
            ),
            AppError::Jwt(text) => String::from_str("JWT error: ").concat(text.as_str()),
            AppError::OAuth(text) => String::from_str("OAuth error: ").concat(text.as_str()),
            AppError::S3(text) => String::from_str("S3 error: ").concat(text.as_str()),
            AppError::Validation(text) => String::from_str("Validation error: ").concat(
                text.as_str(),
            ),
            AppError::NotFound => String::from_str("Not found"),
            AppError::Unauthorized => String::from_str("Unauthorized"),
            AppError::Forbidden => String::from_str("Forbidden"),
            AppError::RateLimitExceeded => String::from_str("Rate limit exceeded"),
            AppError::SecretExpired => String::from_str("Secret expired"),
            AppError::SecretAlreadyViewed => String::from_str("Secret already viewed"),
            AppError::Conflict => String::from_str("Conflict"),
            AppError::Internal(text) => String::from_str("Internal server error: ").concat(
                text.as_str(),
            ),
        }
    }
}

} // verus!
