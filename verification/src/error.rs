//! Error taxonomy of the backend: business failures are constructed at the
//! point of detection, internal failures are redacted before they reach a
//! client.

use vstd::prelude::*;
use vstd::string::*;

verus! {

/// Authentication and authorization failures.
#[derive(Clone, Copy, Debug, PartialEq, Eq, Structural)]
pub enum AuthError {
    InvalidCredentials,
    Unauthorized,
    Forbidden,
    TokenInvalid,
    TokenExpired,
    UsernameAlreadyTaken,
}

impl AuthError {
    /// The HTTP status this failure is surfaced as.
    pub open spec fn spec_status_code(self) -> u16 {
        match self {
            AuthError::InvalidCredentials => 401,
            AuthError::Unauthorized => 401,
            AuthError::Forbidden => 403,
            AuthError::TokenInvalid => 401,
            AuthError::TokenExpired => 401,
            AuthError::UsernameAlreadyTaken => 409,
        }
    }

    pub fn status_code(&self) -> (code: u16)
        ensures
            code == self.spec_status_code(),
    {
        match self {
            AuthError::InvalidCredentials => 401,
            AuthError::Unauthorized => 401,
            AuthError::Forbidden => 403,
            AuthError::TokenInvalid => 401,
            AuthError::TokenExpired => 401,
            AuthError::UsernameAlreadyTaken => 409,
        }
    }

    /// The client-visible message for this failure.
    pub open spec fn spec_message(self) -> Seq<char> {
        match self {
            AuthError::InvalidCredentials => "Invalid credentials"@,
            AuthError::Unauthorized => "Unauthorized"@,
            AuthError::Forbidden => "Forbidden"@,
            AuthError::TokenInvalid => "Token is invalid"@,
            AuthError::TokenExpired => "Token has expired"@,
            AuthError::UsernameAlreadyTaken => "Username already taken"@,
        }
    }

    pub fn message(&self) -> (msg: String)
        ensures
            msg@ == self.spec_message(),
    {
        match self {
            AuthError::InvalidCredentials => String::from_str("Invalid credentials"),
            AuthError::Unauthorized => String::from_str("Unauthorized"),
            AuthError::Forbidden => String::from_str("Forbidden"),
            AuthError::TokenInvalid => String::from_str("Token is invalid"),
            AuthError::TokenExpired => String::from_str("Token has expired"),
            AuthError::UsernameAlreadyTaken => String::from_str("Username already taken"),
        }
    }
}

/// Application-level errors.  Rejections raised while decoding a request body
/// or path stay with the HTTP layer; the library reports validation failures
/// through `Validation` and redacts the text of `Internal` failures.
#[derive(Debug, PartialEq, Eq)]
pub enum AppError {
    NotFound,
    Validation(String),
    Auth(AuthError),
    NotImplemented,
    Internal(String),
}

impl AppError {
    /// The HTTP status this error is surfaced as.
    pub open spec fn spec_status_code(self) -> u16 {
        match self {
            AppError::NotFound => 404,
            AppError::Validation(_) => 400,
            AppError::Auth(e) => e.spec_status_code(),
            AppError::NotImplemented => 501,
            AppError::Internal(_) => 500,
        }
    }

    pub fn status_code(&self) -> (code: u16)
        ensures
            code == self.spec_status_code(),
    {
        match self {
            AppError::NotFound => 404,
            AppError::Validation(_) => 400,
            AppError::Auth(e) => e.status_code(),
            AppError::NotImplemented => 501,
            AppError::Internal(_) => 500,
        }
    }

    /// The client-visible message: validation failures carry their own text,
    /// internal failures are replaced by a fixed string so that no store or
    /// codec detail leaks to a client.
    pub open spec fn spec_message(self) -> Seq<char> {
        match self {
            AppError::NotFound => "Not found"@,
            AppError::Validation(m) => m@,
            AppError::Auth(e) => e.spec_message(),
            AppError::NotImplemented => "Not implemented"@,
            AppError::Internal(_) => "Internal server error: Something went wrong"@,
        }
    }

    pub fn message(&self) -> (msg: String)
        ensures
            msg@ == self.spec_message(),
    {
        match self {
            AppError::NotFound => String::from_str("Not found"),
            AppError::Validation(m) => m.clone(),
            AppError::Auth(e) => e.message(),
            AppError::NotImplemented => String::from_str("Not implemented"),
            AppError::Internal(_) => String::from_str(
                "Internal server error: Something went wrong",
            ),
        }
    }
}

} // verus!
