//! Request payloads: the plain values the HTTP layer hands the library.

use vstd::prelude::*;

verus! {

/// Credentials for registration and login.
#[derive(Debug)]
pub struct AuthPayload {
    pub username: String,
    pub password: String,
}

/// A refresh-token bearer for refresh and logout.
#[derive(Debug)]
pub struct RefreshPayload {
    pub refresh_token: String,
}

/// A re-entered password for bulk session revocation.
#[derive(Debug)]
pub struct PasswordPayload {
    pub password: String,
}

/// A requested new username.
#[derive(Debug)]
pub struct ChangeUsernamePayload {
    pub username: String,
}

/// A password change: the new password and the old one for re-verification.
#[derive(Debug)]
pub struct ChangePasswordPayload {
    pub new_password: String,
    pub old_password: String,
}

/// A free-form greeting request body.
#[derive(Debug)]
pub struct JsonRequest {
    pub message: String,
}

/// An identity taken from a request path.
#[derive(Debug)]
pub struct PathId {
    pub id: u64,
}

} // verus!
