//! Users: the account record and the request and response shapes of the
//! authentication flows.

use vstd::prelude::*;

use crate::types::ParseDate;

verus! {

/// A user account as the store reports it.
#[derive(Debug, Clone)]
pub struct ParseUser {
    pub object_id: Option<String>,
    pub username: String,
    pub email: Option<String>,
    pub email_verified: Option<bool>,
    pub session_token: Option<String>,
    pub created_at: Option<ParseDate>,
    pub updated_at: Option<ParseDate>,
}

/// The response to a successful sign-up.
#[derive(Debug, Clone)]
pub struct SignupResponse {
    pub object_id: String,
    pub session_token: String,
    pub created_at: ParseDate,
}

/// The body of a sign-up.
#[derive(Debug, Clone)]
pub struct SignupRequest {
    pub username: String,
    pub password: String,
    pub email: Option<String>,
}

/// The body of a login.
#[derive(Debug, Clone)]
pub struct LoginRequest {
    pub username: String,
    pub password: String,
}

/// The body of a password-reset request.
#[derive(Debug, Clone)]
pub struct PasswordResetRequest {
    pub email: String,
}

} // verus!
