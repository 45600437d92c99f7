//! Sessions: the record linking a user to a logged-in state.

use vstd::prelude::*;

use crate::json::JsonValue;
use crate::types::ParseDate;

verus! {

/// A session as the store reports it.
#[derive(Debug)]
pub struct ParseSession {
    pub object_id: String,
    pub created_at: ParseDate,
    pub updated_at: Option<ParseDate>,
    /// The owning user: a pointer, or the whole record when expanded.
    pub user: JsonValue,
    pub session_token: String,
    pub installation_id: Option<String>,
    pub expires_at: Option<ParseDate>,
    pub restricted: Option<bool>,
    /// How the session came to be, as the store reports it.
    pub created_with: Option<JsonValue>,
    /// Members the store reported beyond the declared ones.
    pub other_fields: Vec<(String, JsonValue)>,
}

/// The response to a session update.
#[derive(Debug, Clone)]
pub struct SessionUpdateResponse {
    /// ISO 8601 text.
    pub updated_at: String,
}

/// The response when every session is fetched.
#[derive(Debug)]
pub struct GetAllSessionsResponse {
    pub results: Vec<ParseSession>,
}

} // verus!
