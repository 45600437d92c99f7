//! Roles: groups of users and child roles that permissions attach to.

use vstd::prelude::*;

use crate::acl::ParseACL;
use crate::json::JsonValue;
use crate::types::ParseDate;

verus! {

/// A role to be created: its name and access control list.
#[derive(Debug)]
pub struct NewParseRole {
    pub name: String,
    pub acl: ParseACL,
}

/// A role as the store reports it.
#[derive(Debug)]
pub struct ParseRole {
    pub object_id: Option<String>,
    pub created_at: Option<ParseDate>,
    pub updated_at: Option<ParseDate>,
    pub name: String,
    pub acl: ParseACL,
    /// Members the store reported beyond the declared ones.
    pub other_fields: Vec<(String, JsonValue)>,
}

impl ParseRole {
    /// The role a successful creation yields: the reported identifier and
    /// creation time joined with the name and list that were sent.
    pub fn from_creation(object_id: String, created_at: ParseDate, role: NewParseRole) -> (r:
        ParseRole)
        ensures
            r.object_id == Some(object_id),
            r.created_at == Some(created_at),
            r.updated_at is None,
            r.name == role.name,
            r.acl == role.acl,
            r.other_fields@.len() == 0,
    {
        ParseRole {
            object_id: Some(object_id),
            created_at: Some(created_at),
            updated_at: None,
            name: role.name,
            acl: role.acl,
            other_fields: Vec::new(),
        }
    }
}

} // verus!
