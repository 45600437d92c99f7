//! The assembled requests of the remaining services: files, schemas,
//! configuration, analytics, roles, relations, users and sessions.  Each
//! builder validates its inputs, resolves credentials, and hands back one
//! [`CompiledRequest`]; pre-flight failures happen here, before anything
//! could be sent.

use vstd::prelude::*;

use crate::acl::{acl_eligible, acl_entries_ok, ParseACL};
use crate::auth::{header_model, AuthOptions};
use crate::client::{request_url_of, CompiledRequest, HttpMethod, Parse};
use crate::error::{ErrorKind, ParseError};
use crate::json::{json_text, JsonValue};
use crate::types::{is_pointer_json, is_relation_op_json, Pointer, RelationOp};

verus! {

/// A relation-update body: one member, the relation field, carrying the
/// operation over pointers into `class` with the given identifiers.
pub open spec fn relation_body_ok(
    b: JsonValue,
    field: Seq<char>,
    op: Seq<char>,
    class: Seq<char>,
    ids: Seq<Seq<char>>,
) -> bool {
    &&& b matches JsonValue::Obj(es)
    &&& es@.len() == 1
    &&& es@[0].0@ == field
    &&& (es@[0].1 matches JsonValue::Obj(op_es) && op_es@.len() == 2 && op_es@[0].0@ == "__op"@ && (
    op_es@[0].1 matches JsonValue::Str(t) && t@ == op) && op_es@[1].0@ == "objects"@ && (op_es@[1].1
        matches JsonValue::Arr(items) && items@.len() == ids.len() && (forall|i: int|
        0 <= i < ids.len() ==> is_pointer_json(#[trigger] items@[i], class, ids[i]))))
}

/// Builds a relation-update body: pointers into `class` for each identifier,
/// under the given operation tag, on the named relation field.
pub fn relation_update_body(field: &str, add: bool, class: &str, ids: &Vec<String>) -> (r:
    JsonValue)
    ensures
        relation_body_ok(
            r,
            field@,
            if add {
                "AddRelation"@
            } else {
                "RemoveRelation"@
            },
            class@,
            ids.deep_view(),
        ),
{
    let mut pointers: Vec<Pointer> = Vec::new();
    let n = ids.len();
    let mut i: usize = 0;
    while i < n
        invariant
            i <= n,
            n == ids@.len(),
            pointers@.len() == i,
            forall|j: int|
                0 <= j < i ==> (#[trigger] pointers@[j]).class_name@ == class@
                    && pointers@[j].object_id@ == ids.deep_view()[j],
        decreases n - i,
    {
        proof {
            assert(ids.deep_view()[i as int] == ids@[i as int]@);
        }
        pointers.push(Pointer::new(class, ids[i].as_str()));
        i = i + 1;
    }
    let op = if add {
        RelationOp::add(pointers)
    } else {
        RelationOp::remove(pointers)
    };
    let op_json = op.to_json();
    let mut es: Vec<(String, JsonValue)> = Vec::new();
    es.push((field.to_owned(), op_json));
    JsonValue::Obj(es)
}

impl Parse {
    /// Assembles a file upload: the file's path under the protocol root, the
    /// application identifier, the stored session token or otherwise the
    /// master key when one is set, and the file's own content type.  The
    /// transport supplies the raw bytes.
    pub fn file_upload_request(&self, file_name: &str, mime_type: &str) -> (r: CompiledRequest)
        ensures
            r.method == HttpMethod::Post,
            r.url@ == request_url_of(self.server_url@, "files/"@ + file_name@),
            r.headers.deep_view() == upload_header_model(*self, mime_type@),
            r.body is None,
    {
        let mut url = self.server_url.clone();
        url.append("/parse/files/");
        url.append(file_name);
        proof {
            assert(crate::text::without_leading_slashes("files/"@ + file_name@) =~= "files/"@
                + file_name@) by {
                assert(("files/"@ + file_name@)[0] == 'f') by {
                    reveal_strlit("files/");
                }
            }
            reveal_strlit("/parse/");
            reveal_strlit("files/");
            reveal_strlit("/parse/files/");
            assert("/parse/files/"@ =~= "/parse/"@ + "files/"@);
            assert(url@ =~= request_url_of(self.server_url@, "files/"@ + file_name@));
        }
        let mut headers: Vec<(String, String)> = Vec::new();
        headers.push(("X-Parse-Application-Id".to_owned(), self.app_id.clone()));
        match &self.session_token {
            Some(t) => {
                headers.push(("X-Parse-Session-Token".to_owned(), t.clone()));
            },
            None => {
                match &self.master_key {
                    Some(mk) => {
                        headers.push(("X-Parse-Master-Key".to_owned(), mk.clone()));
                    },
                    None => {},
                }
            },
        }
        headers.push(("Content-Type".to_owned(), mime_type.to_owned()));
        proof {
            assert(headers.deep_view() =~= upload_header_model(*self, mime_type@)) by {
                assert(forall|j: int|
                    0 <= j < headers@.len() ==> headers.deep_view()[j] == (
                        headers@[j].0@,
                        headers@[j].1@,
                    ));
            }
        }
        CompiledRequest { method: HttpMethod::Post, url, headers, body: None }
    }

    /// Assembles the creation of a collection schema; the master key is
    /// required and the payload passes through as the body.
    pub fn create_schema_request(&self, class_name: &str, payload: &JsonValue) -> (r: Result<
        CompiledRequest,
        ParseError,
    >)
        ensures
            r is Err <==> self.master_key is None,
            r matches Err(e) ==> e.kind == ErrorKind::MasterKeyRequired,
            r matches Ok(req) ==> {
                &&& req.method == HttpMethod::Post
                &&& req.url@ == request_url_of(self.server_url@, "schemas/"@ + class_name@)
                &&& (req.body matches Some(s) && s@ == json_text(*payload))
            },
    {
        let mut endpoint = "schemas/".to_owned();
        endpoint.append(class_name);
        let opts = AuthOptions::master(true);
        self.build_request(HttpMethod::Post, endpoint.as_str(), Some(payload), &opts)
    }

    /// Assembles the update of a collection schema; the master key is
    /// required.
    pub fn update_schema_request(&self, class_name: &str, payload: &JsonValue) -> (r: Result<
        CompiledRequest,
        ParseError,
    >)
        ensures
            r is Err <==> self.master_key is None,
            r matches Err(e) ==> e.kind == ErrorKind::MasterKeyRequired,
            r matches Ok(req) ==> {
                &&& req.method == HttpMethod::Put
                &&& req.url@ == request_url_of(self.server_url@, "schemas/"@ + class_name@)
                &&& (req.body matches Some(s) && s@ == json_text(*payload))
            },
    {
        let mut endpoint = "schemas/".to_owned();
        endpoint.append(class_name);
        let opts = AuthOptions::master(true);
        self.build_request(HttpMethod::Put, endpoint.as_str(), Some(payload), &opts)
    }

    /// Assembles the fetch of a collection schema; the master key is
    /// required.
    pub fn get_schema_request(&self, class_name: &str) -> (r: Result<CompiledRequest, ParseError>)
        ensures
            r is Err <==> self.master_key is None,
            r matches Err(e) ==> e.kind == ErrorKind::MasterKeyRequired,
            r matches Ok(req) ==> {
                &&& req.method == HttpMethod::Get
                &&& req.url@ == request_url_of(self.server_url@, "schemas/"@ + class_name@)
                &&& req.body is None
            },
    {
        let mut endpoint = "schemas/".to_owned();
        endpoint.append(class_name);
        let opts = AuthOptions::master(true);
        self.build_request(HttpMethod::Get, endpoint.as_str(), None, &opts)
    }

    /// Assembles the deletion of a collection schema; the master key is
    /// required, and the store refuses the deletion of a non-empty
    /// collection.
    pub fn delete_schema_request(&self, class_name: &str) -> (r: Result<
        CompiledRequest,
        ParseError,
    >)
        ensures
            r is Err <==> self.master_key is None,
            r matches Err(e) ==> e.kind == ErrorKind::MasterKeyRequired,
            r matches Ok(req) ==> {
                &&& req.method == HttpMethod::Delete
                &&& req.url@ == request_url_of(self.server_url@, "schemas/"@ + class_name@)
                &&& req.body is None
            },
    {
        let mut endpoint = "schemas/".to_owned();
        endpoint.append(class_name);
        let opts = AuthOptions::master(true);
        self.build_request(HttpMethod::Delete, endpoint.as_str(), None, &opts)
    }

    /// Assembles the fetch of every collection schema; the master key is
    /// required.
    pub fn get_all_schemas_request(&self) -> (r: Result<CompiledRequest, ParseError>)
        ensures
            r is Err <==> self.master_key is None,
            r matches Err(e) ==> e.kind == ErrorKind::MasterKeyRequired,
            r matches Ok(req) ==> {
                &&& req.method == HttpMethod::Get
                &&& req.url@ == request_url_of(self.server_url@, "schemas"@)
                &&& req.body is None
            },
    {
        let opts = AuthOptions::master(true);
        self.build_request(HttpMethod::Get, "schemas", None, &opts)
    }

    /// Assembles the fetch of the server configuration; the master key is
    /// required.
    pub fn get_config_request(&self) -> (r: Result<CompiledRequest, ParseError>)
        ensures
            r is Err <==> self.master_key is None,
            r matches Err(e) ==> e.kind == ErrorKind::MasterKeyRequired,
            r matches Ok(req) ==> {
                &&& req.method == HttpMethod::Get
                &&& req.url@ == request_url_of(self.server_url@, "config"@)
                &&& req.body is None
            },
    {
        let opts = AuthOptions::master(true);
        self.build_request(HttpMethod::Get, "config", None, &opts)
    }

    /// Assembles a configuration update: the parameters to change, wrapped
    /// under one `params` member.  Fails with `MasterKeyRequired` when no
    /// master key is configured, and with `InvalidInput` on an empty or
    /// non-object parameter set.
    pub fn update_config_request(&self, params: JsonValue) -> (r: Result<
        CompiledRequest,
        ParseError,
    >)
        ensures
            r is Err <==> self.master_key is None || !(params matches JsonValue::Obj(es)
                && es@.len() > 0),
            r matches Err(e) ==> e.kind == ErrorKind::MasterKeyRequired || e.kind
                == ErrorKind::InvalidInput,
            self.master_key is None ==> (r matches Err(e) && e.kind
                == ErrorKind::MasterKeyRequired),
            r matches Ok(req) ==> {
                &&& req.method == HttpMethod::Put
                &&& req.url@ == request_url_of(self.server_url@, "config"@)
                &&& (req.body matches Some(s) && (exists|b: JsonValue|
                    s@ == json_text(b) && (b matches JsonValue::Obj(bs) && bs@.len() == 1
                        && bs@[0].0@ == "params"@ && bs@[0].1 == params)))
            },
    {
        if self.master_key.is_none() {
            return Err(
                ParseError::of_kind(
                    ErrorKind::MasterKeyRequired,
                    "The master key is required to update the server configuration.".to_owned(),
                ),
            );
        }
        let nonempty_object = match &params {
            JsonValue::Obj(es) => es.len() > 0,
            _ => false,
        };
        if !nonempty_object {
            return Err(
                ParseError::of_kind(
                    ErrorKind::InvalidInput,
                    "A configuration update needs a non-empty parameter object.".to_owned(),
                ),
            );
        }
        let mut es: Vec<(String, JsonValue)> = Vec::new();
        es.push(("params".to_owned(), params));
        let body = JsonValue::Obj(es);
        let opts = AuthOptions::master(true);
        self.build_request(HttpMethod::Put, "config", Some(&body), &opts)
    }

    /// Assembles the tracking of a custom event: the event's path and the
    /// supplied dimensions, or the canonical empty object without them.  The
    /// master key rides along exactly when one is configured.  Fails, with
    /// `InvalidInput`, exactly on an empty event name.
    pub fn track_event_request(&self, event_name: &str, dimensions: Option<JsonValue>) -> (r:
        Result<CompiledRequest, ParseError>)
        ensures
            r is Err <==> event_name@.len() == 0,
            r matches Err(e) ==> e.kind == ErrorKind::InvalidInput,
            r matches Ok(req) ==> {
                &&& req.method == HttpMethod::Post
                &&& req.url@ == request_url_of(self.server_url@, "events/"@ + event_name@)
                &&& (req.body matches Some(s) && match dimensions {
                    Some(d) => s@ == json_text(d),
                    None => s@ == seq!['{', '}'],
                })
            },
    {
        if event_name.unicode_len() == 0 {
            return Err(
                ParseError::of_kind(
                    ErrorKind::InvalidInput,
                    "An event needs a non-empty name.".to_owned(),
                ),
            );
        }
        let mut endpoint = "events/".to_owned();
        endpoint.append(event_name);
        let body = match dimensions {
            Some(d) => d,
            None => JsonValue::Obj(Vec::new()),
        };
        proof {
            if dimensions is None {
                assert(body matches JsonValue::Obj(bs) && bs@ =~= Seq::<(String, JsonValue)>::empty());
                assert(json_text(body) =~= seq!['{', '}']);
            }
        }
        let use_master = match &self.master_key {
            Some(_) => true,
            None => false,
        };
        let opts = AuthOptions::master(use_master);
        self.build_request(HttpMethod::Post, endpoint.as_str(), Some(&body), &opts)
    }

    /// Assembles the creation of a role: its name and access control list as
    /// the body.  The master key rides along exactly when one is configured.
    pub fn create_role_request(&self, name: &str, acl: &ParseACL) -> (r: Result<
        CompiledRequest,
        ParseError,
    >)
        ensures
            r is Ok,
            r matches Ok(req) ==> {
                &&& req.method == HttpMethod::Post
                &&& req.url@ == request_url_of(self.server_url@, "roles"@)
                &&& (req.body matches Some(s) && (exists|b: JsonValue|
                    s@ == json_text(b) && (b matches JsonValue::Obj(bs) && bs@.len() == 2
                        && bs@[0].0@ == "name"@ && (bs@[0].1 matches JsonValue::Str(t) && t@
                        == name@) && bs@[1].0@ == "ACL"@ && (bs@[1].1 matches JsonValue::Obj(fs)
                        && acl_entries_ok(fs@, acl_eligible(acl.permissions@))))))
            },
    {
        let mut es: Vec<(String, JsonValue)> = Vec::new();
        es.push(("name".to_owned(), JsonValue::Str(name.to_owned())));
        es.push(("ACL".to_owned(), acl.to_json_value()));
        let body = JsonValue::Obj(es);
        let use_master = match &self.master_key {
            Some(_) => true,
            None => false,
        };
        let opts = AuthOptions::master(use_master);
        self.build_request(HttpMethod::Post, "roles", Some(&body), &opts)
    }

    /// Assembles the fetch of one role by identifier, under the default
    /// credential precedence.
    pub fn get_role_request(&self, object_id: &str) -> (r: Result<CompiledRequest, ParseError>)
        ensures
            r is Ok,
            r matches Ok(req) ==> {
                &&& req.method == HttpMethod::Get
                &&& req.url@ == request_url_of(self.server_url@, "roles/"@ + object_id@)
                &&& req.body is None
            },
    {
        let mut endpoint = "roles/".to_owned();
        endpoint.append(object_id);
        let opts = AuthOptions::plain();
        self.build_request(HttpMethod::Get, endpoint.as_str(), None, &opts)
    }

    /// Assembles the deletion of one role; the master key rides along exactly
    /// when one is configured.
    pub fn delete_role_request(&self, object_id: &str) -> (r: Result<CompiledRequest, ParseError>)
        ensures
            r is Ok,
            r matches Ok(req) ==> {
                &&& req.method == HttpMethod::Delete
                &&& req.url@ == request_url_of(self.server_url@, "roles/"@ + object_id@)
                &&& req.body is None
            },
    {
        let mut endpoint = "roles/".to_owned();
        endpoint.append(object_id);
        let use_master = match &self.master_key {
            Some(_) => true,
            None => false,
        };
        let opts = AuthOptions::master(use_master);
        self.build_request(HttpMethod::Delete, endpoint.as_str(), None, &opts)
    }

    /// Assembles a membership update on one role: adds or removes users, as
    /// pointers into the user collection on the role's `users` relation.
    /// Fails, with `InvalidInput`, exactly on an empty identifier list.
    pub fn role_users_request(&self, role_id: &str, user_ids: &Vec<String>, add: bool) -> (r:
        Result<CompiledRequest, ParseError>)
        ensures
            r is Err <==> user_ids@.len() == 0,
            r matches Err(e) ==> e.kind == ErrorKind::InvalidInput,
            r matches Ok(req) ==> {
                &&& req.method == HttpMethod::Put
                &&& req.url@ == request_url_of(self.server_url@, "roles/"@ + role_id@)
                &&& (req.body matches Some(s) && (exists|b: JsonValue|
                    s@ == json_text(b) && relation_body_ok(
                        b,
                        "users"@,
                        if add {
                            "AddRelation"@
                        } else {
                            "RemoveRelation"@
                        },
                        "_User"@,
                        user_ids.deep_view(),
                    )))
            },
    {
        if user_ids.len() == 0 {
            return Err(
                ParseError::of_kind(
                    ErrorKind::InvalidInput,
                    "A relation update needs at least one identifier.".to_owned(),
                ),
            );
        }
        let body = relation_update_body("users", add, "_User", user_ids);
        let mut endpoint = "roles/".to_owned();
        endpoint.append(role_id);
        let use_master = match &self.master_key {
            Some(_) => true,
            None => false,
        };
        let opts = AuthOptions::master(use_master);
        self.build_request(HttpMethod::Put, endpoint.as_str(), Some(&body), &opts)
    }

    /// Assembles a hierarchy update on one role: adds or removes child roles,
    /// as pointers into the role collection on the role's `roles` relation.
    /// Fails, with `InvalidInput`, exactly on an empty identifier list.
    pub fn role_children_request(&self, role_id: &str, child_role_ids: &Vec<String>, add: bool) -> (
        r: Result<CompiledRequest, ParseError>)
        ensures
            r is Err <==> child_role_ids@.len() == 0,
            r matches Err(e) ==> e.kind == ErrorKind::InvalidInput,
            r matches Ok(req) ==> {
                &&& req.method == HttpMethod::Put
                &&& req.url@ == request_url_of(self.server_url@, "roles/"@ + role_id@)
                &&& (req.body matches Some(s) && (exists|b: JsonValue|
                    s@ == json_text(b) && relation_body_ok(
                        b,
                        "roles"@,
                        if add {
                            "AddRelation"@
                        } else {
                            "RemoveRelation"@
                        },
                        "_Role"@,
                        child_role_ids.deep_view(),
                    )))
            },
    {
        if child_role_ids.len() == 0 {
            return Err(
                ParseError::of_kind(
                    ErrorKind::InvalidInput,
                    "A relation update needs at least one identifier.".to_owned(),
                ),
            );
        }
        let body = relation_update_body("roles", add, "_Role", child_role_ids);
        let mut endpoint = "roles/".to_owned();
        endpoint.append(role_id);
        let use_master = match &self.master_key {
            Some(_) => true,
            None => false,
        };
        let opts = AuthOptions::master(use_master);
        self.build_request(HttpMethod::Put, endpoint.as_str(), Some(&body), &opts)
    }

    /// Assembles a relation update on any record: adds or removes pointers on
    /// one of its relation fields.  Fails, with `InvalidInput`, exactly when
    /// the target list is empty or the collection name, record identifier or
    /// relation field is empty.
    pub fn relation_request(
        &self,
        parent_class_name: &str,
        parent_object_id: &str,
        relation_key: &str,
        targets: &Vec<Pointer>,
        add: bool,
    ) -> (r: Result<CompiledRequest, ParseError>)
        ensures
            r is Err <==> targets@.len() == 0 || parent_class_name@.len() == 0
                || parent_object_id@.len() == 0 || relation_key@.len() == 0,
            r matches Err(e) ==> e.kind == ErrorKind::InvalidInput,
            r matches Ok(req) ==> {
                &&& req.method == HttpMethod::Put
                &&& req.url@ == request_url_of(
                    self.server_url@,
                    "classes/"@ + parent_class_name@ + seq!['/'] + parent_object_id@,
                )
                &&& (req.body matches Some(s) && (exists|b: JsonValue|
                    s@ == json_text(b) && (b matches JsonValue::Obj(es) && es@.len() == 1
                        && es@[0].0@ == relation_key@ && is_relation_op_json(
                        es@[0].1,
                        if add {
                            "AddRelation"@
                        } else {
                            "RemoveRelation"@
                        },
                        targets@,
                    ))))
            },
    {
        if targets.len() == 0 {
            return Err(
                ParseError::of_kind(
                    ErrorKind::InvalidInput,
                    "A relation update needs at least one target pointer.".to_owned(),
                ),
            );
        }
        if parent_class_name.unicode_len() == 0 || parent_object_id.unicode_len() == 0
            || relation_key.unicode_len() == 0 {
            return Err(
                ParseError::of_kind(
                    ErrorKind::InvalidInput,
                    "A relation update names a collection, a record and a relation field.".to_owned(),
                ),
            );
        }
        let mut pointers: Vec<Pointer> = Vec::new();
        let n = targets.len();
        let mut i: usize = 0;
        while i < n
            invariant
                i <= n,
                n == targets@.len(),
                pointers@.len() == i,
                forall|j: int|
                    0 <= j < i ==> (#[trigger] pointers@[j]).class_name@
                        == targets@[j].class_name@ && pointers@[j].object_id@
                        == targets@[j].object_id@,
            decreases n - i,
        {
            pointers.push(
                Pointer::new(targets[i].class_name.as_str(), targets[i].object_id.as_str()),
            );
            i = i + 1;
        }
        let op = if add {
            RelationOp::add(pointers)
        } else {
            RelationOp::remove(pointers)
        };
        let op_json = op.to_json();
        let mut es: Vec<(String, JsonValue)> = Vec::new();
        es.push((relation_key.to_owned(), op_json));
        let body = JsonValue::Obj(es);
        let endpoint = crate::object::object_endpoint(parent_class_name, parent_object_id);
        let use_master = match &self.master_key {
            Some(_) => true,
            None => false,
        };
        let opts = AuthOptions::master(use_master);
        self.build_request(HttpMethod::Put, endpoint.as_str(), Some(&body), &opts)
    }

    /// Assembles the fetch of the caller's own session.  Fails, with
    /// `SessionTokenMissing` and before anything is sent, exactly when no
    /// session token is stored.
    pub fn session_me_request(&self) -> (r: Result<CompiledRequest, ParseError>)
        ensures
            r is Err <==> self.session_token is None,
            r matches Err(e) ==> e.kind == ErrorKind::SessionTokenMissing,
            r matches Ok(req) ==> {
                &&& req.method == HttpMethod::Get
                &&& req.url@ == request_url_of(self.server_url@, "sessions/me"@)
                &&& req.body is None
            },
    {
        if self.session_token.is_none() {
            return Err(
                ParseError::of_kind(
                    ErrorKind::SessionTokenMissing,
                    "The call needs a session token and none is stored.".to_owned(),
                ),
            );
        }
        let opts = AuthOptions::plain();
        self.build_request(HttpMethod::Get, "sessions/me", None, &opts)
    }

    /// Assembles the fetch of one session by identifier; the master key is
    /// required.
    pub fn get_session_request(&self, object_id: &str) -> (r: Result<CompiledRequest, ParseError>)
        ensures
            r is Err <==> self.master_key is None,
            r matches Err(e) ==> e.kind == ErrorKind::MasterKeyRequired,
            r matches Ok(req) ==> {
                &&& req.method == HttpMethod::Get
                &&& req.url@ == request_url_of(self.server_url@, "sessions/"@ + object_id@)
                &&& req.body is None
            },
    {
        let mut endpoint = "sessions/".to_owned();
        endpoint.append(object_id);
        let opts = AuthOptions::master(true);
        self.build_request(HttpMethod::Get, endpoint.as_str(), None, &opts)
    }

    /// Assembles the deletion of one session by identifier; the master key is
    /// required.
    pub fn delete_session_request(&self, object_id: &str) -> (r: Result<
        CompiledRequest,
        ParseError,
    >)
        ensures
            r is Err <==> self.master_key is None,
            r matches Err(e) ==> e.kind == ErrorKind::MasterKeyRequired,
            r matches Ok(req) ==> {
                &&& req.method == HttpMethod::Delete
                &&& req.url@ == request_url_of(self.server_url@, "sessions/"@ + object_id@)
                &&& req.body is None
            },
    {
        let mut endpoint = "sessions/".to_owned();
        endpoint.append(object_id);
        let opts = AuthOptions::master(true);
        self.build_request(HttpMethod::Delete, endpoint.as_str(), None, &opts)
    }

    /// Assembles the update of one session by identifier; the master key is
    /// required and the payload passes through as the body.
    pub fn update_session_request(&self, object_id: &str, session_data: &JsonValue) -> (r: Result<
        CompiledRequest,
        ParseError,
    >)
        ensures
            r is Err <==> self.master_key is None,
            r matches Err(e) ==> e.kind == ErrorKind::MasterKeyRequired,
            r matches Ok(req) ==> {
                &&& req.method == HttpMethod::Put
                &&& req.url@ == request_url_of(self.server_url@, "sessions/"@ + object_id@)
                &&& (req.body matches Some(s) && s@ == json_text(*session_data))
            },
    {
        let mut endpoint = "sessions/".to_owned();
        endpoint.append(object_id);
        let opts = AuthOptions::master(true);
        self.build_request(HttpMethod::Put, endpoint.as_str(), Some(session_data), &opts)
    }

    /// Assembles the fetch of every session, with an optional raw query
    /// string appended; the master key is required.
    pub fn get_all_sessions_request(&self, query_string: Option<&str>) -> (r: Result<
        CompiledRequest,
        ParseError,
    >)
        ensures
            r is Err <==> self.master_key is None,
            r matches Err(e) ==> e.kind == ErrorKind::MasterKeyRequired,
            r matches Ok(req) ==> {
                &&& req.method == HttpMethod::Get
                &&& req.url@ == request_url_of(
                    self.server_url@,
                    match query_string {
                        Some(qs) => "sessions?"@ + qs@,
                        None => "sessions"@,
                    },
                )
                &&& req.body is None
            },
    {
        let endpoint: String = match query_string {
            Some(qs) => {
                let mut e = "sessions?".to_owned();
                e.append(qs);
                e
            },
            None => "sessions".to_owned(),
        };
        let opts = AuthOptions::master(true);
        self.build_request(HttpMethod::Get, endpoint.as_str(), None, &opts)
    }

    /// Assembles a cloud-function call: the function's path and its
    /// parameters as the body, under the default credential precedence.
    pub fn cloud_function_request(&self, function_name: &str, params: &JsonValue) -> (r: Result<
        CompiledRequest,
        ParseError,
    >)
        ensures
            r is Ok,
            r matches Ok(req) ==> {
                &&& req.method == HttpMethod::Post
                &&& req.url@ == request_url_of(self.server_url@, "functions/"@ + function_name@)
                &&& (req.body matches Some(s) && s@ == json_text(*params))
            },
    {
        let mut endpoint = "functions/".to_owned();
        endpoint.append(function_name);
        let opts = AuthOptions::plain();
        self.build_request(HttpMethod::Post, endpoint.as_str(), Some(params), &opts)
    }
}

/// The header list of a file upload: the application identifier, the stored
/// session token or otherwise the configured master key, and the file's
/// content type.
pub open spec fn upload_header_model(ctx: Parse, mime: Seq<char>) -> Seq<(Seq<char>, Seq<char>)> {
    let base = seq![("X-Parse-Application-Id"@, ctx.app_id@)];
    let with_cred = match ctx.session_token {
        Some(t) => base.push(("X-Parse-Session-Token"@, t@)),
        None => match ctx.master_key {
            Some(mk) => base.push(("X-Parse-Master-Key"@, mk@)),
            None => base,
        },
    };
    with_cred.push(("Content-Type"@, mime))
}

/// User flows bound to one client value: the sign-up, login, inspection and
/// logout requests, and the session-token transitions their outcomes apply.
/// The client is owned and handed back, so the one piece of shared mutable
/// state — the stored session token — stays explicit.
#[derive(Debug)]
pub struct ParseUserHandle {
    pub client: Parse,
}

impl ParseUserHandle {
    /// Takes ownership of a client for a sequence of user flows.
    pub fn new(client: Parse) -> (r: ParseUserHandle)
        ensures
            r.client == client,
    {
        ParseUserHandle { client }
    }

    /// Hands the client back.
    pub fn into_client(self) -> (r: Parse)
        ensures
            r == self.client,
    {
        self.client
    }

    /// Assembles a sign-up: the user record as the body.
    pub fn signup_request(&self, user_data: &JsonValue) -> (r: Result<CompiledRequest, ParseError>)
        ensures
            r is Ok,
            r matches Ok(req) ==> {
                &&& req.method == HttpMethod::Post
                &&& req.url@ == request_url_of(self.client.server_url@, "users"@)
                &&& (req.body matches Some(s) && s@ == json_text(*user_data))
            },
    {
        let opts = AuthOptions::plain();
        self.client.build_request(HttpMethod::Post, "users", Some(user_data), &opts)
    }

    /// Assembles a login: the credentials as the body.
    pub fn login_request(&self, credentials: &JsonValue) -> (r: Result<CompiledRequest, ParseError>)
        ensures
            r is Ok,
            r matches Ok(req) ==> {
                &&& req.method == HttpMethod::Post
                &&& req.url@ == request_url_of(self.client.server_url@, "login"@)
                &&& (req.body matches Some(s) && s@ == json_text(*credentials))
            },
    {
        let opts = AuthOptions::plain();
        self.client.build_request(HttpMethod::Post, "login", Some(credentials), &opts)
    }

    /// Stores the session token a successful sign-up or login returned.
    pub fn apply_login(&mut self, session_token: Option<String>)
        ensures
            final(self).client.session_token == session_token,
            final(self).client.server_url == old(self).client.server_url,
            final(self).client.app_id == old(self).client.app_id,
            final(self).client.javascript_key == old(self).client.javascript_key,
            final(self).client.rest_api_key == old(self).client.rest_api_key,
            final(self).client.master_key == old(self).client.master_key,
    {
        self.client.set_session_token(session_token);
    }

    /// Assembles the fetch of the logged-in user.  Fails, with
    /// `SessionTokenMissing` and before anything is sent, exactly when no
    /// session token is stored.
    pub fn me_request(&self) -> (r: Result<CompiledRequest, ParseError>)
        ensures
            r is Err <==> self.client.session_token is None,
            r matches Err(e) ==> e.kind == ErrorKind::SessionTokenMissing,
            r matches Ok(req) ==> {
                &&& req.method == HttpMethod::Get
                &&& req.url@ == request_url_of(self.client.server_url@, "users/me"@)
                &&& req.body is None
            },
    {
        if self.client.session_token.is_none() {
            return Err(
                ParseError::of_kind(
                    ErrorKind::SessionTokenMissing,
                    "The call needs a session token and none is stored.".to_owned(),
                ),
            );
        }
        let opts = AuthOptions::plain();
        self.client.build_request(HttpMethod::Get, "users/me", None, &opts)
    }

    /// Assembles a logout.  Fails, with `SessionTokenMissing` and before
    /// anything is sent, exactly when no session token is stored.
    pub fn logout_request(&self) -> (r: Result<CompiledRequest, ParseError>)
        ensures
            r is Err <==> self.client.session_token is None,
            r matches Err(e) ==> e.kind == ErrorKind::SessionTokenMissing,
            r matches Ok(req) ==> {
                &&& req.method == HttpMethod::Post
                &&& req.url@ == request_url_of(self.client.server_url@, "logout"@)
                &&& req.body is None
            },
    {
        if self.client.session_token.is_none() {
            return Err(
                ParseError::of_kind(
                    ErrorKind::SessionTokenMissing,
                    "The call needs a session token and none is stored.".to_owned(),
                ),
            );
        }
        let opts = AuthOptions::plain();
        self.client.build_request(HttpMethod::Post, "logout", None, &opts)
    }

    /// Clears the stored session token after a successful logout.
    pub fn apply_logout(&mut self)
        ensures
            final(self).client.session_token is None,
            final(self).client.server_url == old(self).client.server_url,
            final(self).client.app_id == old(self).client.app_id,
            final(self).client.javascript_key == old(self).client.javascript_key,
            final(self).client.rest_api_key == old(self).client.rest_api_key,
            final(self).client.master_key == old(self).client.master_key,
    {
        self.client.set_session_token(None);
    }

    /// Assembles a password-reset request: the email as the body.
    pub fn password_reset_request(&self, email_data: &JsonValue) -> (r: Result<
        CompiledRequest,
        ParseError,
    >)
        ensures
            r is Ok,
            r matches Ok(req) ==> {
                &&& req.method == HttpMethod::Post
                &&& req.url@ == request_url_of(self.client.server_url@, "requestPasswordReset"@)
                &&& (req.body matches Some(s) && s@ == json_text(*email_data))
            },
    {
        let opts = AuthOptions::plain();
        self.client.build_request(
            HttpMethod::Post,
            "requestPasswordReset",
            Some(email_data),
            &opts,
        )
    }

    /// Assembles the fetch of the user a given session token belongs to: the
    /// override outranks every configured credential for this one call.
    pub fn become_user_request(&self, session_token_to_become: &str) -> (r: Result<
        CompiledRequest,
        ParseError,
    >)
        ensures
            r is Ok,
            r matches Ok(req) ==> {
                &&& req.method == HttpMethod::Get
                &&& req.url@ == request_url_of(self.client.server_url@, "users/me"@)
                &&& req.body is None
                &&& req.headers.deep_view().len() == 2
                &&& req.headers.deep_view()[0] == ("X-Parse-Application-Id"@, self.client.app_id@)
                &&& req.headers.deep_view()[1] == (
                    "X-Parse-Session-Token"@,
                    session_token_to_become@,
                )
            },
    {
        let opts = AuthOptions {
            use_master_key: false,
            session_token_override: Some(session_token_to_become.to_owned()),
        };
        self.client.build_request(HttpMethod::Get, "users/me", None, &opts)
    }
}

} // verus!
