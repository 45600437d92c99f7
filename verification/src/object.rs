//! Records: the mutable field map of an object, its update operators, and the
//! assembled create, retrieve, update and delete requests with their
//! collection-name validation.

use vstd::prelude::*;

use crate::acl::{acl_eligible, acl_entries_ok, ParseACL};
use crate::auth::AuthOptions;
use crate::client::{request_url_of, CompiledRequest, HttpMethod, Parse};
use crate::error::{ErrorKind, ParseError};
use crate::json::{insert_pair, json_text, lemma_obj_inserted_props, obj_keys, obj_lookup,
    JsonValue};
use crate::outside::{alphabetic, alphanumeric, char_is_alphabetic, char_is_alphanumeric};
use crate::text::{key_inserted, keys_sorted, lemma_key_inserted_props};
use crate::types::ParseDate;

verus! {

/// A record under construction or mutation: its identifier and timestamps
/// when known, its field map — strictly sorted, one entry per field — and its
/// access control list.
#[derive(Debug)]
pub struct ParseObject {
    pub object_id: Option<String>,
    pub created_at: Option<ParseDate>,
    pub updated_at: Option<ParseDate>,
    /// The field map: strictly sorted by field name, one entry per field.
    pub fields: Vec<(String, JsonValue)>,
    pub acl: Option<ParseACL>,
    pub class_name: String,
}

/// A record fetched from the store: identifier and timestamps are always
/// present.
#[derive(Debug)]
pub struct RetrievedParseObject {
    pub object_id: String,
    pub created_at: ParseDate,
    pub updated_at: ParseDate,
    pub fields: Vec<(String, JsonValue)>,
    pub acl: Option<ParseACL>,
}

/// An object's field map is strictly sorted.
pub open spec fn object_wf(o: ParseObject) -> bool {
    keys_sorted(obj_keys(o.fields@))
}

/// One field of the map was written, last write winning, and nothing else of
/// the object changed.
pub open spec fn field_written(
    old_o: ParseObject,
    new_o: ParseObject,
    key: Seq<char>,
    v: JsonValue,
) -> bool {
    &&& object_wf(new_o)
    &&& obj_keys(new_o.fields@) == key_inserted(obj_keys(old_o.fields@), key)
    &&& obj_lookup(new_o.fields@, key) == Some(v)
    &&& (forall|k: Seq<char>|
        k != key ==> obj_lookup(new_o.fields@, k) == obj_lookup(old_o.fields@, k))
    &&& new_o.object_id == old_o.object_id
    &&& new_o.created_at == old_o.created_at
    &&& new_o.updated_at == old_o.updated_at
    &&& new_o.acl == old_o.acl
    &&& new_o.class_name == old_o.class_name
}

/// An update operator `{"__op": op, "objects": items}` on an array field.
pub open spec fn is_array_op_json(j: JsonValue, op: Seq<char>, items: Seq<JsonValue>) -> bool {
    &&& j matches JsonValue::Obj(es)
    &&& es@.len() == 2
    &&& es@[0].0@ == "__op"@
    &&& (es@[0].1 matches JsonValue::Str(t) && t@ == op)
    &&& es@[1].0@ == "objects"@
    &&& (es@[1].1 matches JsonValue::Arr(v) && v@ == items)
}

/// The increment operator `{"__op": "Increment", "amount": amount}`.
pub open spec fn is_increment_json(j: JsonValue, amount: i64) -> bool {
    &&& j matches JsonValue::Obj(es)
    &&& es@.len() == 2
    &&& es@[0].0@ == "__op"@
    &&& (es@[0].1 matches JsonValue::Str(t) && t@ == "Increment"@)
    &&& es@[1].0@ == "amount"@
    &&& es@[1].1 == JsonValue::Int(amount)
}

impl ParseObject {
    /// A fresh record of `class_name` with no identifier, no timestamps, no
    /// fields and no access control list.
    pub fn new(class_name: &str) -> (r: ParseObject)
        ensures
            object_wf(r),
            r.class_name@ == class_name@,
            r.object_id is None,
            r.created_at is None,
            r.updated_at is None,
            r.fields@.len() == 0,
            r.acl is None,
    {
        ParseObject {
            object_id: None,
            created_at: None,
            updated_at: None,
            fields: Vec::new(),
            acl: None,
            class_name: class_name.to_owned(),
        }
    }

    /// Writes one field, last write winning.
    pub fn set(&mut self, field_name: &str, value: JsonValue)
        requires
            object_wf(*old(self)),
        ensures
            field_written(*old(self), *final(self), field_name@, value),
    {
        let pair = (field_name.to_owned(), value);
        proof {
            lemma_obj_inserted_props(self.fields@, pair);
            lemma_key_inserted_props(obj_keys(self.fields@), field_name@);
        }
        insert_pair(&mut self.fields, pair);
    }

    /// Reads one field.
    pub fn get<'a>(&'a self, field_name: &str) -> (r: Option<&'a JsonValue>)
        ensures
            match r {
                Some(m) => obj_lookup(self.fields@, field_name@) == Some(*m),
                None => obj_lookup(self.fields@, field_name@) is None,
            },
    {
        let n = self.fields.len();
        let mut i: usize = 0;
        proof {
            assert(self.fields@.skip(0int) =~= self.fields@);
        }
        while i < n
            invariant
                i <= n,
                n == self.fields@.len(),
                obj_lookup(self.fields@, field_name@) == obj_lookup(
                    self.fields@.skip(i as int),
                    field_name@,
                ),
            decreases n - i,
        {
            proof {
                assert(self.fields@.skip(i as int)[0] == self.fields@[i as int]);
                assert(self.fields@.skip(i as int).skip(1) =~= self.fields@.skip(i + 1int));
            }
            if crate::text::str_lex_cmp(self.fields[i].0.as_str(), field_name) == 0 {
                return Some(&self.fields[i].1);
            }
            i = i + 1;
        }
        proof {
            assert(self.fields@.skip(n as int) =~= Seq::<(String, JsonValue)>::empty());
        }
        None
    }

    /// Attaches an access control list.
    pub fn set_acl(&mut self, acl: ParseACL)
        ensures
            final(self).acl == Some(acl),
            final(self).fields == old(self).fields,
            final(self).object_id == old(self).object_id,
            final(self).created_at == old(self).created_at,
            final(self).updated_at == old(self).updated_at,
            final(self).class_name == old(self).class_name,
    {
        self.acl = Some(acl);
    }

    /// Writes the increment operator on a number field.
    pub fn increment(&mut self, field_name: &str, amount: i64)
        requires
            object_wf(*old(self)),
        ensures
            obj_lookup(final(self).fields@, field_name@) matches Some(v) && is_increment_json(
                v,
                amount,
            ) && field_written(*old(self), *final(self), field_name@, v),
    {
        let mut es: Vec<(String, JsonValue)> = Vec::new();
        es.push(("__op".to_owned(), JsonValue::Str("Increment".to_owned())));
        es.push(("amount".to_owned(), JsonValue::Int(amount)));
        self.set(field_name, JsonValue::Obj(es));
    }

    /// Writes a decrement: the increment operator with the negated amount.
    /// The smallest amount is left out: its negation has no counterpart.
    pub fn decrement(&mut self, field_name: &str, amount: i64)
        requires
            object_wf(*old(self)),
            amount > i64::MIN,
        ensures
            obj_lookup(final(self).fields@, field_name@) matches Some(v) && is_increment_json(
                v,
                (-amount) as i64,
            ) && field_written(*old(self), *final(self), field_name@, v),
    {
        self.increment(field_name, -amount);
    }

    /// Writes the array-append operator on an array field.
    pub fn add_to_array(&mut self, field_name: &str, items: Vec<JsonValue>)
        requires
            object_wf(*old(self)),
        ensures
            obj_lookup(final(self).fields@, field_name@) matches Some(v) && is_array_op_json(
                v,
                "Add"@,
                items@,
            ) && field_written(*old(self), *final(self), field_name@, v),
    {
        self.write_array_op(field_name, "Add", items);
    }

    /// Writes the unique-append operator on an array field.
    pub fn add_unique_to_array(&mut self, field_name: &str, items: Vec<JsonValue>)
        requires
            object_wf(*old(self)),
        ensures
            obj_lookup(final(self).fields@, field_name@) matches Some(v) && is_array_op_json(
                v,
                "AddUnique"@,
                items@,
            ) && field_written(*old(self), *final(self), field_name@, v),
    {
        self.write_array_op(field_name, "AddUnique", items);
    }

    /// Writes the removal operator on an array field.
    pub fn remove_from_array(&mut self, field_name: &str, items: Vec<JsonValue>)
        requires
            object_wf(*old(self)),
        ensures
            obj_lookup(final(self).fields@, field_name@) matches Some(v) && is_array_op_json(
                v,
                "Remove"@,
                items@,
            ) && field_written(*old(self), *final(self), field_name@, v),
    {
        self.write_array_op(field_name, "Remove", items);
    }

    /// Writes one array operator.
    fn write_array_op(&mut self, field_name: &str, op: &str, items: Vec<JsonValue>)
        requires
            object_wf(*old(self)),
        ensures
            obj_lookup(final(self).fields@, field_name@) matches Some(v) && is_array_op_json(
                v,
                op@,
                items@,
            ) && field_written(*old(self), *final(self), field_name@, v),
    {
        let ghost items_view = items@;
        let mut es: Vec<(String, JsonValue)> = Vec::new();
        es.push(("__op".to_owned(), JsonValue::Str(op.to_owned())));
        es.push(("objects".to_owned(), JsonValue::Arr(items)));
        self.set(field_name, JsonValue::Obj(es));
    }

    /// The request body of this record: its fields, with the access control
    /// list written under the `ACL` member when one is attached.
    pub fn into_body(self) -> (r: JsonValue)
        requires
            object_wf(self),
        ensures
            (r matches JsonValue::Obj(es) && match self.acl {
                None => es@ == self.fields@,
                Some(a) => {
                    &&& obj_keys(es@) == key_inserted(obj_keys(self.fields@), "ACL"@)
                    &&& (obj_lookup(es@, "ACL"@) matches Some(j) && (j matches JsonValue::Obj(fs)
                        && acl_entries_ok(fs@, acl_eligible(a.permissions@))))
                    &&& (forall|k: Seq<char>|
                        k != "ACL"@ ==> obj_lookup(es@, k) == obj_lookup(self.fields@, k))
                },
            }),
    {
        let ParseObject { object_id: _, created_at: _, updated_at: _, mut fields, acl, class_name: _ } =
            self;
        match acl {
            None => JsonValue::Obj(fields),
            Some(a) => {
                let pair = ("ACL".to_owned(), a.to_json_value());
                proof {
                    lemma_obj_inserted_props(fields@, pair);
                }
                insert_pair(&mut fields, pair);
                JsonValue::Obj(fields)
            },
        }
    }
}

/// A collection name the store accepts: non-empty, beginning with an
/// alphabetic character or an underscore, all of it alphanumerics or
/// underscores.
pub open spec fn valid_class_name(s: Seq<char>) -> bool {
    &&& s.len() > 0
    &&& (alphabetic(s[0]) || s[0] == '_')
    &&& (forall|i: int| 0 <= i < s.len() ==> alphanumeric(#[trigger] s[i]) || s[i] == '_')
}

/// Decides whether a collection name is acceptable.
pub fn check_class_name(class_name: &str) -> (r: bool)
    ensures
        r == valid_class_name(class_name@),
{
    let n = class_name.unicode_len();
    if n == 0 {
        return false;
    }
    let first = class_name.get_char(0);
    if !(char_is_alphabetic(first) || first == '_') {
        return false;
    }
    let mut i: usize = 0;
    while i < n
        invariant
            i <= n,
            n == class_name@.len(),
            forall|j: int| 0 <= j < i ==> alphanumeric(#[trigger] class_name@[j]) || class_name@[j]
                == '_',
        decreases n - i,
    {
        let c = class_name.get_char(i);
        if !(char_is_alphanumeric(c) || c == '_') {
            return false;
        }
        i = i + 1;
    }
    true
}

impl Parse {
    /// Assembles the creation of a record: a validated collection name, the
    /// record body, and the client's configured credentials.  Fails, with
    /// `InvalidInput`, exactly on an invalid collection name.
    pub fn create_object_request(&self, class_name: &str, body: &JsonValue) -> (r: Result<
        CompiledRequest,
        ParseError,
    >)
        ensures
            r is Err <==> !valid_class_name(class_name@),
            r matches Err(e) ==> e.kind == ErrorKind::InvalidInput,
            r matches Ok(req) ==> {
                &&& req.method == HttpMethod::Post
                &&& req.url@ == request_url_of(self.server_url@, "classes/"@ + class_name@)
                &&& (req.body matches Some(s) && s@ == json_text(*body))
            },
    {
        if !check_class_name(class_name) {
            return Err(
                ParseError::of_kind(
                    ErrorKind::InvalidInput,
                    "The collection name must be alphanumerics or underscores, not starting with a digit.".to_owned(),
                ),
            );
        }
        let mut endpoint = "classes/".to_owned();
        endpoint.append(class_name);
        let opts = AuthOptions::plain();
        self.build_request(HttpMethod::Post, endpoint.as_str(), Some(body), &opts)
    }

    /// Assembles the fetch of one record by identifier.  Fails, with
    /// `InvalidInput`, exactly on an invalid collection name or an empty
    /// identifier.
    pub fn retrieve_object_request(&self, class_name: &str, object_id: &str) -> (r: Result<
        CompiledRequest,
        ParseError,
    >)
        ensures
            r is Err <==> !valid_class_name(class_name@) || object_id@.len() == 0,
            r matches Err(e) ==> e.kind == ErrorKind::InvalidInput,
            r matches Ok(req) ==> {
                &&& req.method == HttpMethod::Get
                &&& req.url@ == request_url_of(
                    self.server_url@,
                    "classes/"@ + class_name@ + seq!['/'] + object_id@,
                )
                &&& req.body is None
            },
    {
        if !check_class_name(class_name) {
            return Err(
                ParseError::of_kind(
                    ErrorKind::InvalidInput,
                    "The collection name must be alphanumerics or underscores, not starting with a digit.".to_owned(),
                ),
            );
        }
        if object_id.unicode_len() == 0 {
            return Err(
                ParseError::of_kind(
                    ErrorKind::InvalidInput,
                    "The record identifier cannot be empty.".to_owned(),
                ),
            );
        }
        let endpoint = object_endpoint(class_name, object_id);
        let opts = AuthOptions::plain();
        self.build_request(HttpMethod::Get, endpoint.as_str(), None, &opts)
    }

    /// Assembles the update of one record.  Fails, with `InvalidInput`,
    /// exactly on an invalid collection name or an empty identifier.
    pub fn update_object_request(
        &self,
        class_name: &str,
        object_id: &str,
        body: &JsonValue,
    ) -> (r: Result<CompiledRequest, ParseError>)
        ensures
            r is Err <==> !valid_class_name(class_name@) || object_id@.len() == 0,
            r matches Err(e) ==> e.kind == ErrorKind::InvalidInput,
            r matches Ok(req) ==> {
                &&& req.method == HttpMethod::Put
                &&& req.url@ == request_url_of(
                    self.server_url@,
                    "classes/"@ + class_name@ + seq!['/'] + object_id@,
                )
                &&& (req.body matches Some(s) && s@ == json_text(*body))
            },
    {
        if !check_class_name(class_name) {
            return Err(
                ParseError::of_kind(
                    ErrorKind::InvalidInput,
                    "The collection name must be alphanumerics or underscores, not starting with a digit.".to_owned(),
                ),
            );
        }
        if object_id.unicode_len() == 0 {
            return Err(
                ParseError::of_kind(
                    ErrorKind::InvalidInput,
                    "The record identifier cannot be empty.".to_owned(),
                ),
            );
        }
        let endpoint = object_endpoint(class_name, object_id);
        let opts = AuthOptions::plain();
        self.build_request(HttpMethod::Put, endpoint.as_str(), Some(body), &opts)
    }

    /// Assembles the deletion of one record.  Fails, with `InvalidInput`,
    /// exactly on an invalid collection name or an empty identifier.
    pub fn delete_object_request(&self, class_name: &str, object_id: &str) -> (r: Result<
        CompiledRequest,
        ParseError,
    >)
        ensures
            r is Err <==> !valid_class_name(class_name@) || object_id@.len() == 0,
            r matches Err(e) ==> e.kind == ErrorKind::InvalidInput,
            r matches Ok(req) ==> {
                &&& req.method == HttpMethod::Delete
                &&& req.url@ == request_url_of(
                    self.server_url@,
                    "classes/"@ + class_name@ + seq!['/'] + object_id@,
                )
                &&& req.body is None
            },
    {
        if !check_class_name(class_name) {
            return Err(
                ParseError::of_kind(
                    ErrorKind::InvalidInput,
                    "The collection name must be alphanumerics or underscores, not starting with a digit.".to_owned(),
                ),
            );
        }
        if object_id.unicode_len() == 0 {
            return Err(
                ParseError::of_kind(
                    ErrorKind::InvalidInput,
                    "The record identifier cannot be empty.".to_owned(),
                ),
            );
        }
        let endpoint = object_endpoint(class_name, object_id);
        let opts = AuthOptions::plain();
        self.build_request(HttpMethod::Delete, endpoint.as_str(), None, &opts)
    }

    /// Assembles a deletion by relative endpoint under the master key.
    /// Fails, with `MasterKeyRequired` and before anything is sent, exactly
    /// when no master key is configured.
    pub fn delete_with_master_key_request(&self, endpoint: &str) -> (r: Result<
        CompiledRequest,
        ParseError,
    >)
        ensures
            r is Err <==> self.master_key is None,
            r matches Err(e) ==> e.kind == ErrorKind::MasterKeyRequired,
            r matches Ok(req) ==> {
                &&& req.method == HttpMethod::Delete
                &&& req.url@ == request_url_of(self.server_url@, endpoint@)
                &&& req.body is None
            },
    {
        let opts = AuthOptions::master(true);
        self.build_request(HttpMethod::Delete, endpoint, None, &opts)
    }
}

/// The relative endpoint of one record.
pub fn object_endpoint(class_name: &str, object_id: &str) -> (r: String)
    ensures
        r@ == "classes/"@ + class_name@ + seq!['/'] + object_id@,
{
    let mut endpoint = "classes/".to_owned();
    endpoint.append(class_name);
    crate::json::push_char(&mut endpoint, '/');
    endpoint.append(object_id);
    proof {
        assert(endpoint@ =~= "classes/"@ + class_name@ + seq!['/'] + object_id@);
    }
    endpoint
}

/// Accepts the response body of a deletion: exactly the canonical empty
/// object; anything else is an unexpected response.
pub fn check_delete_response(v: &JsonValue) -> (r: Result<(), ParseError>)
    ensures
        r is Ok <==> (v matches JsonValue::Obj(es) && es@.len() == 0),
        r matches Err(e) ==> e.kind == ErrorKind::UnexpectedResponse,
{
    match v {
        JsonValue::Obj(es) => {
            if es.len() == 0 {
                Ok(())
            } else {
                Err(
                    ParseError::of_kind(
                        ErrorKind::UnexpectedResponse,
                        "A deletion answered with a non-empty body.".to_owned(),
                    ),
                )
            }
        },
        _ => Err(
            ParseError::of_kind(
                ErrorKind::UnexpectedResponse,
                "A deletion answered with a body that is not an object.".to_owned(),
            ),
        ),
    }
}

/// Stamps the query's collection name on each fetched record, as a find
/// operation hands them back.
pub fn with_class_name(objects: Vec<ParseObject>, class_name: &str) -> (r: Vec<ParseObject>)
    ensures
        r@.len() == objects@.len(),
        (forall|i: int|
            0 <= i < objects@.len() ==> #[trigger] r@[i] == ParseObject {
                class_name: r@[i].class_name,
                ..objects@[i]
            } && r@[i].class_name@ == class_name@),
{
    let ghost orig = objects@;
    let n = objects.len();
    let mut v = objects;
    let mut out: Vec<ParseObject> = Vec::new();
    let mut i: usize = 0;
    #[verifier::loop_isolation(false)]
    loop
        invariant
            out@.len() == i,
            i <= n,
            i + v@.len() == n,
            forall|j: int| 0 <= j < v@.len() ==> v@[j] == orig[i + j],
            (forall|j: int|
                0 <= j < i ==> #[trigger] out@[j] == ParseObject {
                    class_name: out@[j].class_name,
                    ..orig[j]
                } && out@[j].class_name@ == class_name@),
        decreases v@.len(),
    {
        if v.len() == 0 {
            return out;
        }
        let ghost pre = v@;
        let mut obj = v.remove(0);
        proof {
            assert(v@ =~= pre.skip(1));
        }
        obj.class_name = class_name.to_owned();
        out.push(obj);
        i = i + 1;
    }
}

} // verus!
