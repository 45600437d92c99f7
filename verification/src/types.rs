//! The protocol's value shapes: pointers, dates, relations, files, and the
//! response envelopes of the endpoints.  Constructors pin the fixed type tags
//! down; the JSON forms are built with [`crate::json::JsonValue`].

use vstd::prelude::*;

use crate::json::JsonValue;

verus! {

/// A typed reference to a record: target collection and record identifier.
#[derive(Debug, Clone)]
pub struct Pointer {
    /// Always the tag `Pointer`.
    pub __type: String,
    pub class_name: String,
    pub object_id: String,
}

/// Whether `j` is the wire object of a pointer to `object_id` in
/// `class_name`.
pub open spec fn is_pointer_json(j: JsonValue, class_name: Seq<char>, object_id: Seq<char>) -> bool {
    &&& j matches JsonValue::Obj(es)
    &&& es@.len() == 3
    &&& es@[0].0@ == "__type"@
    &&& (es@[0].1 matches JsonValue::Str(t) && t@ == "Pointer"@)
    &&& es@[1].0@ == "className"@
    &&& (es@[1].1 matches JsonValue::Str(c) && c@ == class_name)
    &&& es@[2].0@ == "objectId"@
    &&& (es@[2].1 matches JsonValue::Str(o) && o@ == object_id)
}

impl Pointer {
    /// A pointer to the record `object_id` of `class_name`.
    pub fn new(class_name: &str, object_id: &str) -> (r: Pointer)
        ensures
            r.__type@ == "Pointer"@,
            r.class_name@ == class_name@,
            r.object_id@ == object_id@,
    {
        Pointer {
            __type: "Pointer".to_owned(),
            class_name: class_name.to_owned(),
            object_id: object_id.to_owned(),
        }
    }

    /// The wire object of this pointer.
    pub fn to_json(&self) -> (r: JsonValue)
        ensures
            is_pointer_json(r, self.class_name@, self.object_id@),
    {
        let mut entries: Vec<(String, JsonValue)> = Vec::new();
        entries.push(("__type".to_owned(), JsonValue::Str("Pointer".to_owned())));
        entries.push(("className".to_owned(), JsonValue::Str(self.class_name.clone())));
        entries.push(("objectId".to_owned(), JsonValue::Str(self.object_id.clone())));
        JsonValue::Obj(entries)
    }
}

/// A timestamp, carried as its ISO 8601 text; the store keeps dates in UTC.
#[derive(Debug, Clone)]
pub struct ParseDate {
    /// Always the tag `Date`.
    pub __type: String,
    /// ISO 8601 text, `YYYY-MM-DDTHH:MM:SS.MMMZ`.
    pub iso: String,
}

impl ParseDate {
    /// A date from its ISO 8601 text; the text is not validated.
    pub fn new(iso: &str) -> (r: ParseDate)
        ensures
            r.__type@ == "Date"@,
            r.iso@ == iso@,
    {
        ParseDate { __type: "Date".to_owned(), iso: iso.to_owned() }
    }

    /// The present moment in UTC, from the system clock.
    pub fn now() -> (r: ParseDate)
        ensures
            r.__type@ == "Date"@,
            r.iso@.len() > 0,
            r.iso@.last() == 'Z',
    {
        ParseDate { __type: "Date".to_owned(), iso: crate::outside::now_iso_utc() }
    }

    /// The wire object of this date.
    pub fn to_json(&self) -> (r: JsonValue)
        ensures
            ({
                &&& r matches JsonValue::Obj(es)
                &&& es@.len() == 2
                &&& es@[0].0@ == "__type"@
                &&& (es@[0].1 matches JsonValue::Str(t) && t@ == "Date"@)
                &&& es@[1].0@ == "iso"@
                &&& (es@[1].1 matches JsonValue::Str(s) && s@ == self.iso@)
            }),
    {
        let mut entries: Vec<(String, JsonValue)> = Vec::new();
        entries.push(("__type".to_owned(), JsonValue::Str("Date".to_owned())));
        entries.push(("iso".to_owned(), JsonValue::Str(self.iso.clone())));
        JsonValue::Obj(entries)
    }
}

/// A relation field on a record: a one-to-many or many-to-many link whose
/// members are fetched by separate queries.
#[derive(Debug, Clone)]
pub struct ParseRelation {
    /// Always the tag `Relation`.
    pub __type: String,
    /// The target collection of the relation.
    pub class_name: String,
}

impl ParseRelation {
    /// A relation indicator targeting `class_name`.
    pub fn new(class_name: &str) -> (r: ParseRelation)
        ensures
            r.__type@ == "Relation"@,
            r.class_name@ == class_name@,
    {
        ParseRelation { __type: "Relation".to_owned(), class_name: class_name.to_owned() }
    }

    /// The wire object of this relation indicator.
    pub fn to_json(&self) -> (r: JsonValue)
        ensures
            ({
                &&& r matches JsonValue::Obj(es)
                &&& es@.len() == 2
                &&& es@[0].0@ == "__type"@
                &&& (es@[0].1 matches JsonValue::Str(t) && t@ == "Relation"@)
                &&& es@[1].0@ == "className"@
                &&& (es@[1].1 matches JsonValue::Str(c) && c@ == self.class_name@)
            }),
    {
        let mut entries: Vec<(String, JsonValue)> = Vec::new();
        entries.push(("__type".to_owned(), JsonValue::Str("Relation".to_owned())));
        entries.push(("className".to_owned(), JsonValue::Str(self.class_name.clone())));
        JsonValue::Obj(entries)
    }
}

/// A relational update: adds or removes pointers on a relation field.
#[derive(Debug, Clone)]
pub struct RelationOp {
    /// The operation tag: `AddRelation` or `RemoveRelation`.
    pub op_type: String,
    pub objects: Vec<Pointer>,
}

/// The wire object of a relation operation over the given pointers.
pub open spec fn is_relation_op_json(
    j: JsonValue,
    op: Seq<char>,
    objects: Seq<Pointer>,
) -> bool {
    &&& j matches JsonValue::Obj(es)
    &&& es@.len() == 2
    &&& es@[0].0@ == "__op"@
    &&& (es@[0].1 matches JsonValue::Str(t) && t@ == op)
    &&& es@[1].0@ == "objects"@
    &&& (es@[1].1 matches JsonValue::Arr(items) && items@.len() == objects.len() && (forall|i: int|
        0 <= i < objects.len() ==> is_pointer_json(
            #[trigger] items@[i],
            objects[i].class_name@,
            objects[i].object_id@,
        )))
}

impl RelationOp {
    /// An operation that adds the given pointers to a relation.
    pub fn add(objects: Vec<Pointer>) -> (r: RelationOp)
        ensures
            r.op_type@ == "AddRelation"@,
            r.objects == objects,
    {
        RelationOp { op_type: "AddRelation".to_owned(), objects }
    }

    /// An operation that removes the given pointers from a relation.
    pub fn remove(objects: Vec<Pointer>) -> (r: RelationOp)
        ensures
            r.op_type@ == "RemoveRelation"@,
            r.objects == objects,
    {
        RelationOp { op_type: "RemoveRelation".to_owned(), objects }
    }

    /// The wire object of this operation.
    pub fn to_json(&self) -> (r: JsonValue)
        ensures
            is_relation_op_json(r, self.op_type@, self.objects@),
    {
        let mut items: Vec<JsonValue> = Vec::new();
        let n = self.objects.len();
        let mut i: usize = 0;
        while i < n
            invariant
                i <= n,
                n == self.objects@.len(),
                items@.len() == i,
                forall|j: int|
                    0 <= j < i ==> is_pointer_json(
                        #[trigger] items@[j],
                        self.objects@[j].class_name@,
                        self.objects@[j].object_id@,
                    ),
            decreases n - i,
        {
            items.push(self.objects[i].to_json());
            i = i + 1;
        }
        let mut entries: Vec<(String, JsonValue)> = Vec::new();
        entries.push(("__op".to_owned(), JsonValue::Str(self.op_type.clone())));
        entries.push(("objects".to_owned(), JsonValue::Arr(items)));
        JsonValue::Obj(entries)
    }
}

/// A file field as stored on a record.
#[derive(Debug, Clone)]
pub struct FileField {
    pub name: String,
    pub url: String,
    /// Always the tag `File`.
    pub _type: String,
}

impl FileField {
    /// A file field with the fixed `File` tag.
    pub fn new(name: String, url: String) -> (r: FileField)
        ensures
            r.name == name,
            r.url == url,
            r._type@ == "File"@,
    {
        FileField { name, url, _type: "File".to_owned() }
    }
}

/// A file to upload, or one already stored (then `url` is set).
#[derive(Debug, Clone)]
pub struct ParseFile {
    pub name: String,
    pub url: Option<String>,
    pub mime_type: String,
    pub data: Vec<u8>,
}

impl ParseFile {
    /// A file that has not been uploaded yet.
    pub fn new(name: String, data: Vec<u8>, mime_type: String) -> (r: ParseFile)
        ensures
            r.name == name,
            r.url is None,
            r.mime_type == mime_type,
            r.data == data,
    {
        ParseFile { name, url: None, mime_type, data }
    }

    /// The field form of this file: present exactly when it was uploaded.
    pub fn to_field(&self) -> (r: Option<FileField>)
        ensures
            r is Some <==> self.url is Some,
            r matches Some(f) ==> {
                &&& f.name == self.name
                &&& self.url matches Some(u) && f.url == u
                &&& f._type@ == "File"@
            },
    {
        match &self.url {
            Some(u) => Some(
                FileField { name: self.name.clone(), url: u.clone(), _type: "File".to_owned() },
            ),
            None => None,
        }
    }
}

/// A list of results, as find operations return it.
#[derive(Debug, Clone)]
pub struct Results<T> {
    pub results: Vec<T>,
    pub count: Option<i64>,
}

/// The common data of an update response.
#[derive(Debug, Clone)]
pub struct UpdateResponseData {
    /// ISO 8601 text.
    pub updated_at: String,
    pub object_id: Option<String>,
}

/// The response to a successful record creation.
#[derive(Debug, Clone)]
pub struct CreateObjectResponse {
    pub object_id: String,
    pub created_at: ParseDate,
}

/// The response to a successful record update.
#[derive(Debug, Clone)]
pub struct UpdateObjectResponse {
    pub updated_at: ParseDate,
}

/// The results envelope of a find operation.
#[derive(Debug, Clone)]
pub struct QueryResponse<T> {
    pub results: Vec<T>,
}

/// The response to a successful configuration update.
#[derive(Debug, Clone)]
pub struct UpdateConfigResponse {
    pub result: bool,
}

} // verus!
