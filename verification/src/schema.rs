//! Collection schemas: field types, per-field definitions, class-level
//! permissions and indexes, as the schema endpoints carry them.

use vstd::prelude::*;

use crate::json::JsonValue;

verus! {

/// The data types a schema field can declare.
#[derive(Debug, Clone, Copy, PartialEq, Eq, Structural)]
pub enum FieldType {
    String,
    Number,
    Boolean,
    Date,
    Object,
    Array,
    Pointer,
    Relation,
    File,
    GeoPoint,
    ACL,
    Bytes,
    Polygon,
}

/// The declaration of one field in a collection schema.
#[derive(Debug)]
pub struct FieldSchema {
    pub field_type: FieldType,
    /// The target collection, for pointer and relation fields.
    pub target_class: Option<String>,
    pub required: Option<bool>,
    pub default_value: Option<JsonValue>,
}

impl FieldSchema {
    /// A field declaration of the given type, with nothing else set.
    pub fn of_type(field_type: FieldType) -> (r: FieldSchema)
        ensures
            r.field_type == field_type,
            r.target_class is None,
            r.required is None,
            r.default_value is None,
    {
        FieldSchema { field_type, target_class: None, required: None, default_value: None }
    }
}

/// Class-level permissions: per-operation maps from key (`*`, a user, or a
/// role) to a grant, and the user-field lists.
#[derive(Debug)]
pub struct ClassLevelPermissionsSchema {
    pub get: Option<Vec<(String, bool)>>,
    pub find: Option<Vec<(String, bool)>>,
    pub count: Option<Vec<(String, bool)>>,
    pub create: Option<Vec<(String, bool)>>,
    pub update: Option<Vec<(String, bool)>>,
    pub delete: Option<Vec<(String, bool)>>,
    pub add_field: Option<Vec<(String, bool)>>,
    pub read_user_fields: Option<Vec<String>>,
    pub write_user_fields: Option<Vec<String>>,
}

impl ClassLevelPermissionsSchema {
    /// Permissions with nothing declared.
    pub fn empty() -> (r: ClassLevelPermissionsSchema)
        ensures
            r.get is None,
            r.find is None,
            r.count is None,
            r.create is None,
            r.update is None,
            r.delete is None,
            r.add_field is None,
            r.read_user_fields is None,
            r.write_user_fields is None,
    {
        ClassLevelPermissionsSchema {
            get: None,
            find: None,
            count: None,
            create: None,
            update: None,
            delete: None,
            add_field: None,
            read_user_fields: None,
            write_user_fields: None,
        }
    }
}

/// One field of an index declaration: a sort order, a text marker, or any
/// other value the server reports.
#[derive(Debug)]
pub enum IndexFieldType {
    SortOrder(i64),
    Text(String),
    Other(JsonValue),
}

/// The schema of one collection.
#[derive(Debug)]
pub struct ParseSchema {
    pub class_name: String,
    pub fields: Vec<(String, FieldSchema)>,
    pub class_level_permissions: Option<ClassLevelPermissionsSchema>,
    /// Index name to field-order map.
    pub indexes: Option<Vec<(String, Vec<(String, IndexFieldType)>)>>,
}

/// The response when every schema is fetched.
#[derive(Debug)]
pub struct GetAllSchemasResponse {
    pub results: Vec<ParseSchema>,
}

} // verus!
