//! Client-side core of a document-store REST protocol: query compilation,
//! credential resolution, request envelopes and error mapping, with the
//! behaviour of each component stated in contracts and machine-checked.

pub mod acl;
pub mod auth;
pub mod client;
pub mod config;
pub mod endpoint;
pub mod error;
pub mod json;
pub mod installation;
pub mod object;
pub mod outside;
pub mod query;
pub mod role;
pub mod schema;
pub mod services;
pub mod session;
pub mod text;
pub mod types;
pub mod user;

pub use acl::ParseACL;
pub use auth::{AuthOptions, AuthType, Credential, HeaderSet};
pub use client::{CompiledRequest, HttpMethod, Parse};
pub use config::ParseConfig;
pub use endpoint::Endpoint;
pub use error::{ErrorKind, ParseError};
pub use json::JsonValue;
pub use installation::{DeviceType, NewParseInstallation, RetrievedParseInstallation,
    UpdateParseInstallation};
pub use object::{ParseObject, RetrievedParseObject};
pub use query::ParseQuery;
pub use role::{NewParseRole, ParseRole};
pub use schema::{ClassLevelPermissionsSchema, FieldSchema, FieldType, GetAllSchemasResponse,
    IndexFieldType, ParseSchema};
pub use services::ParseUserHandle;
pub use session::{GetAllSessionsResponse, ParseSession, SessionUpdateResponse};
pub use user::{LoginRequest, ParseUser, PasswordResetRequest, SignupRequest, SignupResponse};
pub use types::{CreateObjectResponse, FileField, ParseDate, ParseFile, ParseRelation, Pointer,
    QueryResponse, RelationOp, Results, UpdateConfigResponse, UpdateObjectResponse,
    UpdateResponseData};
