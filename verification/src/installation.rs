//! Installations: the per-device records push notifications address.

use vstd::prelude::*;

use crate::acl::ParseACL;
use crate::json::JsonValue;

verus! {

/// The kind of device an installation runs on.
#[derive(Debug, Clone, PartialEq, Eq)]
pub enum DeviceType {
    /// Web or JavaScript, the default.
    Js,
    Ios,
    Android,
    Winphone,
    Macos,
    Windows,
    Linux,
    Embedded,
    /// A custom device type, by name.
    Other(String),
}

/// An installation to be created.
#[derive(Debug)]
pub struct NewParseInstallation {
    pub device_type: DeviceType,
    pub device_token: Option<String>,
    pub installation_id: Option<String>,
    pub app_name: Option<String>,
    pub app_version: Option<String>,
    pub app_identifier: Option<String>,
    pub parse_version: Option<String>,
    pub badge: Option<i64>,
    pub time_zone: Option<String>,
    pub channels: Option<Vec<String>>,
    pub locale_identifier: Option<String>,
    pub push_type: Option<String>,
    pub gcm_sender_id: Option<String>,
    pub acl: Option<ParseACL>,
    pub custom_fields: Option<Vec<(String, JsonValue)>>,
}

impl NewParseInstallation {
    /// An installation of the given device type with nothing else set.
    pub fn new(device_type: DeviceType) -> (r: NewParseInstallation)
        ensures
            r.device_type == device_type,
            r.device_token is None,
            r.installation_id is None,
            r.app_name is None,
            r.app_version is None,
            r.app_identifier is None,
            r.parse_version is None,
            r.badge is None,
            r.time_zone is None,
            r.channels is None,
            r.locale_identifier is None,
            r.push_type is None,
            r.gcm_sender_id is None,
            r.acl is None,
            r.custom_fields is None,
    {
        NewParseInstallation {
            device_type,
            device_token: None,
            installation_id: None,
            app_name: None,
            app_version: None,
            app_identifier: None,
            parse_version: None,
            badge: None,
            time_zone: None,
            channels: None,
            locale_identifier: None,
            push_type: None,
            gcm_sender_id: None,
            acl: None,
            custom_fields: None,
        }
    }
}

/// An installation as the store reports it.
#[derive(Debug)]
pub struct RetrievedParseInstallation {
    pub object_id: String,
    /// ISO 8601 text.
    pub created_at: String,
    /// ISO 8601 text.
    pub updated_at: String,
    pub device_type: DeviceType,
    pub device_token: Option<String>,
    pub installation_id: Option<String>,
    pub app_name: Option<String>,
    pub app_version: Option<String>,
    pub app_identifier: Option<String>,
    pub parse_version: Option<String>,
    pub badge: Option<i64>,
    pub time_zone: Option<String>,
    pub channels: Option<Vec<String>>,
    pub locale_identifier: Option<String>,
    pub push_type: Option<String>,
    pub gcm_sender_id: Option<String>,
    pub acl: Option<ParseACL>,
    pub custom_fields: Vec<(String, JsonValue)>,
}

/// The changes of an installation update.
#[derive(Debug)]
pub struct UpdateParseInstallation {
    pub device_type: Option<DeviceType>,
    pub device_token: Option<String>,
    pub installation_id: Option<String>,
    pub app_name: Option<String>,
    pub app_version: Option<String>,
    pub app_identifier: Option<String>,
    pub parse_version: Option<String>,
    pub badge: Option<i64>,
    pub time_zone: Option<String>,
    pub channels: Option<Vec<String>>,
    pub locale_identifier: Option<String>,
    pub push_type: Option<String>,
    pub gcm_sender_id: Option<String>,
    pub acl: Option<ParseACL>,
    pub custom_fields: Option<Vec<(String, JsonValue)>>,
}

} // verus!
