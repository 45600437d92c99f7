use parse_rs::acl::ParseACL;

#[test]
fn test_acl_new() {
    let acl = ParseACL::new();
    assert!(acl.permissions.is_empty());
}

#[test]
fn test_set_public_read_access() {
    let mut acl = ParseACL::new();
    acl.set_public_read_access(true);
    assert_eq!(acl.access_of("*").unwrap().read, Some(true));
    assert_eq!(acl.access_of("*").unwrap().write, None);

    acl.set_public_read_access(false);
    assert_eq!(acl.access_of("*").unwrap().read, Some(false));
}

#[test]
fn test_set_public_write_access() {
    let mut acl = ParseACL::new();
    acl.set_public_write_access(true);
    assert_eq!(acl.access_of("*").unwrap().write, Some(true));
    assert_eq!(acl.access_of("*").unwrap().read, None);

    acl.set_public_write_access(false);
    assert_eq!(acl.access_of("*").unwrap().write, Some(false));
}

#[test]
fn test_set_user_read_access() {
    let mut acl = ParseACL::new();
    acl.set_user_read_access("userId123", true);
    assert_eq!(acl.access_of("userId123").unwrap().read, Some(true));
}

#[test]
fn test_set_user_write_access() {
    let mut acl = ParseACL::new();
    acl.set_user_write_access("userId123", true);
    assert_eq!(acl.access_of("userId123").unwrap().write, Some(true));
}

#[test]
fn test_set_role_read_access() {
    let mut acl = ParseACL::new();
    acl.set_role_read_access("Admin", true);
    assert_eq!(acl.access_of("role:Admin").unwrap().read, Some(true));
}

#[test]
fn test_set_role_write_access() {
    let mut acl = ParseACL::new();
    acl.set_role_write_access("Editor", true);
    assert_eq!(acl.access_of("role:Editor").unwrap().write, Some(true));
}

#[test]
fn test_acl_serialization_empty() {
    let acl = ParseACL::new();
    let json_string = acl.to_json_string();
    assert_eq!(json_string, "{}");
}

#[test]
fn test_acl_serialization_public_read() {
    let mut acl = ParseACL::new();
    acl.set_public_read_access(true);
    let json_string = acl.to_json_string();
    assert_eq!(json_string, "{\"*\":{\"read\":true}}");
}

#[test]
fn test_acl_serialization_public_write() {
    let mut acl = ParseACL::new();
    acl.set_public_write_access(true);
    let json_string = acl.to_json_string();
    assert_eq!(json_string, "{\"*\":{\"write\":true}}");
}

#[test]
fn test_acl_serialization_public_read_write() {
    let mut acl = ParseACL::new();
    acl.set_public_read_access(true);
    acl.set_public_write_access(false);
    let json_string = acl.to_json_string();
    assert_eq!(json_string, "{\"*\":{\"read\":true,\"write\":false}}");
}

#[test]
fn test_acl_serialization_user_and_role() {
    let mut acl = ParseACL::new();
    acl.set_user_read_access("user1", true);
    acl.set_role_write_access("Admin", true);
    let json_string = acl.to_json_string();
    assert!(json_string.contains("\"user1\":{\"read\":true}"));
    assert!(json_string.contains("\"role:Admin\":{\"write\":true}"));
    assert!(json_string.starts_with("{") && json_string.ends_with("}"));
}

#[test]
fn test_acl_default() {
    let acl: ParseACL = Default::default();
    assert!(acl.permissions.is_empty());
}

#[test]
fn test_acl_getters_default_to_false() {
    let mut acl = ParseACL::new();
    assert!(!acl.get_public_read_access());
    assert!(!acl.get_public_write_access());
    assert!(!acl.get_user_read_access("nobody"));
    assert!(!acl.get_user_write_access("nobody"));
    assert!(!acl.get_role_read_access("Ghost"));
    assert!(!acl.get_role_write_access("Ghost"));

    acl.set_user_read_access("u1", true);
    acl.set_user_write_access("u1", false);
    assert!(acl.get_user_read_access("u1"));
    assert!(!acl.get_user_write_access("u1"));

    acl.set_role_read_access("Mods", true);
    assert!(acl.get_role_read_access("Mods"));
    assert!(!acl.get_role_write_access("Mods"));
}

#[test]
fn test_acl_update_preserves_other_side() {
    let mut acl = ParseACL::new();
    acl.set_public_read_access(true);
    acl.set_public_write_access(true);
    acl.set_public_read_access(false);
    let level = acl.access_of("*").unwrap();
    assert_eq!(level.read, Some(false));
    assert_eq!(level.write, Some(true));
    assert_eq!(acl.permissions.len(), 1);
}

#[test]
fn test_acl_deserialization_empty() {
    let json_string = "{}";
    let v = parse_rs::json::parse_json(json_string).unwrap();
    let acl = ParseACL::from_json_value(&v).unwrap();
    assert!(acl.permissions.is_empty());
}

#[test]
fn test_acl_deserialization_public_read() {
    let json_string = "{\"*\":{\"read\":true}}";
    let v = parse_rs::json::parse_json(json_string).unwrap();
    let acl = ParseACL::from_json_value(&v).unwrap();
    assert_eq!(acl.access_of("*").unwrap().read, Some(true));
    assert_eq!(acl.access_of("*").unwrap().write, None);
}

#[test]
fn test_acl_deserialization_user_and_role() {
    let json_string = "{\"user1\":{\"read\":true},\"role:Admin\":{\"write\":true}}";
    let v = parse_rs::json::parse_json(json_string).unwrap();
    let acl = ParseACL::from_json_value(&v).unwrap();
    assert_eq!(acl.access_of("user1").unwrap().read, Some(true));
    assert_eq!(acl.access_of("role:Admin").unwrap().write, Some(true));
}

#[test]
fn test_acl_round_trip_through_wire_text() {
    let mut acl = ParseACL::new();
    acl.set_public_read_access(true);
    acl.set_user_write_access("u1", false);
    acl.set_role_read_access("Mods", true);
    let text = acl.to_json_string();
    let wire = parse_rs::json::parse_json(&text).unwrap();
    let back = ParseACL::from_json_value(&wire).unwrap();
    assert_eq!(back.access_of("*").unwrap().read, Some(true));
    assert_eq!(back.access_of("*").unwrap().write, None);
    assert_eq!(back.access_of("u1").unwrap().write, Some(false));
    assert_eq!(back.access_of("role:Mods").unwrap().read, Some(true));
    assert_eq!(back.to_json_string(), text);
}

#[test]
fn test_acl_wire_reader_rejects_non_object_shapes() {
    assert!(ParseACL::from_json_value(&parse_rs::JsonValue::Int(3)).is_none());
    let bad = parse_rs::json::parse_json("{\"*\":true}").unwrap();
    assert!(ParseACL::from_json_value(&bad).is_none());
}
