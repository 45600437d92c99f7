use parse_rs::error::{decode_response, interpret_response, map_protocol_error};
use parse_rs::object::check_delete_response;
use parse_rs::services::ParseUserHandle;
use parse_rs::{
    CompiledRequest, Endpoint, ErrorKind, HttpMethod, JsonValue, Parse, ParseDate, ParseObject,
    ParseQuery, Pointer,
};

fn client(master_key: Option<&str>) -> Parse {
    Parse::new(
        "http://localhost:1338/parse",
        "myAppId",
        None,
        None,
        master_key,
    )
    .unwrap()
}

/// A transport stand-in that only counts how often it was handed a request.
struct RecordingTransport {
    calls: usize,
}

impl RecordingTransport {
    fn send(&mut self, _request: &CompiledRequest) {
        self.calls += 1;
    }
}

fn header<'a>(req: &'a CompiledRequest, name: &str) -> Option<&'a str> {
    for (k, v) in &req.headers {
        if k == name {
            return Some(v);
        }
    }
    None
}

#[test]
fn master_key_request_without_key_fails_before_any_call() {
    let c = client(None);
    let mut transport = RecordingTransport { calls: 0 };
    let mut q = ParseQuery::new("Game");
    q.set_master_key(true);
    match c.find_request(&q) {
        Ok(req) => {
            transport.send(&req);
            panic!("a master-key request must not be assembled without a master key");
        }
        Err(e) => {
            assert_eq!(e.kind, ErrorKind::MasterKeyRequired);
        }
    }
    assert_eq!(transport.calls, 0);
}

#[test]
fn session_token_override_outranks_master_key() {
    let mut c = client(Some("SECRET-REDACTED"));
    c.set_session_token(Some("ambient-token".to_owned()));
    let handle = ParseUserHandle::new(c);
    let req = handle.become_user_request("override-token").unwrap();
    assert_eq!(
        header(&req, "X-Parse-Session-Token"),
        Some("override-token")
    );
    assert_eq!(header(&req, "X-Parse-Master-Key"), None);
}

#[test]
fn stored_token_and_keys_follow_precedence() {
    let c = Parse::new(
        "http://localhost:1338/parse",
        "app",
        Some("jskey"),
        Some("restkey"),
        None,
    )
    .unwrap();
    let req = c
        .build_request(HttpMethod::Get, "classes/X", None, &parse_rs::AuthOptions::plain())
        .unwrap();
    assert_eq!(header(&req, "X-Parse-Javascript-Key"), Some("jskey"));
    assert_eq!(header(&req, "X-Parse-REST-API-Key"), None);

    let mut c2 = c.clone();
    c2.set_session_token(Some("tok".to_owned()));
    let req2 = c2
        .build_request(HttpMethod::Get, "classes/X", None, &parse_rs::AuthOptions::plain())
        .unwrap();
    assert_eq!(header(&req2, "X-Parse-Session-Token"), Some("tok"));
    assert_eq!(header(&req2, "X-Parse-Javascript-Key"), None);

    let c3 = Parse::new("http://localhost:1338/parse", "app", None, Some("restkey"), None)
        .unwrap();
    let req3 = c3
        .build_request(HttpMethod::Get, "classes/X", None, &parse_rs::AuthOptions::plain())
        .unwrap();
    assert_eq!(header(&req3, "X-Parse-REST-API-Key"), Some("restkey"));
    assert_eq!(header(&req3, "X-Parse-Application-Id"), Some("app"));
}

#[test]
fn error_mapper_follows_the_protocol_table() {
    let e101 = map_protocol_error(400, 101, "nope".to_owned());
    assert_eq!(e101.kind, ErrorKind::ObjectNotFound);
    assert_eq!(e101.code, Some(101));
    assert_eq!(e101.message, "nope");

    let e209 = map_protocol_error(400, 209, "bad token".to_owned());
    assert_eq!(e209.kind, ErrorKind::InvalidSessionToken);

    let unknown = map_protocol_error(503, 9999, "down".to_owned());
    assert_eq!(unknown.kind, ErrorKind::InternalServerError);

    assert_eq!(map_protocol_error(400, 100, String::new()).kind, ErrorKind::ConnectionFailed);
    assert_eq!(map_protocol_error(400, 102, String::new()).kind, ErrorKind::InvalidQuery);
    assert_eq!(map_protocol_error(400, 111, String::new()).kind, ErrorKind::InvalidFieldType);
    assert_eq!(map_protocol_error(400, 119, String::new()).kind, ErrorKind::OperationForbidden);
    assert_eq!(map_protocol_error(400, 137, String::new()).kind, ErrorKind::DuplicateValue);
    assert_eq!(map_protocol_error(400, 202, String::new()).kind, ErrorKind::UsernameTaken);
    assert_eq!(map_protocol_error(400, 203, String::new()).kind, ErrorKind::EmailTaken);
    assert_eq!(map_protocol_error(401, 9999, String::new()).kind, ErrorKind::AuthenticationError);
    assert_eq!(map_protocol_error(403, 9999, String::new()).kind, ErrorKind::AuthenticationError);
    assert_eq!(map_protocol_error(404, 9999, String::new()).kind, ErrorKind::ObjectNotFound);
    assert_eq!(map_protocol_error(400, 9999, String::new()).kind, ErrorKind::OtherApiError);
}

#[test]
fn responses_classify_totally() {
    let body = JsonValue::Obj(vec![
        ("code".to_owned(), JsonValue::Int(209)),
        ("error".to_owned(), JsonValue::Str("invalid session".to_owned())),
    ]);
    let err = interpret_response(400, Some(body), "raw").unwrap_err();
    assert_eq!(err.kind, ErrorKind::InvalidSessionToken);
    assert_eq!(err.code, Some(209));
    assert_eq!(err.message, "invalid session");

    let fallback = interpret_response(502, None, "<html>gateway broke</html>").unwrap_err();
    assert_eq!(fallback.kind, ErrorKind::InternalServerError);
    assert_eq!(fallback.code, Some(502));
    assert_eq!(fallback.message, "<html>gateway broke</html>");

    let decode = interpret_response(200, None, "not json").unwrap_err();
    assert_eq!(decode.kind, ErrorKind::ResponseDecodeFailed);
    assert_eq!(decode.message, "not json");

    let empty = interpret_response(204, None, "").unwrap();
    assert!(matches!(empty, JsonValue::Obj(es) if es.is_empty()));

    let empty2 = interpret_response(200, None, "").unwrap();
    assert!(matches!(empty2, JsonValue::Obj(es) if es.is_empty()));

    let ok = interpret_response(200, Some(JsonValue::Int(5)), "5").unwrap();
    assert!(matches!(ok, JsonValue::Int(5)));
}

#[test]
fn server_url_is_normalized() {
    let c = client(None);
    assert_eq!(c.server_url, "http://localhost:1338");

    let bare = Parse::new("localhost:1338", "app", None, None, None);
    assert!(bare.is_err() || bare.unwrap().server_url.starts_with("http://"));

    let slashes = Parse::new("http://example.com/parse///", "app", None, None, None).unwrap();
    assert_eq!(slashes.server_url, "http://example.com");

    let stripped = Parse::new("http://example.com/parse/", "app", None, None, None).unwrap();
    assert_eq!(stripped.server_url, "http://example.com");

    let bad = Parse::new("http://[not-a-url", "app", None, None, None).unwrap_err();
    assert_eq!(bad.kind, ErrorKind::InvalidUrl);
}

#[test]
fn request_urls_join_base_root_and_endpoint() {
    let c = client(None);
    let req = c
        .build_request(HttpMethod::Get, "//classes/Game", None, &parse_rs::AuthOptions::plain())
        .unwrap();
    assert_eq!(req.url, "http://localhost:1338/parse/classes/Game");
}

#[test]
fn query_parameters_are_form_encoded() {
    let c = client(None);
    let mut q = ParseQuery::new("Game");
    q.equal_to("score", JsonValue::Int(100));
    q.limit(10);
    let req = c.find_request(&q).unwrap();
    assert_eq!(
        req.url,
        "http://localhost:1338/parse/classes/Game?where=%7B%22score%22%3A100%7D&limit=10"
    );
    assert_eq!(req.method, HttpMethod::Get);
}

#[test]
fn aggregation_always_requires_the_master_key() {
    let c = client(None);
    let q = ParseQuery::new("Game");
    let err = c.distinct_request(&q, "playerName").unwrap_err();
    assert_eq!(err.kind, ErrorKind::MasterKeyRequired);
    let err2 = c
        .aggregate_request("Game", &JsonValue::Arr(vec![]))
        .unwrap_err();
    assert_eq!(err2.kind, ErrorKind::MasterKeyRequired);

    let privileged = client(Some("SECRET-REDACTED"));
    let req = privileged.distinct_request(&q, "playerName").unwrap();
    assert!(header(&req, "X-Parse-Master-Key").is_some());
}

#[test]
fn object_requests_validate_their_inputs() {
    let c = client(None);
    let body = JsonValue::Obj(vec![("score".to_owned(), JsonValue::Int(1))]);
    assert_eq!(
        c.create_object_request("", &body).unwrap_err().kind,
        ErrorKind::InvalidInput
    );
    assert_eq!(
        c.create_object_request("9lives", &body).unwrap_err().kind,
        ErrorKind::InvalidInput
    );
    assert_eq!(
        c.create_object_request("Game!", &body).unwrap_err().kind,
        ErrorKind::InvalidInput
    );
    assert_eq!(
        c.retrieve_object_request("Game", "").unwrap_err().kind,
        ErrorKind::InvalidInput
    );

    let ok = c.create_object_request("_Game2", &body).unwrap();
    assert_eq!(ok.url, "http://localhost:1338/parse/classes/_Game2");
    assert_eq!(ok.body.as_deref(), Some("{\"score\":1}"));
    assert_eq!(header(&ok, "Content-Type"), Some("application/json"));

    let del = c.delete_object_request("Game", "abc").unwrap();
    assert_eq!(del.method, HttpMethod::Delete);
    assert_eq!(del.url, "http://localhost:1338/parse/classes/Game/abc");

    assert!(check_delete_response(&JsonValue::Obj(vec![])).is_ok());
    assert_eq!(
        check_delete_response(&JsonValue::Int(1)).unwrap_err().kind,
        ErrorKind::UnexpectedResponse
    );
}

#[test]
fn objects_accumulate_fields_and_operators() {
    let mut o = ParseObject::new("Game");
    o.set("score", JsonValue::Int(10));
    o.set("score", JsonValue::Int(20));
    o.increment("wins", 2);
    o.decrement("losses", 1);
    o.add_to_array("tags", vec![JsonValue::Str("new".to_owned())]);
    let body = o.into_body();
    assert_eq!(
        parse_rs::json::write_json(&body),
        "{\"losses\":{\"__op\":\"Increment\",\"amount\":-1},\"score\":20,\"tags\":{\"__op\":\"Add\",\"objects\":[\"new\"]},\"wins\":{\"__op\":\"Increment\",\"amount\":2}}"
    );
}

#[test]
fn object_body_carries_its_acl() {
    let mut o = ParseObject::new("Game");
    o.set("score", JsonValue::Int(1));
    let mut acl = parse_rs::ParseACL::new();
    acl.set_public_read_access(true);
    o.set_acl(acl);
    let body = o.into_body();
    assert_eq!(
        parse_rs::json::write_json(&body),
        "{\"ACL\":{\"*\":{\"read\":true}},\"score\":1}"
    );
}

#[test]
fn user_flows_guard_and_mutate_the_session_token() {
    let c = client(None);
    let mut handle = ParseUserHandle::new(c);
    assert_eq!(
        handle.me_request().unwrap_err().kind,
        ErrorKind::SessionTokenMissing
    );
    assert_eq!(
        handle.logout_request().unwrap_err().kind,
        ErrorKind::SessionTokenMissing
    );

    handle.apply_login(Some("r:abc".to_owned()));
    assert!(handle.client.is_authenticated());
    let me = handle.me_request().unwrap();
    assert_eq!(me.url, "http://localhost:1338/parse/users/me");
    assert_eq!(header(&me, "X-Parse-Session-Token"), Some("r:abc"));

    handle.apply_logout();
    assert!(!handle.client.is_authenticated());

    let client_back = handle.into_client();
    assert_eq!(client_back.session_token(), None);
}

#[test]
fn session_requests_follow_their_credentials() {
    let c = client(None);
    assert_eq!(
        c.session_me_request().unwrap_err().kind,
        ErrorKind::SessionTokenMissing
    );
    assert_eq!(
        c.get_session_request("sid").unwrap_err().kind,
        ErrorKind::MasterKeyRequired
    );

    let privileged = client(Some("SECRET-REDACTED"));
    let all = privileged.get_all_sessions_request(Some("limit=5")).unwrap();
    assert_eq!(all.url, "http://localhost:1338/parse/sessions?limit=5");
}

#[test]
fn role_and_relation_requests_compile_their_bodies() {
    let c = client(Some("SECRET-REDACTED"));
    let mut acl = parse_rs::ParseACL::new();
    acl.set_public_read_access(true);
    let create = c.create_role_request("Admins", &acl).unwrap();
    assert_eq!(
        create.body.as_deref(),
        Some("{\"name\":\"Admins\",\"ACL\":{\"*\":{\"read\":true}}}")
    );

    let err = c
        .role_users_request("rid", &vec![], true)
        .unwrap_err();
    assert_eq!(err.kind, ErrorKind::InvalidInput);

    let add = c
        .role_users_request("rid", &vec!["u1".to_owned()], true)
        .unwrap();
    assert_eq!(
        add.body.as_deref(),
        Some("{\"users\":{\"__op\":\"AddRelation\",\"objects\":[{\"__type\":\"Pointer\",\"className\":\"_User\",\"objectId\":\"u1\"}]}}")
    );

    let remove_children = c
        .role_children_request("rid", &vec!["r2".to_owned()], false)
        .unwrap();
    assert!(remove_children
        .body
        .as_deref()
        .unwrap()
        .contains("\"RemoveRelation\""));

    let targets = vec![Pointer::new("Game", "g1")];
    let rel = c
        .relation_request("Player", "p1", "games", &targets, true)
        .unwrap();
    assert_eq!(rel.url, "http://localhost:1338/parse/classes/Player/p1");
    assert!(rel.body.as_deref().unwrap().contains("\"games\""));
}

#[test]
fn config_and_analytics_requests_validate() {
    let c = client(Some("SECRET-REDACTED"));
    let params = JsonValue::Obj(vec![("welcome".to_owned(), JsonValue::Str("hi".to_owned()))]);
    let update = c.update_config_request(params).unwrap();
    assert_eq!(
        update.body.as_deref(),
        Some("{\"params\":{\"welcome\":\"hi\"}}")
    );
    assert_eq!(
        c.update_config_request(JsonValue::Obj(vec![]))
            .unwrap_err()
            .kind,
        ErrorKind::InvalidInput
    );
    let unprivileged = client(None);
    assert_eq!(
        unprivileged
            .update_config_request(JsonValue::Obj(vec![]))
            .unwrap_err()
            .kind,
        ErrorKind::MasterKeyRequired
    );

    assert_eq!(
        c.track_event_request("", None).unwrap_err().kind,
        ErrorKind::InvalidInput
    );
    let event_req = c.track_event_request("Opened", None).unwrap();
    assert_eq!(event_req.url, "http://localhost:1338/parse/events/Opened");
    assert_eq!(event_req.body.as_deref(), Some("{}"));
}

#[test]
fn file_uploads_carry_their_own_headers() {
    let mut c = client(Some("SECRET-REDACTED"));
    let req = c.file_upload_request("photo.jpg", "image/jpeg");
    assert_eq!(req.url, "http://localhost:1338/parse/files/photo.jpg");
    assert_eq!(header(&req, "X-Parse-Master-Key"), Some("SECRET-REDACTED"));
    assert_eq!(header(&req, "Content-Type"), Some("image/jpeg"));

    c.set_session_token(Some("tok".to_owned()));
    let req2 = c.file_upload_request("photo.jpg", "image/jpeg");
    assert_eq!(header(&req2, "X-Parse-Session-Token"), Some("tok"));
    assert_eq!(header(&req2, "X-Parse-Master-Key"), None);
}

#[test]
fn endpoints_build_single_slash_paths() {
    assert_eq!(
        Endpoint::Classes("Game".to_owned()).build_url("/parse"),
        "/parse/classes/Game"
    );
    assert_eq!(
        Endpoint::Objects("Game".to_owned(), Some("id1".to_owned())).build_url("/parse"),
        "/parse/classes/Game/id1"
    );
    assert_eq!(Endpoint::UsersMe.build_url("/"), "/users/me");
    assert_eq!(Endpoint::Config.build_url(""), "/config");
    assert_eq!(
        Endpoint::Aggregate("Game".to_owned()).build_url("/"),
        "/aggregate/Game"
    );
}

#[test]
fn dates_and_pointers_carry_their_tags() {
    let d = ParseDate::new("2024-01-26T18:30:09.453Z");
    assert_eq!(d.__type, "Date");
    assert_eq!(d.iso, "2024-01-26T18:30:09.453Z");

    let now = ParseDate::now();
    assert_eq!(now.__type, "Date");
    assert!(now.iso.ends_with('Z'));
    assert!(now.iso.len() >= 20);
    assert!(now.iso.starts_with("20"));

    let p = Pointer::new("Game", "g1");
    assert_eq!(p.__type, "Pointer");

    let f = parse_rs::ParseFile::new("a.txt".to_owned(), vec![1, 2], "text/plain".to_owned());
    assert!(f.to_field().is_none());
    let stored = parse_rs::ParseFile {
        url: Some("http://x/a.txt".to_owned()),
        ..f
    };
    let field = stored.to_field().unwrap();
    assert_eq!(field._type, "File");
    assert_eq!(field.url, "http://x/a.txt");
}

#[test]
fn cloud_function_requests_post_their_parameters() {
    let c = client(None);
    let params = JsonValue::Obj(vec![("name".to_owned(), JsonValue::Str("World".to_owned()))]);
    let req = c.cloud_function_request("hello", &params).unwrap();
    assert_eq!(req.url, "http://localhost:1338/parse/functions/hello");
    assert_eq!(req.method, HttpMethod::Post);
    assert_eq!(req.body.as_deref(), Some("{\"name\":\"World\"}"));
}

#[test]
fn raw_response_text_decodes_and_classifies() {
    let err = decode_response(404, "{\"code\":101,\"error\":\"not found\"}").unwrap_err();
    assert_eq!(err.kind, ErrorKind::ObjectNotFound);
    assert_eq!(err.code, Some(101));
    assert_eq!(err.message, "not found");

    let ok = decode_response(200, "{\"results\":[]}").unwrap();
    assert_eq!(parse_rs::json::write_json(&ok), "{\"results\":[]}");

    let bad = decode_response(200, "<html>").unwrap_err();
    assert_eq!(bad.kind, ErrorKind::ResponseDecodeFailed);

    let synthesized = decode_response(500, "boom").unwrap_err();
    assert_eq!(synthesized.kind, ErrorKind::InternalServerError);
    assert_eq!(synthesized.code, Some(500));
}

#[test]
fn canonical_bodies_decode_to_their_exact_text() {
    let ok = decode_response(200, "{\"results\":[{\"objectId\":\"a1\"}],\"count\":2}").unwrap();
    assert_eq!(
        parse_rs::json::write_json(&ok),
        "{\"results\":[{\"objectId\":\"a1\"}],\"count\":2}"
    );

    let err = decode_response(400, "{\"code\":137,\"error\":\"dup\"}").unwrap_err();
    assert_eq!(err.kind, ErrorKind::DuplicateValue);
    assert_eq!(err.code, Some(137));
    assert_eq!(err.message, "dup");
}

#[test]
fn relation_indicator_serializes_with_its_tag() {
    let rel = parse_rs::ParseRelation::new("Comment");
    assert_eq!(
        parse_rs::json::write_json(&rel.to_json()),
        "{\"__type\":\"Relation\",\"className\":\"Comment\"}"
    );
}
