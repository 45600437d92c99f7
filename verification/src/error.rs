//! The typed error taxonomy and the mapping from terminal protocol responses
//! into it.
//!
//! A failure is always one value of [`ParseError`]: a closed [`ErrorKind`],
//! the numeric protocol code when the server reported one, and a message.
//! [`map_protocol_error`] is the deterministic lookup table from a numeric
//! protocol code (with the HTTP status as fallback) to a kind, and
//! [`interpret_response`] classifies a whole HTTP exchange outcome, so that
//! every response, well-formed or not, becomes exactly one typed result.

use vstd::prelude::*;

use crate::json::{obj_lookup, JsonValue};

verus! {

/// The closed set of failure kinds a caller can receive.
#[derive(Clone, Copy, Debug, PartialEq, Eq, Structural)]
pub enum ErrorKind {
    /// Protocol code 100: the server could not reach its own backing store.
    ConnectionFailed,
    /// Protocol code 101: no such object, also reported for bad credentials,
    /// and the fallback for HTTP 404.
    ObjectNotFound,
    /// Protocol code 102: the query is malformed.
    InvalidQuery,
    /// Protocol code 111: a field value has the wrong type.
    InvalidFieldType,
    /// Protocol code 119: the operation needs an elevated credential.
    OperationForbidden,
    /// Protocol code 137: a unique value was duplicated.
    DuplicateValue,
    /// Protocol code 202: the username is already taken.
    UsernameTaken,
    /// Protocol code 203: the email is already taken.
    EmailTaken,
    /// Protocol code 209: the session token is invalid.
    InvalidSessionToken,
    /// Unrecognized code with HTTP status 500 or above.
    InternalServerError,
    /// Unrecognized code with HTTP status 401 or 403.
    AuthenticationError,
    /// Unrecognized code with any other HTTP status.
    OtherApiError,
    /// Pre-flight: elevated credentials were requested but none is configured.
    MasterKeyRequired,
    /// Pre-flight: the call needs a session token and none is set.
    SessionTokenMissing,
    /// Pre-flight: an argument was rejected before any request was built.
    InvalidInput,
    /// A success response whose body did not decode as expected.
    ResponseDecodeFailed,
    /// The request could not be delivered or no response arrived.
    Transport,
    /// The configured server URL cannot be used as a request base.
    InvalidUrl,
    /// A success response carried a body of an unexpected shape.
    UnexpectedResponse,
}

/// A typed failure: its kind, the numeric protocol code when the server
/// reported one, and a human-readable message.
#[derive(Clone, Debug)]
pub struct ParseError {
    pub kind: ErrorKind,
    pub code: Option<u64>,
    pub message: String,
}

impl ParseError {
    /// A locally produced failure of the given kind, with no protocol code.
    pub fn of_kind(kind: ErrorKind, message: String) -> (e: ParseError)
        ensures
            e.kind == kind,
            e.code is None,
            e.message == message,
    {
        ParseError { kind, code: None, message }
    }

    /// The message carried by this failure.
    pub fn message_text(&self) -> (r: &str)
        ensures
            r@ == self.message@,
    {
        self.message.as_str()
    }
}

/// The kind a terminal response maps to: the numeric protocol code decides
/// first; an unrecognized code falls back on the HTTP status.
pub open spec fn protocol_kind(code: u64, status: u16) -> ErrorKind {
    if code == 100 {
        ErrorKind::ConnectionFailed
    } else if code == 101 {
        ErrorKind::ObjectNotFound
    } else if code == 102 {
        ErrorKind::InvalidQuery
    } else if code == 111 {
        ErrorKind::InvalidFieldType
    } else if code == 119 {
        ErrorKind::OperationForbidden
    } else if code == 137 {
        ErrorKind::DuplicateValue
    } else if code == 202 {
        ErrorKind::UsernameTaken
    } else if code == 203 {
        ErrorKind::EmailTaken
    } else if code == 209 {
        ErrorKind::InvalidSessionToken
    } else if status >= 500 {
        ErrorKind::InternalServerError
    } else if status == 401 || status == 403 {
        ErrorKind::AuthenticationError
    } else if status == 404 {
        ErrorKind::ObjectNotFound
    } else {
        ErrorKind::OtherApiError
    }
}

/// Maps a reported protocol code and HTTP status to a typed failure.  The
/// table is total: every input yields exactly one kind.
pub fn map_protocol_error(status: u16, code: u64, message: String) -> (e: ParseError)
    ensures
        e.kind == protocol_kind(code, status),
        e.code == Some(code),
        e.message == message,
{
    let kind = if code == 100 {
        ErrorKind::ConnectionFailed
    } else if code == 101 {
        ErrorKind::ObjectNotFound
    } else if code == 102 {
        ErrorKind::InvalidQuery
    } else if code == 111 {
        ErrorKind::InvalidFieldType
    } else if code == 119 {
        ErrorKind::OperationForbidden
    } else if code == 137 {
        ErrorKind::DuplicateValue
    } else if code == 202 {
        ErrorKind::UsernameTaken
    } else if code == 203 {
        ErrorKind::EmailTaken
    } else if code == 209 {
        ErrorKind::InvalidSessionToken
    } else if status >= 500 {
        ErrorKind::InternalServerError
    } else if status == 401 || status == 403 {
        ErrorKind::AuthenticationError
    } else if status == 404 {
        ErrorKind::ObjectNotFound
    } else {
        ErrorKind::OtherApiError
    };
    ParseError { kind, code: Some(code), message }
}

/// The member of an object value under `key`; `None` on any other variant.
pub open spec fn json_member(v: JsonValue, key: Seq<char>) -> Option<JsonValue> {
    match v {
        JsonValue::Obj(entries) => obj_lookup(entries@, key),
        _ => None,
    }
}

/// Looks up a member of a JSON object by key.
pub fn get_member<'a>(v: &'a JsonValue, key: &str) -> (r: Option<&'a JsonValue>)
    ensures
        match r {
            Some(m) => json_member(*v, key@) == Some(*m),
            None => json_member(*v, key@) is None,
        },
{
    match v {
        JsonValue::Obj(entries) => {
            let n = entries.len();
            let mut i: usize = 0;
            proof {
                assert(entries@.skip(0int) =~= entries@);
            }
            while i < n
                invariant
                    i <= n,
                    n == entries@.len(),
                    json_member(*v, key@) == obj_lookup(entries@, key@),
                    obj_lookup(entries@, key@) == obj_lookup(entries@.skip(i as int), key@),
                decreases n - i,
            {
                proof {
                    assert(entries@.skip(i as int)[0] == entries@[i as int]);
                    assert(entries@.skip(i as int).skip(1) =~= entries@.skip(i + 1int));
                }
                if crate::text::str_lex_cmp(entries[i].0.as_str(), key) == 0 {
                    return Some(&entries[i].1);
                }
                i = i + 1;
            }
            None
        },
        _ => None,
    }
}

/// The numeric protocol code carried by an error body: its non-negative
/// integer `code` member, or `0` when that member is missing or unusable.
pub open spec fn protocol_code_of(v: JsonValue) -> u64 {
    match json_member(v, "code"@) {
        Some(m) => match m {
            JsonValue::Int(i) => if i >= 0 {
                i as u64
            } else {
                0
            },
            _ => 0,
        },
        _ => 0,
    }
}

/// The message carried by an error body: its string `error` member, or the
/// fixed text `Unknown error` when that member is missing or not a string.
pub open spec fn protocol_message_of(v: JsonValue) -> Seq<char> {
    match json_member(v, "error"@) {
        Some(m) => match m {
            JsonValue::Str(s) => s@,
            _ => "Unknown error"@,
        },
        _ => "Unknown error"@,
    }
}

/// Reads the numeric code and the message out of a decoded error body.
pub fn extract_error_parts(v: &JsonValue) -> (r: (u64, String))
    ensures
        r.0 == protocol_code_of(*v),
        r.1@ == protocol_message_of(*v),
{
    let code: u64 = match get_member(v, "code") {
        Some(m) => match m {
            JsonValue::Int(i) => if *i >= 0 {
                *i as u64
            } else {
                0
            },
            _ => 0,
        },
        None => 0,
    };
    let message: String = match get_member(v, "error") {
        Some(m) => match m {
            JsonValue::Str(s) => s.clone(),
            _ => "Unknown error".to_owned(),
        },
        None => "Unknown error".to_owned(),
    };
    (code, message)
}

/// Whether an HTTP status reports success.
pub open spec fn is_success_status(status: u16) -> bool {
    200 <= status < 300
}

/// The snippet of a raw body carried by a synthesized error: at most its
/// first 100 characters.
pub open spec fn body_snippet(raw: Seq<char>) -> Seq<char> {
    if raw.len() <= 100 {
        raw
    } else {
        raw.subrange(0, 100)
    }
}

/// Classifies one HTTP exchange outcome.  `body` is the response body decoded
/// as JSON, `None` when the body was not valid JSON; `raw` is the body text.
///
/// A success with a decoded body hands that body back; an empty success (HTTP
/// 204, or a 2xx without a byte of body) becomes the canonical empty object;
/// a success whose body did not decode is a `ResponseDecodeFailed` carrying
/// the raw body.  A failure with a decoded body goes through the protocol
/// error table; one without is mapped as a synthesized body that carries the
/// HTTP status as code and a snippet of the raw text as message.
pub fn interpret_response(status: u16, body: Option<JsonValue>, raw: &str) -> (r: Result<
    JsonValue,
    ParseError,
>)
    ensures
        is_success_status(status) ==> match r {
            Ok(v) => if status == 204 || !(body is Some) && raw@.len() == 0 {
                v matches JsonValue::Obj(es) && es@.len() == 0
            } else {
                body == Some(v)
            },
            Err(e) => {
                &&& status != 204 && body is None && raw@.len() > 0
                &&& e.kind == ErrorKind::ResponseDecodeFailed
                &&& e.code is None
                &&& e.message@ == raw@
            },
        },
        is_success_status(status) ==> (r is Err <==> status != 204 && body is None && raw@.len()
            > 0),
        !is_success_status(status) ==> match r {
            Ok(v) => false,
            Err(e) => match body {
                Some(b) => {
                    &&& e.kind == protocol_kind(protocol_code_of(b), status)
                    &&& e.code == Some(protocol_code_of(b))
                    &&& e.message@ == protocol_message_of(b)
                },
                None => {
                    &&& e.kind == protocol_kind(status as u64, status)
                    &&& e.code == Some(status as u64)
                    &&& e.message@ == body_snippet(raw@)
                },
            },
        },
{
    if 200 <= status && status < 300 {
        if status == 204 {
            return Ok(JsonValue::Obj(Vec::new()));
        }
        match body {
            Some(v) => Ok(v),
            None => {
                if raw.unicode_len() == 0 {
                    Ok(JsonValue::Obj(Vec::new()))
                } else {
                    Err(ParseError::of_kind(ErrorKind::ResponseDecodeFailed, raw.to_owned()))
                }
            },
        }
    } else {
        match body {
            Some(b) => {
                let (code, message) = extract_error_parts(&b);
                Err(map_protocol_error(status, code, message))
            },
            None => {
                let snippet = crate::text::take_chars(raw, 100);
                Err(map_protocol_error(status, status as u64, snippet))
            },
        }
    }
}


/// Decodes and classifies one HTTP exchange outcome from its raw body text:
/// the body is decoded as JSON by the library's own parser and the result
/// goes through [`interpret_response`].  A failing status always yields a
/// typed error whose kind follows the protocol table; a success whose body is
/// not a JSON document yields `ResponseDecodeFailed` carrying the raw body.
///
/// When the body is the canonical text of a document `v` with integer
/// numbers, the outcome is tied to that text: a success (other than 204)
/// yields a document with exactly that text, and a failure yields the error
/// mapped from the code and message of a document with exactly that text.
pub fn decode_response(status: u16, raw: &str) -> (r: Result<JsonValue, ParseError>)
    ensures
        !is_success_status(status) ==> r is Err,
        r matches Err(e) ==> (if is_success_status(status) {
            e.kind == ErrorKind::ResponseDecodeFailed && e.code is None && e.message@ == raw@
        } else {
            e.code matches Some(code) && e.kind == protocol_kind(code, status)
        }),
        status == 204 ==> (r matches Ok(v) && v matches JsonValue::Obj(es) && es@.len() == 0),
        forall|v: JsonValue|
            crate::json::int_numbered(v) && #[trigger] crate::json::json_text(v) == raw@ ==> (if (
            is_success_status(status) && status != 204) {
                r matches Ok(w) && crate::json::json_text(w) == raw@
            } else if !is_success_status(status) {
                r matches Err(e) && (exists|w: JsonValue|
                    #![trigger crate::json::json_text(w)]
                    crate::json::json_text(w) == raw@ && e.kind == protocol_kind(
                        protocol_code_of(w),
                        status,
                    ) && e.code == Some(protocol_code_of(w)) && e.message@ == protocol_message_of(
                        w,
                    ))
            } else {
                true
            }),
{
    let body = crate::json::parse_json(raw);
    let ghost gbody = body;
    let r = interpret_response(status, body, raw);
    proof {
        assert forall|v: JsonValue|
            crate::json::int_numbered(v) && #[trigger] crate::json::json_text(v)
                == raw@ implies (if (is_success_status(status) && status != 204) {
            r matches Ok(w) && crate::json::json_text(w) == raw@
        } else if !is_success_status(status) {
            r matches Err(e) && (exists|w: JsonValue|
                #![trigger crate::json::json_text(w)]
                crate::json::json_text(w) == raw@ && e.kind == protocol_kind(
                    protocol_code_of(w),
                    status,
                ) && e.code == Some(protocol_code_of(w)) && e.message@ == protocol_message_of(w))
        } else {
            true
        }) by {
            match gbody {
                Some(w0) => {
                    assert(crate::json::json_text(w0) == raw@);
                },
                None => {
                    assert(false);
                },
            }
        }
    }
    r
}

} // verus!
