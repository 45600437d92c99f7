//! The library's trusted window on the outside crates it calls: regular
//! expression escaping, URL validation, query-pair encoding and the clock.
//! Each wrapper's contract states what the named outside function computes;
//! nothing else in the crate is taken on trust.

use vstd::prelude::*;
use vstd::string::StringSliceAdditionalSpecFns;

verus! {

/// Whether a character has significance in a regular expression: the
/// character set that regex-syntax's `is_meta_character` accepts.
pub open spec fn is_regex_meta(c: char) -> bool {
    c == '\\' || c == '.' || c == '+' || c == '*' || c == '?' || c == '(' || c == ')' || c == '|'
        || c == '[' || c == ']' || c == '{' || c == '}' || c == '^' || c == '$' || c == '#'
        || c == '&' || c == '-' || c == '~'
}

/// What one character contributes to an escaped regular-expression literal.
pub open spec fn regex_escaped_char(c: char) -> Seq<char> {
    if is_regex_meta(c) {
        seq!['\\', c]
    } else {
        seq![c]
    }
}

/// A string escaped so that it matches itself literally in a regular
/// expression: a backslash before every meta character.
pub open spec fn regex_escaped(s: Seq<char>) -> Seq<char>
    decreases s.len(),
{
    if s.len() == 0 {
        Seq::empty()
    } else {
        regex_escaped(s.drop_last()) + regex_escaped_char(s.last())
    }
}

/// Relies on `regex::escape` (regex-syntax `escape_into`): it copies the
/// input, putting a backslash before exactly the characters that
/// `is_meta_character` accepts.
#[verifier::external_body]
pub(crate) fn regex_escape(s: &str) -> (r: String)
    ensures
        r@ == regex_escaped(s@),
{
    regex::escape(s)
}

/// Whether `url::Url::parse` accepts the string as an absolute URL that can
/// serve as a base for joining request paths.
pub uninterp spec fn url_accepts_base(s: Seq<char>) -> bool;

/// Relies on `url::Url::parse` and `Url::cannot_be_a_base`: true exactly for
/// the strings that parse as a URL able to serve as a request base.
#[verifier::external_body]
pub(crate) fn url_is_valid_base(s: &str) -> (r: bool)
    ensures
        r == url_accepts_base(s@),
{
    match url::Url::parse(s) {
        Ok(u) => !u.cannot_be_a_base(),
        Err(_) => false,
    }
}

/// An upper-case hexadecimal digit character for `d % 16`.
pub open spec fn upper_hex_digit(d: nat) -> char {
    if d % 16 < 10 {
        ((48 + (d % 16)) as u8) as char
    } else {
        ((55 + (d % 16)) as u8) as char
    }
}

/// The `application/x-www-form-urlencoded` serialization of one byte:
/// alphanumerics and `*-._` unchanged, a space as `+`, anything else
/// percent-encoded with upper-case hexadecimal digits.
pub open spec fn urlencoded_byte(b: u8) -> Seq<char> {
    if b == 32 {
        seq!['+']
    } else if (48 <= b && b <= 57) || (65 <= b && b <= 90) || (97 <= b && b <= 122) || b == 42
        || b == 45 || b == 46 || b == 95 {
        seq![b as char]
    } else {
        seq!['%', upper_hex_digit((b / 16) as nat), upper_hex_digit(b as nat)]
    }
}

/// The form-urlencoded serialization of a byte string.
pub open spec fn urlencoded_bytes(bs: Seq<u8>) -> Seq<char>
    decreases bs.len(),
{
    if bs.len() == 0 {
        Seq::empty()
    } else {
        urlencoded_bytes(bs.drop_last()) + urlencoded_byte(bs.last())
    }
}

/// The form-urlencoded text of one query parameter: encoded name, `=`,
/// encoded value, each over the UTF-8 bytes of its text.
pub open spec fn encoded_pair(k: Seq<char>, v: Seq<char>) -> Seq<char> {
    urlencoded_bytes(vstd::utf8::encode_utf8(k)) + seq!['='] + urlencoded_bytes(
        vstd::utf8::encode_utf8(v),
    )
}

/// Relies on `url::form_urlencoded::Serializer::append_pair`: it
/// byte-serializes the UTF-8 of name and value as form-urlencoded text,
/// joined by `=`.
#[verifier::external_body]
pub(crate) fn encode_query_pair(k: &str, v: &str) -> (r: String)
    ensures
        r@ == encoded_pair(k@, v@),
{
    url::form_urlencoded::Serializer::new(String::new()).append_pair(k, v).finish()
}

/// Whether the Unicode tables class the character as alphabetic, as
/// `char::is_alphabetic` decides it.
pub uninterp spec fn alphabetic(c: char) -> bool;

/// Relies on `char::is_alphabetic`: the result depends on the character
/// alone.
#[verifier::external_body]
pub(crate) fn char_is_alphabetic(c: char) -> (r: bool)
    ensures
        r == alphabetic(c),
{
    c.is_alphabetic()
}

/// Whether the Unicode tables class the character as alphanumeric, as
/// `char::is_alphanumeric` decides it.
pub uninterp spec fn alphanumeric(c: char) -> bool;

/// Relies on `char::is_alphanumeric`: the result depends on the character
/// alone.
#[verifier::external_body]
pub(crate) fn char_is_alphanumeric(c: char) -> (r: bool)
    ensures
        r == alphanumeric(c),
{
    c.is_alphanumeric()
}

/// Relies on `char::from_u32`: a character exactly for Unicode scalar
/// values, carrying the given code.
#[verifier::external_body]
pub(crate) fn char_from_u32(u: u32) -> (r: Option<char>)
    ensures
        r is Some <==> vstd::utf8::is_scalar(u),
        r matches Some(c) ==> (c as u32) == u,
{
    char::from_u32(u)
}

/// Relies on chrono's `Utc::now` and `to_rfc3339_opts` with millisecond
/// precision and `use_z`: whatever moment the clock reports, the text is
/// non-empty and carries the `Z` suffix.
#[verifier::external_body]
pub(crate) fn now_iso_utc() -> (r: String)
    ensures
        r@.len() > 0,
        r@.last() == 'Z',
{
    chrono::Utc::now().to_rfc3339_opts(chrono::SecondsFormat::Millis, true)
}

} // verus!
