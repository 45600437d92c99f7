//! The client value and the request envelopes built from it.
//!
//! [`Parse`] holds the configured server base and credentials, and the one
//! piece of mutable state, the stored session token.  The request builders
//! turn a method, a relative endpoint and optional query parameters or a JSON
//! body into a [`CompiledRequest`]: the absolute URL, the ordered header
//! list resolved by [`crate::auth::resolve`], and the serialized body.  A
//! missing master key fails here, before anything could be sent.

use vstd::prelude::*;

use crate::auth::{header_model, header_vec, master_key_missing, resolve, resolved_credential,
    AuthOptions, HeaderSet};
use crate::error::{ErrorKind, ParseError};
use crate::json::{json_text, write_json, JsonValue};
use crate::outside::{encoded_pair, url_accepts_base, url_is_valid_base};
use crate::text::{ends_with_str, has_prefix, has_suffix, starts_with_str, trim_leading_slashes,
    trim_trailing_slashes, without_leading_slashes, without_trailing_slashes};

verus! {

/// A configured client: server base, application identifier, the optional
/// keys, and the stored session token that login and logout flows mutate.
///
/// The stored session token is the one piece of shared mutable state.  It is
/// held as an explicit field and changed only through owning operations, so
/// nothing here serializes concurrent login and logout against one client
/// value: callers that need a strict order must provide it themselves.
#[derive(Debug, Clone)]
pub struct Parse {
    /// The normalized server base: scheme and authority, trailing slashes and
    /// a trailing protocol-root segment removed.
    pub server_url: String,
    pub app_id: String,
    pub javascript_key: Option<String>,
    pub rest_api_key: Option<String>,
    pub master_key: Option<String>,
    pub session_token: Option<String>,
}

/// The view of an optional owned string.
pub open spec fn opt_view(o: Option<String>) -> Option<Seq<char>> {
    match o {
        Some(s) => Some(s@),
        None => None,
    }
}

/// The view of an optional borrowed string.
pub open spec fn opt_str_view(o: Option<&str>) -> Option<Seq<char>> {
    match o {
        Some(s) => Some(s@),
        None => None,
    }
}

/// The configured URL with a scheme: unchanged when one is present, with
/// `http://` put in front otherwise.
pub open spec fn scheme_applied(s: Seq<char>) -> Seq<char> {
    if has_prefix(s, "http://"@) || has_prefix(s, "https://"@) {
        s
    } else {
        "http://"@ + s
    }
}

/// The normalized server base: scheme applied, trailing slashes removed, and
/// a trailing `/parse` root segment stripped so request paths never carry the
/// segment twice.
pub open spec fn normalized_base_url(s: Seq<char>) -> Seq<char> {
    let t = without_trailing_slashes(scheme_applied(s));
    if has_suffix(t, "/parse"@) {
        t.subrange(0, t.len() - 6)
    } else {
        t
    }
}

impl Parse {
    /// Configures a client.  Fails, with `InvalidUrl`, exactly when the URL
    /// (after a scheme is ensured) cannot serve as a request base or
    /// normalizes to nothing; otherwise every credential is stored as given
    /// and no session token is set.
    pub fn new(
        server_url: &str,
        app_id: &str,
        javascript_key: Option<&str>,
        rest_api_key: Option<&str>,
        master_key: Option<&str>,
    ) -> (r: Result<Parse, ParseError>)
        ensures
            r is Ok <==> url_accepts_base(scheme_applied(server_url@)) && normalized_base_url(
                server_url@,
            ).len() > 0,
            r matches Err(e) ==> e.kind == ErrorKind::InvalidUrl,
            r matches Ok(c) ==> {
                &&& c.server_url@ == normalized_base_url(server_url@)
                &&& c.app_id@ == app_id@
                &&& opt_view(c.javascript_key) == opt_str_view(javascript_key)
                &&& opt_view(c.rest_api_key) == opt_str_view(rest_api_key)
                &&& opt_view(c.master_key) == opt_str_view(master_key)
                &&& c.session_token is None
            },
    {
        let with_scheme: String = if starts_with_str(server_url, "http://") || starts_with_str(
            server_url,
            "https://",
        ) {
            server_url.to_owned()
        } else {
            let mut t = "http://".to_owned();
            t.append(server_url);
            t
        };
        if !url_is_valid_base(with_scheme.as_str()) {
            return Err(
                ParseError::of_kind(
                    ErrorKind::InvalidUrl,
                    "The server URL cannot serve as a request base.".to_owned(),
                ),
            );
        }
        let trimmed = trim_trailing_slashes(with_scheme.as_str());
        let base: String = if ends_with_str(trimmed.as_str(), "/parse") {
            let n = trimmed.as_str().unicode_len();
            proof {
                reveal_strlit("/parse");
            }
            trimmed.as_str().substring_char(0, n - 6).to_owned()
        } else {
            trimmed
        };
        if base.as_str().unicode_len() == 0 {
            return Err(
                ParseError::of_kind(
                    ErrorKind::InvalidUrl,
                    "The server URL normalizes to an empty base.".to_owned(),
                ),
            );
        }
        Ok(
            Parse {
                server_url: base,
                app_id: app_id.to_owned(),
                javascript_key: match javascript_key {
                    Some(k) => Some(k.to_owned()),
                    None => None,
                },
                rest_api_key: match rest_api_key {
                    Some(k) => Some(k.to_owned()),
                    None => None,
                },
                master_key: match master_key {
                    Some(k) => Some(k.to_owned()),
                    None => None,
                },
                session_token: None,
            },
        )
    }

    /// The stored session token, if one is set.
    pub fn session_token(&self) -> (r: Option<&str>)
        ensures
            opt_str_view(r) == opt_view(self.session_token),
    {
        match &self.session_token {
            Some(t) => Some(t.as_str()),
            None => None,
        }
    }

    /// Whether a session token is stored.
    pub fn is_authenticated(&self) -> (r: bool)
        ensures
            r == (self.session_token is Some),
    {
        match &self.session_token {
            Some(_) => true,
            None => false,
        }
    }

    /// Stores or clears the session token; nothing else changes.
    pub fn set_session_token(&mut self, token: Option<String>)
        ensures
            final(self).session_token == token,
            final(self).server_url == old(self).server_url,
            final(self).app_id == old(self).app_id,
            final(self).javascript_key == old(self).javascript_key,
            final(self).rest_api_key == old(self).rest_api_key,
            final(self).master_key == old(self).master_key,
    {
        self.session_token = token;
    }
}

/// The HTTP method of a compiled request.
#[derive(Clone, Copy, Debug, PartialEq, Eq, Structural)]
pub enum HttpMethod {
    Get,
    Post,
    Put,
    Delete,
}

/// Whether a method carries a JSON body and so a content type.
pub open spec fn carries_body(m: HttpMethod) -> bool {
    m == HttpMethod::Post || m == HttpMethod::Put
}

/// One fully assembled request: everything the transport needs to send it.
#[derive(Debug, Clone)]
pub struct CompiledRequest {
    pub method: HttpMethod,
    pub url: String,
    pub headers: Vec<(String, String)>,
    pub body: Option<String>,
}

/// The absolute URL of an endpoint: the server base, the protocol root, and
/// the endpoint with its leading slashes trimmed so no double slash occurs.
pub open spec fn request_url_of(server_url: Seq<char>, endpoint: Seq<char>) -> Seq<char> {
    server_url + "/parse/"@ + without_leading_slashes(endpoint)
}

/// The encoded query parameters joined with `&`.
pub open spec fn joined_pairs(ps: Seq<(Seq<char>, Seq<char>)>) -> Seq<char>
    decreases ps.len(),
{
    if ps.len() == 0 {
        Seq::empty()
    } else if ps.len() == 1 {
        encoded_pair(ps[0].0, ps[0].1)
    } else {
        joined_pairs(ps.drop_last()) + seq!['&'] + encoded_pair(ps.last().0, ps.last().1)
    }
}

/// The query-string suffix of a URL: empty without parameters, otherwise `?`
/// and the encoded pairs.
pub open spec fn query_suffix(ps: Seq<(Seq<char>, Seq<char>)>) -> Seq<char> {
    if ps.len() == 0 {
        Seq::empty()
    } else {
        seq!['?'] + joined_pairs(ps)
    }
}

/// The header set a client resolves for the given options.
pub open spec fn resolved_headers(ctx: Parse, opts: AuthOptions) -> HeaderSet {
    HeaderSet { app_id: ctx.app_id, credential: resolved_credential(ctx, opts) }
}

impl Parse {
    /// Assembles one request: URL from base and endpoint, query parameters
    /// encoded and appended, headers resolved by credential precedence, and
    /// the body serialized when one is given.  Fails, before anything is
    /// assembled, exactly when the master key is required but missing.
    pub fn build_request_with_params(
        &self,
        method: HttpMethod,
        endpoint: &str,
        params: &Vec<(String, String)>,
        body: Option<&JsonValue>,
        opts: &AuthOptions,
        force_content_type: bool,
    ) -> (r: Result<CompiledRequest, ParseError>)
        ensures
            r is Err <==> master_key_missing(*self, *opts),
            r matches Err(e) ==> e.kind == ErrorKind::MasterKeyRequired,
            r matches Ok(req) ==> {
                &&& req.method == method
                &&& req.url@ == request_url_of(self.server_url@, endpoint@) + query_suffix(
                    params.deep_view(),
                )
                &&& req.headers.deep_view() == header_model(
                    resolved_headers(*self, *opts),
                    force_content_type || carries_body(method),
                )
                &&& match body {
                    Some(b) => req.body matches Some(s) && s@ == json_text(*b),
                    None => req.body is None,
                }
            },
    {
        let headers = match resolve(self, opts) {
            Ok(h) => h,
            Err(e) => {
                return Err(e);
            },
        };
        let mut url = self.server_url.clone();
        url.append("/parse/");
        let tail = trim_leading_slashes(endpoint);
        url.append(tail.as_str());
        let ghost base = request_url_of(self.server_url@, endpoint@);
        proof {
            assert(url@ =~= base);
            assert(params.deep_view().subrange(0, 0int) =~= Seq::<(Seq<char>, Seq<char>)>::empty());
        }
        let n = params.len();
        let mut i: usize = 0;
        while i < n
            invariant
                i <= n,
                n == params@.len(),
                params.deep_view().len() == n,
                url@ == base + query_suffix(params.deep_view().subrange(0, i as int)),
            decreases n - i,
        {
            if i == 0 {
                crate::json::push_char(&mut url, '?');
            } else {
                crate::json::push_char(&mut url, '&');
            }
            let enc = crate::outside::encode_query_pair(params[i].0.as_str(), params[i].1.as_str());
            url.append(enc.as_str());
            proof {
                let dv = params.deep_view();
                assert(dv[i as int] == (params@[i as int].0@, params@[i as int].1@));
                let sub1 = dv.subrange(0, i + 1int);
                assert(sub1.drop_last() =~= dv.subrange(0, i as int));
                assert(sub1.last() == dv[i as int]);
                assert(url@ =~= base + query_suffix(sub1));
            }
            i = i + 1;
        }
        proof {
            assert(params.deep_view().subrange(0, n as int) =~= params.deep_view());
        }
        let header_list = header_vec(&headers, force_content_type || matches!(method, HttpMethod::Post | HttpMethod::Put));
        let body_text: Option<String> = match body {
            Some(b) => Some(write_json(b)),
            None => None,
        };
        Ok(CompiledRequest { method, url, headers: header_list, body: body_text })
    }

    /// Assembles a request without query parameters.
    pub fn build_request(
        &self,
        method: HttpMethod,
        endpoint: &str,
        body: Option<&JsonValue>,
        opts: &AuthOptions,
    ) -> (r: Result<CompiledRequest, ParseError>)
        ensures
            r is Err <==> master_key_missing(*self, *opts),
            r matches Err(e) ==> e.kind == ErrorKind::MasterKeyRequired,
            r matches Ok(req) ==> {
                &&& req.method == method
                &&& req.url@ == request_url_of(self.server_url@, endpoint@)
                &&& req.headers.deep_view() == header_model(
                    resolved_headers(*self, *opts),
                    carries_body(method),
                )
                &&& match body {
                    Some(b) => req.body matches Some(s) && s@ == json_text(*b),
                    None => req.body is None,
                }
            },
    {
        let params: Vec<(String, String)> = Vec::new();
        let r = self.build_request_with_params(method, endpoint, &params, body, opts, false);
        proof {
            assert(params.deep_view() =~= Seq::<(Seq<char>, Seq<char>)>::empty());
            if r is Ok {
                assert(r->Ok_0.url@ =~= request_url_of(self.server_url@, endpoint@));
            }
        }
        r
    }

    /// Assembles a query-style request: a GET with encoded parameters; the
    /// JSON content type is attached as on every compiled exchange.
    pub fn build_get_request(
        &self,
        endpoint: &str,
        params: &Vec<(String, String)>,
        opts: &AuthOptions,
    ) -> (r: Result<CompiledRequest, ParseError>)
        ensures
            r is Err <==> master_key_missing(*self, *opts),
            r matches Err(e) ==> e.kind == ErrorKind::MasterKeyRequired,
            r matches Ok(req) ==> {
                &&& req.method == HttpMethod::Get
                &&& req.url@ == request_url_of(self.server_url@, endpoint@) + query_suffix(
                    params.deep_view(),
                )
                &&& req.headers.deep_view() == header_model(resolved_headers(*self, *opts), true)
                &&& req.body is None
            },
    {
        self.build_request_with_params(HttpMethod::Get, endpoint, params, None, opts, true)
    }
}

} // verus!
