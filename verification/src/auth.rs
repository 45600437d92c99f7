//! Credential resolution: which credential a single request carries, decided
//! by a fixed precedence, and the header set it compiles to.
//!
//! The precedence, first match wins: an explicit per-call session-token
//! override; then a per-call request for the master key, which fails before
//! any network work when no master key is configured; then the client's
//! stored session token; then the JavaScript key; then the REST key; and
//! otherwise the application identifier alone.  The application identifier
//! header is attached in every case.

use vstd::prelude::*;

use crate::client::Parse;
use crate::error::{ErrorKind, ParseError};

verus! {

/// The type of authentication a caller can ask a request to use.
#[derive(Clone, Copy, Debug, PartialEq, Eq, Structural)]
pub enum AuthType {
    /// Use the current session token, obtained after a login.
    SessionToken,
    /// Use the master key, which bypasses object and collection permissions.
    MasterKey,
    /// Use the REST API key configured on the client.
    RestApiKey,
    /// No specific credential chosen: the configured keys apply in their
    /// fixed precedence.
    NoAuth,
}

/// Per-request choices that drive credential resolution.
#[derive(Debug, Clone)]
pub struct AuthOptions {
    /// Ask for the master key; fails before any network call when no master
    /// key is configured.
    pub use_master_key: bool,
    /// A session token that outranks every configured credential for this
    /// one call.
    pub session_token_override: Option<String>,
}

impl AuthOptions {
    /// Options that request no elevation and carry no override.
    pub fn plain() -> (r: AuthOptions)
        ensures
            !r.use_master_key,
            r.session_token_override is None,
    {
        AuthOptions { use_master_key: false, session_token_override: None }
    }

    /// Options that request the master key.
    pub fn master(use_master_key: bool) -> (r: AuthOptions)
        ensures
            r.use_master_key == use_master_key,
            r.session_token_override is None,
    {
        AuthOptions { use_master_key, session_token_override: None }
    }
}

/// The one credential attached beside the application identifier.
#[derive(Debug, Clone)]
pub enum Credential {
    Session(String),
    Master(String),
    JavaScript(String),
    Rest(String),
}

/// The credential a request resolves to, first match wins; `None` means an
/// anonymous call, or — when [`master_key_missing`] holds — a failure.
pub open spec fn resolved_credential(ctx: Parse, opts: AuthOptions) -> Option<Credential> {
    match opts.session_token_override {
        Some(t) => Some(Credential::Session(t)),
        None => if opts.use_master_key {
            match ctx.master_key {
                Some(mk) => Some(Credential::Master(mk)),
                None => None,
            }
        } else {
            match ctx.session_token {
                Some(st) => Some(Credential::Session(st)),
                None => match ctx.javascript_key {
                    Some(jk) => Some(Credential::JavaScript(jk)),
                    None => match ctx.rest_api_key {
                        Some(rk) => Some(Credential::Rest(rk)),
                        None => None,
                    },
                },
            }
        },
    }
}

/// Whether resolution must fail before any network call: the master key was
/// asked for, nothing overrides it, and none is configured.
pub open spec fn master_key_missing(ctx: Parse, opts: AuthOptions) -> bool {
    opts.session_token_override is None && opts.use_master_key && ctx.master_key is None
}

/// The headers a request carries: the application identifier and at most one
/// resolved credential.
#[derive(Debug, Clone)]
pub struct HeaderSet {
    pub app_id: String,
    pub credential: Option<Credential>,
}

/// The header name and value of one credential.
pub open spec fn credential_header(c: Credential) -> (Seq<char>, Seq<char>) {
    match c {
        Credential::Session(t) => ("X-Parse-Session-Token"@, t@),
        Credential::Master(k) => ("X-Parse-Master-Key"@, k@),
        Credential::JavaScript(k) => ("X-Parse-Javascript-Key"@, k@),
        Credential::Rest(k) => ("X-Parse-REST-API-Key"@, k@),
    }
}

/// The full header list of a request: the application identifier first, then
/// the resolved credential if any, then the JSON content type when the
/// request carries a body.
pub open spec fn header_model(h: HeaderSet, json_body: bool) -> Seq<(Seq<char>, Seq<char>)> {
    let base = seq![("X-Parse-Application-Id"@, h.app_id@)];
    let with_cred = match h.credential {
        Some(c) => base.push(credential_header(c)),
        None => base,
    };
    if json_body {
        with_cred.push(("Content-Type"@, "application/json"@))
    } else {
        with_cred
    }
}

/// Resolves the credential for one request.  Fails, with `MasterKeyRequired`
/// and before anything is sent, exactly when the master key was requested but
/// none is configured; otherwise the header set carries the application
/// identifier and the credential of highest precedence.
pub fn resolve(ctx: &Parse, opts: &AuthOptions) -> (r: Result<HeaderSet, ParseError>)
    ensures
        r is Err <==> master_key_missing(*ctx, *opts),
        r matches Err(e) ==> e.kind == ErrorKind::MasterKeyRequired,
        r matches Ok(h) ==> h.app_id@ == ctx.app_id@ && h.credential == resolved_credential(
            *ctx,
            *opts,
        ),
{
    if let Some(t) = &opts.session_token_override {
        return Ok(
            HeaderSet { app_id: ctx.app_id.clone(), credential: Some(Credential::Session(t.clone())) },
        );
    }
    if opts.use_master_key {
        return match &ctx.master_key {
            Some(mk) => Ok(
                HeaderSet {
                    app_id: ctx.app_id.clone(),
                    credential: Some(Credential::Master(mk.clone())),
                },
            ),
            None => Err(
                ParseError::of_kind(
                    ErrorKind::MasterKeyRequired,
                    "Master key is required for this operation but not configured.".to_owned(),
                ),
            ),
        };
    }
    if let Some(st) = &ctx.session_token {
        return Ok(
            HeaderSet {
                app_id: ctx.app_id.clone(),
                credential: Some(Credential::Session(st.clone())),
            },
        );
    }
    if let Some(jk) = &ctx.javascript_key {
        return Ok(
            HeaderSet {
                app_id: ctx.app_id.clone(),
                credential: Some(Credential::JavaScript(jk.clone())),
            },
        );
    }
    if let Some(rk) = &ctx.rest_api_key {
        return Ok(
            HeaderSet { app_id: ctx.app_id.clone(), credential: Some(Credential::Rest(rk.clone())) },
        );
    }
    Ok(HeaderSet { app_id: ctx.app_id.clone(), credential: None })
}

/// An explicit session-token override always wins header selection: whatever
/// else is configured — a master key included — the resolved credential is a
/// session credential carrying the override.
pub proof fn lemma_override_wins(ctx: Parse, opts: AuthOptions, t: String)
    requires
        opts.session_token_override == Some(t),
    ensures
        resolved_credential(ctx, opts) == Some(Credential::Session(t)),
        !master_key_missing(ctx, opts),
{
}

/// Compiles a header set to the ordered header list a request sends.
pub fn header_vec(h: &HeaderSet, json_body: bool) -> (r: Vec<(String, String)>)
    ensures
        r.deep_view() == header_model(*h, json_body),
{
    let mut out: Vec<(String, String)> = Vec::new();
    out.push(("X-Parse-Application-Id".to_owned(), h.app_id.clone()));
    match &h.credential {
        Some(c) => {
            let pair: (String, String) = match c {
                Credential::Session(t) => ("X-Parse-Session-Token".to_owned(), t.clone()),
                Credential::Master(k) => ("X-Parse-Master-Key".to_owned(), k.clone()),
                Credential::JavaScript(k) => ("X-Parse-Javascript-Key".to_owned(), k.clone()),
                Credential::Rest(k) => ("X-Parse-REST-API-Key".to_owned(), k.clone()),
            };
            out.push(pair);
        },
        None => {},
    }
    if json_body {
        out.push(("Content-Type".to_owned(), "application/json".to_owned()));
    }
    proof {
        assert(out.deep_view() =~= header_model(*h, json_body)) by {
            assert(forall|j: int|
                0 <= j < out@.len() ==> out.deep_view()[j] == (out@[j].0@, out@[j].1@));
        }
    }
    out
}

} // verus!
