//! The named endpoints of the protocol and their path construction.

use vstd::prelude::*;

verus! {

/// One API endpoint, by resource.
#[derive(Debug, Clone)]
pub enum Endpoint {
    /// A collection, by name.
    Classes(String),
    /// A collection and, optionally, one record in it.
    Objects(String, Option<String>),
    Users,
    UsersLogin,
    UsersLogout,
    UsersMe,
    RequestPasswordReset,
    Roles,
    /// A role, by record identifier.
    RolesSpecific(String),
    Schemas,
    /// One collection's schema, by collection name.
    SchemasSpecific(String),
    /// A stored file, by name.
    Files(String),
    /// A cloud function, by name.
    Functions(String),
    Config,
    /// An aggregation against a collection, by name.
    Aggregate(String),
}

/// The path of an endpoint under a base path, before double slashes are
/// collapsed.
pub open spec fn route_text(e: Endpoint, base: Seq<char>) -> Seq<char> {
    match e {
        Endpoint::Classes(c) => base + "/classes/"@ + c@,
        Endpoint::Objects(c, o) => match o {
            Some(id) => base + "/classes/"@ + c@ + seq!['/'] + id@,
            None => base + "/classes/"@ + c@,
        },
        Endpoint::Users => base + "/users"@,
        Endpoint::UsersLogin => base + "/login"@,
        Endpoint::UsersLogout => base + "/logout"@,
        Endpoint::UsersMe => base + "/users/me"@,
        Endpoint::RequestPasswordReset => base + "/requestPasswordReset"@,
        Endpoint::Roles => base + "/roles"@,
        Endpoint::RolesSpecific(id) => base + "/roles/"@ + id@,
        Endpoint::Schemas => base + "/schemas"@,
        Endpoint::SchemasSpecific(c) => base + "/schemas/"@ + c@,
        Endpoint::Files(f) => base + "/files/"@ + f@,
        Endpoint::Functions(f) => base + "/functions/"@ + f@,
        Endpoint::Config => base + "/config"@,
        Endpoint::Aggregate(c) => base + "/aggregate/"@ + c@,
    }
}

/// The text with each leftmost pair of slashes collapsed to one, scanning
/// left to right without overlap.
pub open spec fn collapsed_slashes(s: Seq<char>) -> Seq<char>
    decreases s.len(),
{
    if s.len() >= 2 && s[0] == '/' && s[1] == '/' {
        seq!['/'] + collapsed_slashes(s.skip(2))
    } else if s.len() > 0 {
        seq![s[0]] + collapsed_slashes(s.skip(1))
    } else {
        Seq::empty()
    }
}

/// Collapses each leftmost pair of slashes, left to right without overlap.
fn collapse_double_slashes(s: &str) -> (r: String)
    ensures
        r@ == collapsed_slashes(s@),
{
    let n = s.unicode_len();
    let mut out = String::new();
    let mut i: usize = 0;
    proof {
        assert(s@.skip(0int) =~= s@);
    }
    #[verifier::loop_isolation(false)]
    loop
        invariant
            i <= n,
            n == s@.len(),
            out@ + collapsed_slashes(s@.skip(i as int)) == collapsed_slashes(s@),
        decreases n - i,
    {
        if i == n {
            proof {
                assert(s@.skip(i as int) =~= Seq::<char>::empty());
                assert(out@ =~= collapsed_slashes(s@));
            }
            return out;
        }
        let c = s.get_char(i);
        proof {
            assert(s@.skip(i as int)[0] == s@[i as int]);
            assert(s@.skip(i as int).skip(1) =~= s@.skip(i + 1int));
            if i + 1 < n {
                assert(s@.skip(i as int)[1] == s@[i + 1int]);
                assert(s@.skip(i as int).skip(2) =~= s@.skip(i + 2int));
            }
        }
        if c == '/' && i + 1 < n && s.get_char(i + 1) == '/' {
            crate::json::push_char(&mut out, '/');
            proof {
                assert(out@ + collapsed_slashes(s@.skip(i + 2int)) =~= collapsed_slashes(s@));
            }
            i = i + 2;
        } else {
            crate::json::push_char(&mut out, c);
            proof {
                assert(out@ + collapsed_slashes(s@.skip(i + 1int)) =~= collapsed_slashes(s@));
            }
            i = i + 1;
        }
    }
}

impl Endpoint {
    /// The full path of this endpoint under `base_path`, with double slashes
    /// collapsed so a base of `/` never yields a double-slash path.
    pub fn build_url(&self, base_path: &str) -> (r: String)
        ensures
            r@ == collapsed_slashes(route_text(*self, base_path@)),
    {
        let mut path = base_path.to_owned();
        match self {
            Endpoint::Classes(c) => {
                path.append("/classes/");
                path.append(c.as_str());
            },
            Endpoint::Objects(c, o) => {
                path.append("/classes/");
                path.append(c.as_str());
                match o {
                    Some(id) => {
                        crate::json::push_char(&mut path, '/');
                        path.append(id.as_str());
                        proof {
                            assert(path@ =~= route_text(*self, base_path@));
                        }
                    },
                    None => {},
                }
            },
            Endpoint::Users => {
                path.append("/users");
            },
            Endpoint::UsersLogin => {
                path.append("/login");
            },
            Endpoint::UsersLogout => {
                path.append("/logout");
            },
            Endpoint::UsersMe => {
                path.append("/users/me");
            },
            Endpoint::RequestPasswordReset => {
                path.append("/requestPasswordReset");
            },
            Endpoint::Roles => {
                path.append("/roles");
            },
            Endpoint::RolesSpecific(id) => {
                path.append("/roles/");
                path.append(id.as_str());
            },
            Endpoint::Schemas => {
                path.append("/schemas");
            },
            Endpoint::SchemasSpecific(c) => {
                path.append("/schemas/");
                path.append(c.as_str());
            },
            Endpoint::Files(f) => {
                path.append("/files/");
                path.append(f.as_str());
            },
            Endpoint::Functions(f) => {
                path.append("/functions/");
                path.append(f.as_str());
            },
            Endpoint::Config => {
                path.append("/config");
            },
            Endpoint::Aggregate(c) => {
                path.append("/aggregate/");
                path.append(c.as_str());
            },
        }
        collapse_double_slashes(path.as_str())
    }
}

} // verus!
