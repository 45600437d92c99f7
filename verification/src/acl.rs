//! Access control lists: per-key read and write grants for the public (`*`),
//! for users by identifier, and for roles under their `role:` prefix.

use vstd::prelude::*;

use crate::json::JsonValue;
use crate::text::str_lex_cmp;

verus! {

/// The read and write grants recorded for one key.
#[derive(Debug, Clone, Copy, PartialEq, Eq, Structural)]
pub struct AccessLevel {
    pub read: Option<bool>,
    pub write: Option<bool>,
}

/// One ACL entry: a key — `*`, a user identifier, or `role:<name>` — and its
/// grants.
#[derive(Debug, Clone)]
pub struct AclEntry {
    pub key: String,
    pub level: AccessLevel,
}

/// An access control list: one entry per key, in the order the keys were
/// first granted.
#[derive(Debug, Clone)]
pub struct ParseACL {
    pub permissions: Vec<AclEntry>,
}

/// The grants recorded under `key`, first match.
pub open spec fn acl_lookup(perms: Seq<AclEntry>, key: Seq<char>) -> Option<AccessLevel>
    decreases perms.len(),
{
    if perms.len() == 0 {
        None
    } else if perms[0].key@ == key {
        Some(perms[0].level)
    } else {
        acl_lookup(perms.skip(1), key)
    }
}

/// Every key appears at most once.
pub open spec fn acl_wf(perms: Seq<AclEntry>) -> bool {
    forall|i: int, j: int| 0 <= i < j < perms.len() ==> perms[i].key@ != perms[j].key@
}

/// The level `old_level` with one side replaced.
pub open spec fn level_written(old_level: AccessLevel, is_write: bool, allowed: bool) -> AccessLevel {
    if is_write {
        AccessLevel { read: old_level.read, write: Some(allowed) }
    } else {
        AccessLevel { read: Some(allowed), write: old_level.write }
    }
}

/// One grant was recorded: the named key now carries the new level — built
/// from its previous level, or from an empty one when the key is new — and
/// every other key's grants are untouched.
pub open spec fn acl_written(
    old_perms: Seq<AclEntry>,
    new_perms: Seq<AclEntry>,
    key: Seq<char>,
    is_write: bool,
    allowed: bool,
) -> bool {
    let base = match acl_lookup(old_perms, key) {
        Some(level) => level,
        None => AccessLevel { read: None, write: None },
    };
    &&& acl_wf(new_perms)
    &&& acl_lookup(new_perms, key) == Some(level_written(base, is_write, allowed))
    &&& (forall|k: Seq<char>| k != key ==> acl_lookup(new_perms, k) == acl_lookup(old_perms, k))
}

impl ParseACL {
    /// An empty list: no one holds any permission.
    pub fn new() -> (r: ParseACL)
        ensures
            r.permissions@.len() == 0,
            acl_wf(r.permissions@),
    {
        ParseACL { permissions: Vec::new() }
    }

    /// Records one grant under `key`: updates the entry in place, or appends
    /// a fresh one when the key is new.
    fn set_access(&mut self, key: &str, is_write: bool, allowed: bool)
        requires
            acl_wf(old(self).permissions@),
        ensures
            acl_written(old(self).permissions@, final(self).permissions@, key@, is_write, allowed),
    {
        let ghost s = self.permissions@;
        let n = self.permissions.len();
        proof {
            assert(s.skip(0int) =~= s);
        }
        let mut i: usize = 0;
        #[verifier::loop_isolation(false)]
        loop
            invariant
                i <= n,
                self.permissions@ == s,
                forall|j: int| 0 <= j < i ==> s[j].key@ != key@,
                acl_lookup(s, key@) == acl_lookup(s.skip(i as int), key@),
            decreases n - i,
        {
            proof {
                if i < n {
                    assert(s.skip(i as int)[0] == s[i as int]);
                    assert(s.skip(i as int).skip(1) =~= s.skip(i + 1int));
                } else {
                    assert(s.skip(i as int) =~= Seq::<AclEntry>::empty());
                }
            }
            if i == n {
                let level = if is_write {
                    AccessLevel { read: None, write: Some(allowed) }
                } else {
                    AccessLevel { read: Some(allowed), write: None }
                };
                self.permissions.push(AclEntry { key: key.to_owned(), level });
                proof {
                    let t = self.permissions@;
                    assert(t[n as int].key@ == key@);
                    assert forall|k: Seq<char>| k != key@ implies acl_lookup(t, k) == acl_lookup(
                        s,
                        k,
                    ) by {
                        lemma_acl_lookup_append_one(s, t, k);
                    }
                    assert(acl_lookup(t, key@) == Some(t[n as int].level)) by {
                        lemma_acl_lookup_at(t, key@, n as int);
                    }
                }
                return ;
            }
            let here = str_lex_cmp(self.permissions[i].key.as_str(), key) == 0;
            if here {
                let old_level = self.permissions[i].level;
                let level = if is_write {
                    AccessLevel { read: old_level.read, write: Some(allowed) }
                } else {
                    AccessLevel { read: Some(allowed), write: old_level.write }
                };
                let entry = AclEntry { key: key.to_owned(), level };
                let _removed = self.permissions.remove(i);
                self.permissions.insert(i, entry);
                proof {
                    let t = self.permissions@;
                    assert(t =~= s.update(i as int, entry));
                    assert(acl_lookup(s, key@) == Some(s[i as int].level)) by {
                        lemma_acl_lookup_at(s, key@, i as int);
                    }
                    assert(acl_wf(t)) by {
                        assert(forall|a: int|
                            0 <= a < t.len() && a != i ==> t[a].key@ == s[a].key@);
                        assert(t[i as int].key@ == s[i as int].key@);
                    }
                    assert(acl_lookup(t, key@) == Some(level)) by {
                        lemma_acl_lookup_at(t, key@, i as int);
                    }
                    assert forall|k: Seq<char>| k != key@ implies acl_lookup(t, k) == acl_lookup(
                        s,
                        k,
                    ) by {
                        lemma_acl_lookup_update_other(s, t, i as int, k);
                    }
                }
                return ;
            }
            i = i + 1;
        }
    }

    /// Grants or revokes public read access.
    pub fn set_public_read_access(&mut self, allowed: bool)
        requires
            acl_wf(old(self).permissions@),
        ensures
            acl_written(old(self).permissions@, final(self).permissions@, "*"@, false, allowed),
    {
        self.set_access("*", false, allowed);
    }

    /// Grants or revokes public write access.
    pub fn set_public_write_access(&mut self, allowed: bool)
        requires
            acl_wf(old(self).permissions@),
        ensures
            acl_written(old(self).permissions@, final(self).permissions@, "*"@, true, allowed),
    {
        self.set_access("*", true, allowed);
    }

    /// Grants or revokes read access for one user.
    pub fn set_user_read_access(&mut self, user_id: &str, allowed: bool)
        requires
            acl_wf(old(self).permissions@),
        ensures
            acl_written(old(self).permissions@, final(self).permissions@, user_id@, false, allowed),
    {
        self.set_access(user_id, false, allowed);
    }

    /// Grants or revokes write access for one user.
    pub fn set_user_write_access(&mut self, user_id: &str, allowed: bool)
        requires
            acl_wf(old(self).permissions@),
        ensures
            acl_written(old(self).permissions@, final(self).permissions@, user_id@, true, allowed),
    {
        self.set_access(user_id, true, allowed);
    }

    /// Grants or revokes read access for a role, under its `role:` prefix.
    pub fn set_role_read_access(&mut self, role_name: &str, allowed: bool)
        requires
            acl_wf(old(self).permissions@),
        ensures
            acl_written(
                old(self).permissions@,
                final(self).permissions@,
                "role:"@ + role_name@,
                false,
                allowed,
            ),
    {
        let key = role_key(role_name);
        self.set_access(key.as_str(), false, allowed);
    }

    /// Grants or revokes write access for a role, under its `role:` prefix.
    pub fn set_role_write_access(&mut self, role_name: &str, allowed: bool)
        requires
            acl_wf(old(self).permissions@),
        ensures
            acl_written(
                old(self).permissions@,
                final(self).permissions@,
                "role:"@ + role_name@,
                true,
                allowed,
            ),
    {
        let key = role_key(role_name);
        self.set_access(key.as_str(), true, allowed);
    }

    /// The recorded grants under `key`, if any.
    pub fn access_of(&self, key: &str) -> (r: Option<AccessLevel>)
        ensures
            r == acl_lookup(self.permissions@, key@),
    {
        let n = self.permissions.len();
        let mut i: usize = 0;
        proof {
            assert(self.permissions@.skip(0int) =~= self.permissions@);
        }
        while i < n
            invariant
                i <= n,
                n == self.permissions@.len(),
                acl_lookup(self.permissions@, key@) == acl_lookup(
                    self.permissions@.skip(i as int),
                    key@,
                ),
            decreases n - i,
        {
            proof {
                assert(self.permissions@.skip(i as int)[0] == self.permissions@[i as int]);
                assert(self.permissions@.skip(i as int).skip(1) =~= self.permissions@.skip(
                    i + 1int,
                ));
            }
            if str_lex_cmp(self.permissions[i].key.as_str(), key) == 0 {
                return Some(self.permissions[i].level);
            }
            i = i + 1;
        }
        proof {
            assert(self.permissions@.skip(n as int) =~= Seq::<AclEntry>::empty());
        }
        None
    }

    /// Whether the public may read: the recorded grant, absent meaning no.
    pub fn get_public_read_access(&self) -> (r: bool)
        ensures
            r == read_granted(self.permissions@, "*"@),
    {
        match self.access_of("*") {
            Some(level) => match level.read {
                Some(b) => b,
                None => false,
            },
            None => false,
        }
    }

    /// Whether the public may write.
    pub fn get_public_write_access(&self) -> (r: bool)
        ensures
            r == write_granted(self.permissions@, "*"@),
    {
        match self.access_of("*") {
            Some(level) => match level.write {
                Some(b) => b,
                None => false,
            },
            None => false,
        }
    }

    /// Whether the given user may read.
    pub fn get_user_read_access(&self, user_id: &str) -> (r: bool)
        ensures
            r == read_granted(self.permissions@, user_id@),
    {
        match self.access_of(user_id) {
            Some(level) => match level.read {
                Some(b) => b,
                None => false,
            },
            None => false,
        }
    }

    /// Whether the given user may write.
    pub fn get_user_write_access(&self, user_id: &str) -> (r: bool)
        ensures
            r == write_granted(self.permissions@, user_id@),
    {
        match self.access_of(user_id) {
            Some(level) => match level.write {
                Some(b) => b,
                None => false,
            },
            None => false,
        }
    }

    /// Whether members of the given role may read.
    pub fn get_role_read_access(&self, role_name: &str) -> (r: bool)
        ensures
            r == read_granted(self.permissions@, "role:"@ + role_name@),
    {
        let key = role_key(role_name);
        match self.access_of(key.as_str()) {
            Some(level) => match level.read {
                Some(b) => b,
                None => false,
            },
            None => false,
        }
    }

    /// Whether members of the given role may write.
    pub fn get_role_write_access(&self, role_name: &str) -> (r: bool)
        ensures
            r == write_granted(self.permissions@, "role:"@ + role_name@),
    {
        let key = role_key(role_name);
        match self.access_of(key.as_str()) {
            Some(level) => match level.write {
                Some(b) => b,
                None => false,
            },
            None => false,
        }
    }

    /// The wire object of this list: one member per entry that records at
    /// least one grant, in order, each an object carrying exactly its `read`
    /// and `write` grants.
    pub fn to_json_value(&self) -> (r: JsonValue)
        ensures
            (r matches JsonValue::Obj(es) && acl_entries_ok(
                es@,
                acl_eligible(self.permissions@),
            )),
    {
        let mut es: Vec<(String, JsonValue)> = Vec::new();
        let n = self.permissions.len();
        let mut i: usize = 0;
        proof {
            assert(self.permissions@.take(0int) =~= Seq::<AclEntry>::empty());
            reveal(Seq::filter);
            assert(acl_eligible(self.permissions@.take(0int)) =~= Seq::<AclEntry>::empty());
        }
        while i < n
            invariant
                i <= n,
                n == self.permissions@.len(),
                acl_entries_ok(es@, acl_eligible(self.permissions@.take(i as int))),
            decreases n - i,
        {
            let entry = &self.permissions[i];
            let ghost taken = self.permissions@.take(i as int);
            let ghost taken1 = self.permissions@.take(i + 1int);
            proof {
                reveal(Seq::filter);
                assert(taken1.drop_last() =~= taken);
                assert(taken1.last() == self.permissions@[i as int]);
                assert(taken1.filter(|e: AclEntry| has_grant(e)) == if has_grant(taken1.last()) {
                    taken1.drop_last().filter(|e: AclEntry| has_grant(e)).push(taken1.last())
                } else {
                    taken1.drop_last().filter(|e: AclEntry| has_grant(e))
                });
                assert(acl_eligible(taken1) == if has_grant(self.permissions@[i as int]) {
                    acl_eligible(taken).push(self.permissions@[i as int])
                } else {
                    acl_eligible(taken)
                });
            }
            let has_read = matches!(entry.level.read, Some(_));
            let has_write = matches!(entry.level.write, Some(_));
            if has_read || has_write {
                let mut fields: Vec<(String, JsonValue)> = Vec::new();
                match entry.level.read {
                    Some(b) => fields.push(("read".to_owned(), JsonValue::Bool(b))),
                    None => {},
                }
                match entry.level.write {
                    Some(b) => fields.push(("write".to_owned(), JsonValue::Bool(b))),
                    None => {},
                }
                es.push((entry.key.clone(), JsonValue::Obj(fields)));
            }
            i = i + 1;
        }
        proof {
            assert(self.permissions@.take(n as int) =~= self.permissions@);
        }
        JsonValue::Obj(es)
    }

    /// The serialized wire text of this list.
    pub fn to_json_string(&self) -> (r: String)
        ensures
            (exists|v: JsonValue|
                #[trigger] crate::json::json_text(v) == r@ && (v matches JsonValue::Obj(es)
                    && acl_entries_ok(
                    es@,
                    self.permissions@.filter(|e: AclEntry| has_grant(e)),
                ))),
    {
        let v = self.to_json_value();
        let r = crate::json::write_json(&v);
        proof {
            assert(crate::json::json_text(v) == r@);
        }
        r
    }
}

impl Default for ParseACL {
    /// The empty list.
    fn default() -> (r: ParseACL)
        ensures
            r.permissions@.len() == 0,
            acl_wf(r.permissions@),
    {
        ParseACL::new()
    }
}

/// Whether a key's recorded read grant is an explicit yes.
pub open spec fn read_granted(perms: Seq<AclEntry>, key: Seq<char>) -> bool {
    match acl_lookup(perms, key) {
        Some(level) => level.read == Some(true),
        None => false,
    }
}

/// Whether a key's recorded write grant is an explicit yes.
pub open spec fn write_granted(perms: Seq<AclEntry>, key: Seq<char>) -> bool {
    match acl_lookup(perms, key) {
        Some(level) => level.write == Some(true),
        None => false,
    }
}

/// Whether an entry records at least one grant.
pub open spec fn has_grant(e: AclEntry) -> bool {
    e.level.read is Some || e.level.write is Some
}

/// The entries that record at least one grant, in order.
pub open spec fn acl_eligible(perms: Seq<AclEntry>) -> Seq<AclEntry> {
    perms.filter(|e: AclEntry| has_grant(e))
}

/// The wire object of one entry's grants: its `read` member first when
/// recorded, then its `write` member when recorded, and nothing else.
pub open spec fn level_json_ok(j: JsonValue, level: AccessLevel) -> bool {
    let read_n: int = if level.read is Some {
        1int
    } else {
        0int
    };
    let write_n: int = if level.write is Some {
        1int
    } else {
        0int
    };
    &&& j matches JsonValue::Obj(fs)
    &&& fs@.len() == read_n + write_n
    &&& (level.read matches Some(b) ==> fs@[0].0@ == "read"@ && fs@[0].1 == JsonValue::Bool(b))
    &&& (level.write matches Some(b) ==> fs@[read_n].0@ == "write"@ && fs@[read_n].1
        == JsonValue::Bool(b))
}

/// The wire members stand for exactly the entries that record a grant, in
/// order, each under its key.
pub open spec fn acl_entries_ok(es: Seq<(String, JsonValue)>, eligible: Seq<AclEntry>) -> bool {
    &&& es.len() == eligible.len()
    &&& (forall|i: int|
        0 <= i < es.len() ==> (#[trigger] es[i]).0@ == eligible[i].key@ && level_json_ok(
            es[i].1,
            eligible[i].level,
        ))
}

/// The looked-up grants of `key` at a position where it is the first match.
proof fn lemma_acl_lookup_at(perms: Seq<AclEntry>, key: Seq<char>, i: int)
    requires
        0 <= i < perms.len(),
        perms[i].key@ == key,
        forall|j: int| 0 <= j < i ==> perms[j].key@ != key,
    ensures
        acl_lookup(perms, key) == Some(perms[i].level),
    decreases i,
{
    if i > 0 {
        assert(perms.skip(1)[i - 1] == perms[i]);
        assert(forall|j: int| 0 <= j < i - 1 ==> perms.skip(1)[j] == perms[j + 1]);
        lemma_acl_lookup_at(perms.skip(1), key, i - 1);
    }
}

/// Appending one entry leaves every other key's lookup unchanged.
proof fn lemma_acl_lookup_append_one(s: Seq<AclEntry>, t: Seq<AclEntry>, k: Seq<char>)
    requires
        t.len() == s.len() + 1,
        forall|j: int| 0 <= j < s.len() ==> t[j] == s[j],
        k != t[s.len() as int].key@,
    ensures
        acl_lookup(t, k) == acl_lookup(s, k),
    decreases s.len(),
{
    if s.len() == 0 {
        assert(t.skip(1) =~= Seq::<AclEntry>::empty());
        assert(acl_lookup(t.skip(1), k) is None);
    } else {
        assert(t[0] == s[0]);
        if k != t[0].key@ {
            assert(t.skip(1).len() == s.skip(1).len() + 1);
            assert(forall|j: int| 0 <= j < s.skip(1).len() ==> t.skip(1)[j] == s.skip(1)[j]) by {
                assert(forall|j: int| 0 <= j < s.len() - 1 ==> t.skip(1)[j] == t[j + 1]);
                assert(forall|j: int| 0 <= j < s.len() - 1 ==> s.skip(1)[j] == s[j + 1]);
            }
            assert(t.skip(1)[s.len() - 1] == t[s.len() as int]);
            lemma_acl_lookup_append_one(s.skip(1), t.skip(1), k);
        }
    }
}

/// Replacing the entry at `i` with one carrying the same key leaves every
/// other key's lookup unchanged.
proof fn lemma_acl_lookup_update_other(s: Seq<AclEntry>, t: Seq<AclEntry>, i: int, k: Seq<char>)
    requires
        0 <= i < s.len(),
        t.len() == s.len(),
        forall|j: int| 0 <= j < s.len() && j != i ==> t[j] == s[j],
        t[i].key@ == s[i].key@,
        k != s[i].key@,
    ensures
        acl_lookup(t, k) == acl_lookup(s, k),
    decreases i,
{
    if i == 0 {
        assert(t.skip(1) =~= s.skip(1)) by {
            assert(forall|j: int| 0 <= j < s.len() - 1 ==> t.skip(1)[j] == t[j + 1]);
            assert(forall|j: int| 0 <= j < s.len() - 1 ==> s.skip(1)[j] == s[j + 1]);
        }
    } else {
        assert(t[0] == s[0]);
        assert(forall|j: int| 0 <= j < s.len() - 1 ==> t.skip(1)[j] == t[j + 1]);
        assert(forall|j: int| 0 <= j < s.len() - 1 ==> s.skip(1)[j] == s[j + 1]);
        assert(t.skip(1)[i - 1].key@ == s.skip(1)[i - 1].key@);
        lemma_acl_lookup_update_other(s.skip(1), t.skip(1), i - 1, k);
    }
}


/// The boolean member of an entry list under `key`, when it is a boolean.
pub open spec fn bool_member(fs: Seq<(String, JsonValue)>, key: Seq<char>) -> Option<bool> {
    match crate::json::obj_lookup(fs, key) {
        Some(m) => match m {
            JsonValue::Bool(b) => Some(b),
            _ => None,
        },
        _ => None,
    }
}

/// The grants read from one wire member: an object whose `read` and `write`
/// booleans become the recorded grants.
pub open spec fn level_read_from_json(level: AccessLevel, j: JsonValue) -> bool {
    &&& j matches JsonValue::Obj(fs)
    &&& level.read == bool_member(fs@, "read"@)
    &&& level.write == bool_member(fs@, "write"@)
}

/// The entries stand for exactly the wire members, in order, each entry's
/// grants read from its member object.
pub open spec fn acl_read_from_json(perms: Seq<AclEntry>, es: Seq<(String, JsonValue)>) -> bool {
    &&& perms.len() == es.len()
    &&& (forall|i: int|
        0 <= i < es.len() ==> (#[trigger] perms[i]).key@ == es[i].0@ && level_read_from_json(
            perms[i].level,
            es[i].1,
        ))
}

impl ParseACL {
    /// Reads a list from its wire object: one entry per member, its grants
    /// from the member's `read` and `write` booleans.  The value is a list
    /// exactly when it is an object whose members are all objects.
    pub fn from_json_value(v: &JsonValue) -> (r: Option<ParseACL>)
        ensures
            r is Some <==> (v matches JsonValue::Obj(es) && (forall|i: int|
                0 <= i < es@.len() ==> (#[trigger] es@[i].1) is Obj)),
            r matches Some(acl) ==> (v matches JsonValue::Obj(es) && acl_read_from_json(
                acl.permissions@,
                es@,
            )),
    {
        let es = match v {
            JsonValue::Obj(es) => es,
            _ => {
                return None;
            },
        };
        let mut perms: Vec<AclEntry> = Vec::new();
        let n = es.len();
        let mut i: usize = 0;
        #[verifier::loop_isolation(false)]
        while i < n
            invariant
                i <= n,
                n == es@.len(),
                perms@.len() == i,
                forall|j: int|
                    0 <= j < i ==> (#[trigger] perms@[j]).key@ == es@[j].0@ && level_read_from_json(
                        perms@[j].level,
                        es@[j].1,
                    ),
            decreases n - i,
        {
            if !matches!(&es[i].1, JsonValue::Obj(_)) {
                proof {
                    assert(!((es@[i as int].1) is Obj));
                }
                return None;
            }
            let read: Option<bool> = match crate::error::get_member(&es[i].1, "read") {
                Some(m) => match m {
                    JsonValue::Bool(b) => Some(*b),
                    _ => None,
                },
                None => None,
            };
            let write: Option<bool> = match crate::error::get_member(&es[i].1, "write") {
                Some(m) => match m {
                    JsonValue::Bool(b) => Some(*b),
                    _ => None,
                },
                None => None,
            };
            perms.push(AclEntry { key: es[i].0.clone(), level: AccessLevel { read, write } });
            i = i + 1;
        }
        proof {
            assert forall|t: int| 0 <= t < es@.len() implies (#[trigger] es@[t].1) is Obj by {
                assert(level_read_from_json(perms@[t].level, es@[t].1));
            }
        }
        Some(ParseACL { permissions: perms })
    }
}

/// The role-prefixed ACL key of a role name.
pub fn role_key(role_name: &str) -> (r: String)
    ensures
        r@ == "role:"@ + role_name@,
{
    let mut key = "role:".to_owned();
    key.append(role_name);
    key
}

} // verus!
