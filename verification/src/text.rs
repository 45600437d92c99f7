//! Verified text utilities: lexicographic ordering of strings, sorted
//! key sets with set-union insertion, comma joining, and small path helpers
//! used when request URLs are assembled.

use vstd::prelude::*;

verus! {

/// Strict lexicographic order on character sequences, decided from index `i`
/// on, by code point, with a proper prefix ordered before its extensions.
pub open spec fn lex_lt_from(a: Seq<char>, b: Seq<char>, i: int) -> bool
    decreases a.len() - i,
{
    if i < 0 || i >= a.len() || i >= b.len() {
        a.len() < b.len()
    } else if a[i] != b[i] {
        (a[i] as u32) < (b[i] as u32)
    } else {
        lex_lt_from(a, b, i + 1)
    }
}

/// Strict lexicographic order on character sequences.
pub open spec fn lex_lt(a: Seq<char>, b: Seq<char>) -> bool {
    lex_lt_from(a, b, 0)
}

proof fn lemma_lex_irrefl_from(a: Seq<char>, i: int)
    ensures
        !lex_lt_from(a, a, i),
    decreases a.len() - i,
{
    if 0 <= i < a.len() {
        lemma_lex_irrefl_from(a, i + 1);
    }
}

/// The order is irreflexive.
pub proof fn lemma_lex_irrefl(a: Seq<char>)
    ensures
        !lex_lt(a, a),
{
    lemma_lex_irrefl_from(a, 0);
}

proof fn lemma_lex_connected_from(a: Seq<char>, b: Seq<char>, i: int)
    requires
        0 <= i <= a.len(),
        0 <= i <= b.len(),
        !lex_lt_from(a, b, i),
        !lex_lt_from(b, a, i),
        a.subrange(0, i) == b.subrange(0, i),
    ensures
        a == b,
    decreases a.len() - i,
{
    if i < a.len() && i < b.len() {
        if a[i] == b[i] {
            assert(a.subrange(0, i + 1) =~= b.subrange(0, i + 1));
            lemma_lex_connected_from(a, b, i + 1);
        } else {
            assert((a[i] as u32) == (b[i] as u32));
            vstd::utf8::char_u32_cast(a[i], a[i] as u32);
            vstd::utf8::char_u32_cast(b[i], b[i] as u32);
            assert(a[i] == b[i]);
        }
    } else {
        assert(a.len() == b.len());
        assert(i == a.len());
        assert forall|j: int| 0 <= j < i implies a[j] == b[j] by {
            assert(a.subrange(0, i)[j] == a[j]);
            assert(b.subrange(0, i)[j] == b[j]);
            assert(a.subrange(0, i)[j] == b.subrange(0, i)[j]);
        }
        assert(a =~= b);
    }
}

/// Two sequences with neither ordered below the other are equal.
pub proof fn lemma_lex_connected(a: Seq<char>, b: Seq<char>)
    requires
        !lex_lt(a, b),
        !lex_lt(b, a),
    ensures
        a == b,
{
    assert(a.subrange(0, 0) =~= b.subrange(0, 0));
    lemma_lex_connected_from(a, b, 0);
}

proof fn lemma_lex_trans_from(a: Seq<char>, b: Seq<char>, c: Seq<char>, i: int)
    requires
        0 <= i,
        lex_lt_from(a, b, i),
        lex_lt_from(b, c, i),
    ensures
        lex_lt_from(a, c, i),
    decreases a.len() - i,
{
    if i < a.len() && i < b.len() && i < c.len() && a[i] == b[i] && b[i] == c[i] {
        lemma_lex_trans_from(a, b, c, i + 1);
    }
}

/// The order is transitive.
pub proof fn lemma_lex_trans(a: Seq<char>, b: Seq<char>, c: Seq<char>)
    requires
        lex_lt(a, b),
        lex_lt(b, c),
    ensures
        lex_lt(a, c),
{
    lemma_lex_trans_from(a, b, c, 0);
}

/// Compares two strings; the result decides equality of views and the
/// lexicographic order in both directions.
pub fn str_lex_cmp(a: &str, b: &str) -> (r: i8)
    ensures
        r == 0 <==> a@ == b@,
        r < 0 <==> lex_lt(a@, b@),
        r > 0 <==> lex_lt(b@, a@),
{
    let a_len = a.unicode_len();
    let b_len = b.unicode_len();
    let mut i: usize = 0;
    loop
        invariant
            i <= a_len,
            i <= b_len,
            a_len == a@.len(),
            b_len == b@.len(),
            forall|j: int| 0 <= j < i ==> a@[j] == b@[j],
            lex_lt_from(a@, b@, 0) == lex_lt_from(a@, b@, i as int),
            lex_lt_from(b@, a@, 0) == lex_lt_from(b@, a@, i as int),
            a@.subrange(0, i as int) == b@.subrange(0, i as int),
        decreases a_len - i,
    {
        if i == a_len || i == b_len {
            if a_len < b_len {
                return -1;
            } else if b_len < a_len {
                return 1;
            } else {
                proof {
                    lemma_lex_connected_from(a@, b@, i as int);
                }
                return 0;
            }
        }
        let ca = a.get_char(i);
        let cb = b.get_char(i);
        if ca != cb {
            if (ca as u32) < (cb as u32) {
                return -1;
            } else {
                return 1;
            }
        }
        proof {
            assert(a@.subrange(0, i + 1int) =~= b@.subrange(0, i + 1int));
        }
        i = i + 1;
    }
}

/// A strictly ascending (hence duplicate-free) sequence of keys.
pub open spec fn keys_sorted(s: Seq<Seq<char>>) -> bool {
    forall|i: int, j: int| 0 <= i < j < s.len() ==> lex_lt(s[i], s[j])
}

/// Inserts `k` into the ascending sequence `s`, keeping it ascending and
/// adding nothing when `k` is already present.
pub open spec fn key_inserted(s: Seq<Seq<char>>, k: Seq<char>) -> Seq<Seq<char>>
    decreases s.len(),
{
    if s.len() == 0 {
        seq![k]
    } else if lex_lt(k, s[0]) {
        seq![k] + s
    } else if k == s[0] {
        s
    } else {
        seq![s[0]] + key_inserted(s.skip(1), k)
    }
}

/// All of `ks` inserted into `s`, first to last.
pub open spec fn keys_merged(s: Seq<Seq<char>>, ks: Seq<Seq<char>>) -> Seq<Seq<char>>
    decreases ks.len(),
{
    if ks.len() == 0 {
        s
    } else {
        key_inserted(keys_merged(s, ks.drop_last()), ks.last())
    }
}

/// Insertion keeps the sequence ascending and makes its members exactly the
/// old members together with the new key.
pub proof fn lemma_key_inserted_props(s: Seq<Seq<char>>, k: Seq<char>)
    requires
        keys_sorted(s),
    ensures
        keys_sorted(key_inserted(s, k)),
        forall|x: Seq<char>| #[trigger]
            key_inserted(s, k).contains(x) <==> (s.contains(x) || x == k),
    decreases s.len(),
{
    let r = key_inserted(s, k);
    if s.len() == 0 {
        assert forall|x: Seq<char>| #[trigger] r.contains(x) implies (s.contains(x) || x == k) by {
            assert(r[0] == k);
        }
        assert(r.contains(k)) by {
            assert(r[0] == k);
        }
    } else if lex_lt(k, s[0]) {
        assert forall|i: int, j: int| 0 <= i < j < r.len() implies lex_lt(r[i], r[j]) by {
            if i == 0 {
                if j > 1 {
                    lemma_lex_trans(k, s[0], s[j - 1]);
                }
            }
        }
        assert forall|x: Seq<char>| #[trigger] r.contains(x) implies (s.contains(x) || x == k) by {
            let i = choose|i: int| 0 <= i < r.len() && r[i] == x;
            if i > 0 {
                assert(s[i - 1] == x);
            }
        }
        assert forall|x: Seq<char>| s.contains(x) || x == k implies #[trigger] r.contains(x) by {
            if x == k {
                assert(r[0] == x);
            } else {
                let i = choose|i: int| 0 <= i < s.len() && s[i] == x;
                assert(r[i + 1] == x);
            }
        }
    } else if k == s[0] {
        assert forall|x: Seq<char>| s.contains(x) || x == k implies #[trigger] r.contains(x) by {
            if x == k {
                assert(r[0] == x);
            }
        }
    } else {
        let tail = s.skip(1);
        assert(keys_sorted(tail)) by {
            assert(forall|i: int, j: int|
                0 <= i < j < tail.len() ==> lex_lt(#[trigger] tail[i], #[trigger] tail[j]))
                by {
                assert(forall|i: int, j: int|
                    0 <= i < j < tail.len() ==> tail[i] == s[i + 1] && tail[j] == s[j + 1]);
            }
        }
        lemma_key_inserted_props(tail, k);
        let rt = key_inserted(tail, k);
        assert(r =~= seq![s[0]] + rt);
        assert(lex_lt(s[0], k)) by {
            if !lex_lt(s[0], k) {
                lemma_lex_connected(k, s[0]);
            }
        }
        assert forall|i: int, j: int| 0 <= i < j < r.len() implies lex_lt(r[i], r[j]) by {
            if i == 0 {
                assert(rt.contains(r[j])) by {
                    assert(rt[j - 1] == r[j]);
                }
                if r[j] == k {
                } else {
                    assert(tail.contains(r[j]));
                    let m = choose|m: int| 0 <= m < tail.len() && tail[m] == r[j];
                    assert(tail[m] == s[m + 1]);
                    assert(lex_lt(s[0], s[m + 1]));
                }
            } else {
                assert(rt[i - 1] == r[i] && rt[j - 1] == r[j]);
            }
        }
        assert forall|x: Seq<char>| #[trigger] r.contains(x) implies (s.contains(x) || x == k) by {
            let i = choose|i: int| 0 <= i < r.len() && r[i] == x;
            if i == 0 {
                assert(s[0] == x);
            } else {
                assert(rt[i - 1] == x);
                assert(rt.contains(x));
                if x != k {
                    let m = choose|m: int| 0 <= m < tail.len() && tail[m] == x;
                    assert(s[m + 1] == x);
                }
            }
        }
        assert forall|x: Seq<char>| s.contains(x) || x == k implies #[trigger] r.contains(x) by {
            if x == k || tail.contains(x) {
                assert(rt.contains(x));
                let m = choose|m: int| 0 <= m < rt.len() && rt[m] == x;
                assert(r[m + 1] == x);
            } else {
                let i = choose|i: int| 0 <= i < s.len() && s[i] == x;
                if i == 0 {
                    assert(r[0] == x);
                } else {
                    assert(tail[i - 1] == x);
                    assert(tail.contains(x));
                    let m = choose|m: int| 0 <= m < rt.len() && rt[m] == x;
                    assert(r[m + 1] == x);
                }
            }
        }
    }
}

/// Inserting a key that is already a member of an ascending sequence changes
/// nothing.
pub proof fn lemma_key_inserted_absorbed(s: Seq<Seq<char>>, k: Seq<char>)
    requires
        keys_sorted(s),
        s.contains(k),
    ensures
        key_inserted(s, k) == s,
    decreases s.len(),
{
    let i = choose|i: int| 0 <= i < s.len() && s[i] == k;
    if lex_lt(k, s[0]) {
        lemma_lex_irrefl(k);
        assert(lex_lt(s[0], s[i]) || s[0] == k);
        if i > 0 {
            lemma_lex_trans(k, s[0], s[i]);
            lemma_lex_irrefl(k);
        }
    } else if k == s[0] {
    } else {
        let tail = s.skip(1);
        assert(keys_sorted(tail)) by {
            assert(forall|i: int, j: int|
                0 <= i < j < tail.len() ==> tail[i] == s[i + 1] && tail[j] == s[j + 1]);
        }
        assert(i > 0) by {
            if i == 0 {
                lemma_lex_connected(k, s[0]);
            }
        }
        assert(tail[i - 1] == k);
        assert(tail.contains(k));
        lemma_key_inserted_absorbed(tail, k);
        assert(key_inserted(s, k) =~= s);
    }
}

/// Merging keeps the sequence ascending and makes its members the union of
/// the old members and the inserted keys.
pub proof fn lemma_keys_merged_props(s: Seq<Seq<char>>, ks: Seq<Seq<char>>)
    requires
        keys_sorted(s),
    ensures
        keys_sorted(keys_merged(s, ks)),
        forall|x: Seq<char>| #[trigger]
            keys_merged(s, ks).contains(x) <==> (s.contains(x) || ks.contains(x)),
    decreases ks.len(),
{
    if ks.len() == 0 {
    } else {
        let front = ks.drop_last();
        lemma_keys_merged_props(s, front);
        lemma_key_inserted_props(keys_merged(s, front), ks.last());
        assert forall|x: Seq<char>| #[trigger]
            keys_merged(s, ks).contains(x) implies (s.contains(x) || ks.contains(x)) by {
            if !s.contains(x) {
                if x == ks.last() {
                    assert(ks[ks.len() - 1] == x);
                } else {
                    assert(front.contains(x));
                    let m = choose|m: int| 0 <= m < front.len() && front[m] == x;
                    assert(ks[m] == x);
                }
            }
        }
        assert forall|x: Seq<char>| s.contains(x) || ks.contains(x) implies #[trigger]
            keys_merged(s, ks).contains(x) by {
            if ks.contains(x) {
                let m = choose|m: int| 0 <= m < ks.len() && ks[m] == x;
                if m < ks.len() - 1 {
                    assert(front[m] == x);
                    assert(front.contains(x));
                }
            }
        }
    }
}

/// Merging the same keys a second time changes nothing: after the first
/// merge every one of them is a member, and insertion of a member is
/// absorbed.
pub proof fn lemma_keys_merged_idempotent(s: Seq<Seq<char>>, ks: Seq<Seq<char>>)
    requires
        keys_sorted(s),
        forall|x: Seq<char>| ks.contains(x) ==> s.contains(x),
    ensures
        keys_merged(s, ks) == s,
    decreases ks.len(),
{
    if ks.len() > 0 {
        let front = ks.drop_last();
        assert(forall|x: Seq<char>| front.contains(x) ==> ks.contains(x)) by {
            assert(forall|m: int| 0 <= m < front.len() ==> front[m] == ks[m]);
        }
        lemma_keys_merged_idempotent(s, front);
        assert(s.contains(ks.last())) by {
            assert(ks[ks.len() - 1] == ks.last());
        }
        lemma_key_inserted_absorbed(s, ks.last());
    }
}

/// Inserting a set of keys is idempotent: the first merge makes each of them
/// a member, and so a second merge of the same keys changes nothing.  The
/// merged sequence is ascending in every case, so the compiled, comma-joined
/// form of a key set is canonical.
pub proof fn lemma_keys_merged_twice(s: Seq<Seq<char>>, ks: Seq<Seq<char>>)
    requires
        keys_sorted(s),
    ensures
        keys_sorted(keys_merged(s, ks)),
        keys_merged(keys_merged(s, ks), ks) == keys_merged(s, ks),
{
    lemma_keys_merged_props(s, ks);
    lemma_keys_merged_idempotent(keys_merged(s, ks), ks);
}

/// Inserts one key into an ascending vector of keys, preserving order and
/// adding nothing when the key is already present.
pub fn insert_key_sorted(v: &mut Vec<String>, k: &str)
    requires
        keys_sorted(old(v).deep_view()),
    ensures
        final(v).deep_view() == key_inserted(old(v).deep_view(), k@),
{
    let ghost s = old(v).deep_view();
    proof {
        assert(s.subrange(0, 0int) =~= Seq::<Seq<char>>::empty());
        assert(s.subrange(0, s.len() as int) =~= s);
        assert(key_inserted(s, k@) =~= s.subrange(0, 0int) + key_inserted(
            s.subrange(0, s.len() as int),
            k@,
        ));
    }
    let mut i: usize = 0;
    loop
        invariant
            s == old(v).deep_view(),
            keys_sorted(s),
            i <= v.len(),
            v.deep_view() == s,
            forall|j: int| 0 <= j < i ==> lex_lt(s[j], k@),
            key_inserted(s, k@) == s.subrange(0, i as int) + key_inserted(
                s.subrange(i as int, s.len() as int),
                k@,
            ),
        decreases v.len() - i,
    {
        if i == v.len() {
            v.push(k.to_owned());
            proof {
                assert(s.subrange(i as int, s.len() as int) =~= Seq::<Seq<char>>::empty());
                assert(v.deep_view() =~= s + seq![k@]) by {
                    assert(forall|j: int|
                        0 <= j < s.len() ==> v.deep_view()[j] == v@[j]@ && v@[j]@ == s[j]);
                    assert(v.deep_view()[s.len() as int] == v@[s.len() as int]@);
                }
                assert(s.subrange(0, i as int) =~= s);
                assert(key_inserted(s, k@) =~= s + seq![k@]);
            }
            return ;
        }
        proof {
            assert(v.deep_view()[i as int] == v@[i as int]@);
            assert(s[i as int] == v@[i as int]@);
        }
        let c = str_lex_cmp(k, v[i].as_str());
        if c < 0 {
            v.insert(i, k.to_owned());
            proof {
                let rest = s.subrange(i as int, s.len() as int);
                assert(rest[0] == s[i as int]);
                assert(key_inserted(rest, k@) =~= seq![k@] + rest);
                let target = s.subrange(0, i as int) + (seq![k@] + rest);
                assert(v.deep_view() =~= target) by {
                    assert(v@.len() == s.len() + 1);
                    assert(forall|j: int|
                        0 <= j < v@.len() ==> v.deep_view()[j] == v@[j]@);
                    assert(forall|j: int| 0 <= j < i ==> v@[j]@ == s[j] && target[j] == s[j]);
                    assert(v@[i as int]@ == k@ && target[i as int] == k@);
                    assert(forall|j: int|
                        i < j < v@.len() ==> v@[j]@ == s[j - 1] && target[j] == s[j - 1]);
                }
            }
            return ;
        } else if c == 0 {
            proof {
                let rest = s.subrange(i as int, s.len() as int);
                assert(rest[0] == s[i as int]);
                assert(key_inserted(rest, k@) =~= rest);
                assert(v.deep_view() =~= s.subrange(0, i as int) + rest);
            }
            return ;
        }
        proof {
            let rest = s.subrange(i as int, s.len() as int);
            let rest1 = s.subrange(i + 1int, s.len() as int);
            assert(rest[0] == s[i as int]);
            assert(rest.skip(1) =~= rest1);
            assert(lex_lt(s[i as int], k@));
            assert(k@ != s[i as int]) by {
                lemma_lex_irrefl(k@);
            }
            assert(!lex_lt(k@, s[i as int])) by {
                if lex_lt(k@, s[i as int]) {
                    lemma_lex_trans(k@, s[i as int], k@);
                    lemma_lex_irrefl(k@);
                }
            }
            assert(key_inserted(rest, k@) == seq![s[i as int]] + key_inserted(rest1, k@));
            assert(s.subrange(0, i as int) + (seq![s[i as int]] + key_inserted(rest1, k@))
                =~= s.subrange(0, i + 1int) + key_inserted(rest1, k@));
        }
        i = i + 1;
    }
}

/// The members of `parts`, joined by commas.
pub open spec fn join_comma(parts: Seq<Seq<char>>) -> Seq<char>
    decreases parts.len(),
{
    if parts.len() == 0 {
        Seq::empty()
    } else if parts.len() == 1 {
        parts[0]
    } else {
        join_comma(parts.drop_last()) + seq![','] + parts.last()
    }
}

/// Joins the members of `v` with commas.
pub fn join_keys_comma(v: &Vec<String>) -> (r: String)
    ensures
        r@ == join_comma(v.deep_view()),
{
    let mut out = String::new();
    let mut i: usize = 0;
    while i < v.len()
        invariant
            i <= v.len(),
            out@ == join_comma(v.deep_view().subrange(0, i as int)),
        decreases v.len() - i,
    {
        if i > 0 {
            crate::json::push_char(&mut out, ',');
        }
        out.append(v[i].as_str());
        proof {
            let dv = v.deep_view();
            assert(dv[i as int] == v[i as int]@);
            assert(dv.subrange(0, i + 1int).drop_last() =~= dv.subrange(0, i as int));
            assert(dv.subrange(0, i + 1int).last() == dv[i as int]);
        }
        i = i + 1;
    }
    proof {
        assert(v.deep_view().subrange(0, v.len() as int) =~= v.deep_view());
    }
    out
}

/// The sequence without its leading `/` characters.
pub open spec fn without_leading_slashes(s: Seq<char>) -> Seq<char>
    decreases s.len(),
{
    if s.len() > 0 && s[0] == '/' {
        without_leading_slashes(s.skip(1))
    } else {
        s
    }
}

/// Removes every leading `/` from `s`.
pub fn trim_leading_slashes(s: &str) -> (r: String)
    ensures
        r@ == without_leading_slashes(s@),
{
    let n = s.unicode_len();
    proof {
        assert(s@.skip(0int) =~= s@);
    }
    let mut i: usize = 0;
    while i < n && s.get_char(i) == '/'
        invariant
            i <= n,
            n == s@.len(),
            forall|j: int| 0 <= j < i ==> s@[j] == '/',
            without_leading_slashes(s@) == without_leading_slashes(s@.skip(i as int)),
        decreases n - i,
    {
        proof {
            assert(s@.skip(i as int)[0] == s@[i as int]);
            assert(s@.skip(i as int).skip(1) =~= s@.skip(i + 1int));
        }
        i = i + 1;
    }
    let r = s.substring_char(i, n);
    proof {
        assert(s@.skip(i as int) =~= s@.subrange(i as int, n as int));
        if i < n {
            assert(s@.skip(i as int)[0] == s@[i as int]);
        }
    }
    r.to_owned()
}

/// The sequence without its trailing `/` characters.
pub open spec fn without_trailing_slashes(s: Seq<char>) -> Seq<char>
    decreases s.len(),
{
    if s.len() > 0 && s.last() == '/' {
        without_trailing_slashes(s.drop_last())
    } else {
        s
    }
}

/// Removes every trailing `/` from `s`.
pub fn trim_trailing_slashes(s: &str) -> (r: String)
    ensures
        r@ == without_trailing_slashes(s@),
{
    let n = s.unicode_len();
    let mut j: usize = n;
    proof {
        assert(s@.subrange(0, n as int) =~= s@);
    }
    while j > 0 && s.get_char(j - 1) == '/'
        invariant
            j <= n,
            n == s@.len(),
            without_trailing_slashes(s@) == without_trailing_slashes(s@.subrange(0, j as int)),
        decreases j,
    {
        proof {
            let t = s@.subrange(0, j as int);
            assert(t.last() == s@[j - 1int]);
            assert(t.drop_last() =~= s@.subrange(0, j - 1int));
        }
        j = j - 1;
    }
    let r = s.substring_char(0, j);
    proof {
        let t = s@.subrange(0, j as int);
        if j > 0 {
            assert(t.last() == s@[j - 1int]);
        }
        assert(without_trailing_slashes(t) == t);
    }
    r.to_owned()
}

/// Whether `s` begins with `p`.
pub open spec fn has_prefix(s: Seq<char>, p: Seq<char>) -> bool {
    p.len() <= s.len() && s.subrange(0, p.len() as int) == p
}

/// Whether `s` ends with `p`.
pub open spec fn has_suffix(s: Seq<char>, p: Seq<char>) -> bool {
    p.len() <= s.len() && s.subrange(s.len() - p.len(), s.len() as int) == p
}

/// Decides whether `s` begins with `p`.
pub fn starts_with_str(s: &str, p: &str) -> (r: bool)
    ensures
        r == has_prefix(s@, p@),
{
    let sn = s.unicode_len();
    let pn = p.unicode_len();
    if pn > sn {
        return false;
    }
    let mut i: usize = 0;
    while i < pn
        invariant
            i <= pn <= sn,
            sn == s@.len(),
            pn == p@.len(),
            forall|j: int| 0 <= j < i ==> s@[j] == p@[j],
        decreases pn - i,
    {
        if s.get_char(i) != p.get_char(i) {
            proof {
                assert(s@.subrange(0, pn as int)[i as int] != p@[i as int]);
            }
            return false;
        }
        i = i + 1;
    }
    proof {
        assert(s@.subrange(0, pn as int) =~= p@);
    }
    true
}

/// Decides whether `s` ends with `p`.
pub fn ends_with_str(s: &str, p: &str) -> (r: bool)
    ensures
        r == has_suffix(s@, p@),
{
    let sn = s.unicode_len();
    let pn = p.unicode_len();
    if pn > sn {
        return false;
    }
    let base = sn - pn;
    let mut i: usize = 0;
    while i < pn
        invariant
            i <= pn <= sn,
            sn == s@.len(),
            pn == p@.len(),
            base == sn - pn,
            forall|j: int| 0 <= j < i ==> s@[base + j] == p@[j],
        decreases pn - i,
    {
        if s.get_char(base + i) != p.get_char(i) {
            proof {
                assert(s@.subrange(base as int, sn as int)[i as int] != p@[i as int]);
            }
            return false;
        }
        i = i + 1;
    }
    proof {
        assert(s@.subrange(base as int, sn as int) =~= p@);
    }
    true
}

/// The characters of `s`, in order.
pub fn str_chars(s: &str) -> (r: Vec<char>)
    ensures
        r@ == s@,
{
    let n = s.unicode_len();
    let mut out: Vec<char> = Vec::new();
    let mut i: usize = 0;
    while i < n
        invariant
            i <= n,
            n == s@.len(),
            out@ == s@.subrange(0, i as int),
        decreases n - i,
    {
        out.push(s.get_char(i));
        proof {
            assert(out@ =~= s@.subrange(0, i + 1int));
        }
        i = i + 1;
    }
    proof {
        assert(out@ =~= s@);
    }
    out
}

/// The first `n` characters of `s` (all of it when it is shorter).
pub fn take_chars(s: &str, n: usize) -> (r: String)
    ensures
        r@ == if s@.len() <= n {
            s@
        } else {
            s@.subrange(0, n as int)
        },
{
    let len = s.unicode_len();
    if len <= n {
        proof {
            assert(s@.subrange(0, len as int) =~= s@);
        }
        s.substring_char(0, len).to_owned()
    } else {
        s.substring_char(0, n).to_owned()
    }
}

} // verus!
