//! The fluent query builder and its compiler.
//!
//! A [`ParseQuery`] accumulates constraints in an ordered map from field to
//! filter value, kept strictly sorted by key with last write per field
//! winning, together with pagination, ordering and key-set state.  Compiling
//! never mutates the query: [`compiled_params`] is a function of the query
//! value alone, and [`ParseQuery::build_query_params`] returns exactly that
//! list, so two compilations of one query always agree.

use vstd::prelude::*;

use crate::auth::{header_model, AuthOptions};
use crate::client::{query_suffix, request_url_of, resolved_headers, CompiledRequest,
    HttpMethod, Parse};
use crate::error::{ErrorKind, ParseError};
use crate::json::{dec_text, insert_pair, int_text, json_text, lemma_obj_inserted_props, obj_keys,
    obj_lookup, obj_text, str_text, write_json, write_json_object, JsonValue};
use crate::outside::{regex_escape, regex_escaped};
use crate::text::{insert_key_sorted, join_comma, join_keys_comma, key_inserted, keys_merged,
    keys_sorted, lemma_key_inserted_props, str_lex_cmp};
use crate::types::{is_pointer_json, Pointer};

verus! {

/// A query against one collection: its accumulated constraint map and the
/// pagination, ordering, key-set and credential state.
#[derive(Debug)]
pub struct ParseQuery {
    pub class_name: String,
    /// The constraint map: strictly sorted by field, one entry per field.
    pub conditions: Vec<(String, JsonValue)>,
    pub limit: Option<i64>,
    pub skip: Option<usize>,
    pub order: Option<String>,
    /// Pointer fields to expand in results: a sorted, duplicate-free set.
    pub include_keys: Vec<String>,
    /// Fields to restrict results to: a sorted, duplicate-free set.
    pub selected_keys: Vec<String>,
    pub use_master_key: bool,
}

/// A filter value of the form `{"$op": v}`.
pub open spec fn is_op_json(j: JsonValue, op: Seq<char>, v: JsonValue) -> bool {
    &&& j matches JsonValue::Obj(es)
    &&& es@.len() == 1
    &&& es@[0].0@ == op
    &&& es@[0].1 == v
}

/// A query is well formed when its constraint map and both key sets are
/// strictly sorted.
pub open spec fn query_wf(q: ParseQuery) -> bool {
    &&& keys_sorted(obj_keys(q.conditions@))
    &&& keys_sorted(q.include_keys.deep_view())
    &&& keys_sorted(q.selected_keys.deep_view())
}

/// Everything of a query but its constraint map is unchanged.
pub open spec fn only_conditions_changed(a: ParseQuery, b: ParseQuery) -> bool {
    &&& b.class_name == a.class_name
    &&& b.limit == a.limit
    &&& b.skip == a.skip
    &&& b.order == a.order
    &&& b.include_keys == a.include_keys
    &&& b.selected_keys == a.selected_keys
    &&& b.use_master_key == a.use_master_key
}

/// One field of the constraint map was written with value `v`, last write
/// winning: that field now holds `v`, every other field is untouched, and
/// the map stays sorted.
pub open spec fn cond_written(old_q: ParseQuery, new_q: ParseQuery, key: Seq<char>, v: JsonValue) -> bool {
    &&& query_wf(new_q)
    &&& obj_keys(new_q.conditions@) == key_inserted(obj_keys(old_q.conditions@), key)
    &&& obj_lookup(new_q.conditions@, key) == Some(v)
    &&& (forall|k: Seq<char>|
        k != key ==> obj_lookup(new_q.conditions@, k) == obj_lookup(old_q.conditions@, k))
    &&& only_conditions_changed(old_q, new_q)
}

impl ParseQuery {
    /// A fresh query against `class_name`: no constraints, no pagination, no
    /// ordering, empty key sets, master key not requested.
    pub fn new(class_name: &str) -> (r: ParseQuery)
        ensures
            query_wf(r),
            r.class_name@ == class_name@,
            r.conditions@.len() == 0,
            r.limit is None,
            r.skip is None,
            r.order is None,
            r.include_keys@.len() == 0,
            r.selected_keys@.len() == 0,
            !r.use_master_key,
    {
        ParseQuery {
            class_name: class_name.to_owned(),
            conditions: Vec::new(),
            limit: None,
            skip: None,
            order: None,
            include_keys: Vec::new(),
            selected_keys: Vec::new(),
            use_master_key: false,
        }
    }

    /// The collection this query targets.
    pub fn class_name(&self) -> (r: &str)
        ensures
            r@ == self.class_name@,
    {
        self.class_name.as_str()
    }

    /// Whether this query asks to run with the master key.
    pub fn uses_master_key(&self) -> (r: bool)
        ensures
            r == self.use_master_key,
    {
        self.use_master_key
    }

    /// Sets whether this query runs with the master key.
    pub fn set_master_key(&mut self, use_key: bool)
        ensures
            (*final(self) == ParseQuery { use_master_key: use_key, ..*old(self) }),
    {
        self.use_master_key = use_key;
    }

    /// Writes one field of the constraint map.
    fn write_condition(&mut self, key: &str, value: JsonValue)
        requires
            query_wf(*old(self)),
        ensures
            cond_written(*old(self), *final(self), key@, value),
    {
        let pair = (key.to_owned(), value);
        proof {
            lemma_obj_inserted_props(self.conditions@, pair);
            lemma_key_inserted_props(obj_keys(self.conditions@), key@);
        }
        insert_pair(&mut self.conditions, pair);
    }

    /// Constrains `key` to equal `value` exactly.
    pub fn equal_to(&mut self, key: &str, value: JsonValue)
        requires
            query_wf(*old(self)),
        ensures
            cond_written(*old(self), *final(self), key@, value),
    {
        self.write_condition(key, value);
    }

    /// Writes the operator constraint `{"$op": value}` on `key`.
    fn write_operator(&mut self, key: &str, op: &str, value: JsonValue)
        requires
            query_wf(*old(self)),
        ensures
            obj_lookup(final(self).conditions@, key@) matches Some(v) && is_op_json(v, op@, value)
                && cond_written(*old(self), *final(self), key@, v),
    {
        let mut es: Vec<(String, JsonValue)> = Vec::new();
        es.push((op.to_owned(), value));
        let wrapped = JsonValue::Obj(es);
        self.write_condition(key, wrapped);
    }

    /// Constrains `key` to differ from `value`: compiles to `{"$ne": value}`.
    pub fn not_equal_to(&mut self, key: &str, value: JsonValue)
        requires
            query_wf(*old(self)),
        ensures
            obj_lookup(final(self).conditions@, key@) matches Some(v) && is_op_json(v, "$ne"@, value)
                && cond_written(*old(self), *final(self), key@, v),
    {
        self.write_operator(key, "$ne", value);
    }

    /// Constrains `key` to exist: compiles to `{"$exists": true}`.
    pub fn field_exists(&mut self, key: &str)
        requires
            query_wf(*old(self)),
        ensures
            obj_lookup(final(self).conditions@, key@) matches Some(v) && is_op_json(
                v,
                "$exists"@,
                JsonValue::Bool(true),
            ) && cond_written(*old(self), *final(self), key@, v),
    {
        self.write_operator(key, "$exists", JsonValue::Bool(true));
    }

    /// Constrains `key` to be absent: compiles to `{"$exists": false}`.
    pub fn does_not_exist(&mut self, key: &str)
        requires
            query_wf(*old(self)),
        ensures
            obj_lookup(final(self).conditions@, key@) matches Some(v) && is_op_json(
                v,
                "$exists"@,
                JsonValue::Bool(false),
            ) && cond_written(*old(self), *final(self), key@, v),
    {
        self.write_operator(key, "$exists", JsonValue::Bool(false));
    }

    /// Constrains `key` to be greater than `value`: `{"$gt": value}`.
    pub fn greater_than(&mut self, key: &str, value: JsonValue)
        requires
            query_wf(*old(self)),
        ensures
            obj_lookup(final(self).conditions@, key@) matches Some(v) && is_op_json(v, "$gt"@, value)
                && cond_written(*old(self), *final(self), key@, v),
    {
        self.write_operator(key, "$gt", value);
    }

    /// Constrains `key` to be at least `value`: `{"$gte": value}`.
    pub fn greater_than_or_equal_to(&mut self, key: &str, value: JsonValue)
        requires
            query_wf(*old(self)),
        ensures
            obj_lookup(final(self).conditions@, key@) matches Some(v) && is_op_json(v, "$gte"@, value)
                && cond_written(*old(self), *final(self), key@, v),
    {
        self.write_operator(key, "$gte", value);
    }

    /// Constrains `key` to be less than `value`: `{"$lt": value}`.
    pub fn less_than(&mut self, key: &str, value: JsonValue)
        requires
            query_wf(*old(self)),
        ensures
            obj_lookup(final(self).conditions@, key@) matches Some(v) && is_op_json(v, "$lt"@, value)
                && cond_written(*old(self), *final(self), key@, v),
    {
        self.write_operator(key, "$lt", value);
    }

    /// Constrains `key` to be at most `value`: `{"$lte": value}`.
    pub fn less_than_or_equal_to(&mut self, key: &str, value: JsonValue)
        requires
            query_wf(*old(self)),
        ensures
            obj_lookup(final(self).conditions@, key@) matches Some(v) && is_op_json(v, "$lte"@, value)
                && cond_written(*old(self), *final(self), key@, v),
    {
        self.write_operator(key, "$lte", value);
    }

    /// Constrains `key` to one of `values`: `{"$in": values}`.
    pub fn contained_in(&mut self, key: &str, values: Vec<JsonValue>)
        requires
            query_wf(*old(self)),
        ensures
            obj_lookup(final(self).conditions@, key@) matches Some(v) && is_op_json(
                v,
                "$in"@,
                JsonValue::Arr(values),
            ) && cond_written(*old(self), *final(self), key@, v),
    {
        self.write_operator(key, "$in", JsonValue::Arr(values));
    }

    /// Constrains `key` to none of `values`: `{"$nin": values}`.
    pub fn not_contained_in(&mut self, key: &str, values: Vec<JsonValue>)
        requires
            query_wf(*old(self)),
        ensures
            obj_lookup(final(self).conditions@, key@) matches Some(v) && is_op_json(
                v,
                "$nin"@,
                JsonValue::Arr(values),
            ) && cond_written(*old(self), *final(self), key@, v),
    {
        self.write_operator(key, "$nin", JsonValue::Arr(values));
    }

    /// Constrains the array field `key` to contain every one of `values`:
    /// `{"$all": values}`.
    pub fn contains_all(&mut self, key: &str, values: Vec<JsonValue>)
        requires
            query_wf(*old(self)),
        ensures
            obj_lookup(final(self).conditions@, key@) matches Some(v) && is_op_json(
                v,
                "$all"@,
                JsonValue::Arr(values),
            ) && cond_written(*old(self), *final(self), key@, v),
    {
        self.write_operator(key, "$all", JsonValue::Arr(values));
    }

    /// Constrains the string field `key` to start with the literal `prefix`:
    /// the pattern is `^` and then the prefix with every regular-expression
    /// meta character escaped, so the prefix matches itself and never acts as
    /// a pattern.
    pub fn starts_with(&mut self, key: &str, prefix: &str)
        requires
            query_wf(*old(self)),
        ensures
            obj_lookup(final(self).conditions@, key@) matches Some(v) && (exists|p: JsonValue|
                is_op_json(v, "$regex"@, p) && (p matches JsonValue::Str(s) && s@ == seq!['^']
                    + regex_escaped(prefix@))) && cond_written(*old(self), *final(self), key@, v),
    {
        let mut pat = String::new();
        crate::json::push_char(&mut pat, '^');
        let escaped = regex_escape(prefix);
        pat.append(escaped.as_str());
        assert(pat@ =~= seq!['^'] + regex_escaped(prefix@));
        self.write_operator(key, "$regex", JsonValue::Str(pat));
    }

    /// Constrains the string field `key` to end with the literal `suffix`:
    /// the escaped suffix followed by `$`.
    pub fn ends_with(&mut self, key: &str, suffix: &str)
        requires
            query_wf(*old(self)),
        ensures
            obj_lookup(final(self).conditions@, key@) matches Some(v) && (exists|p: JsonValue|
                is_op_json(v, "$regex"@, p) && (p matches JsonValue::Str(s) && s@ == regex_escaped(
                    suffix@,
                ) + seq!['$'])) && cond_written(*old(self), *final(self), key@, v),
    {
        let mut pat = regex_escape(suffix);
        crate::json::push_char(&mut pat, '$');
        assert(pat@ =~= regex_escaped(suffix@) + seq!['$']);
        self.write_operator(key, "$regex", JsonValue::Str(pat));
    }

    /// Constrains the string field `key` to contain the literal `substring`:
    /// `.*`, the escaped substring, `.*`.
    pub fn contains(&mut self, key: &str, substring: &str)
        requires
            query_wf(*old(self)),
        ensures
            obj_lookup(final(self).conditions@, key@) matches Some(v) && (exists|p: JsonValue|
                is_op_json(v, "$regex"@, p) && (p matches JsonValue::Str(s) && s@ == seq!['.', '*']
                    + regex_escaped(substring@) + seq!['.', '*'])) && cond_written(
                *old(self),
                *final(self),
                key@,
                v,
            ),
    {
        let mut pat = String::new();
        crate::json::push_char(&mut pat, '.');
        crate::json::push_char(&mut pat, '*');
        let escaped = regex_escape(substring);
        pat.append(escaped.as_str());
        crate::json::push_char(&mut pat, '.');
        crate::json::push_char(&mut pat, '*');
        assert(pat@ =~= seq!['.', '*'] + regex_escaped(substring@) + seq!['.', '*']);
        self.write_operator(key, "$regex", JsonValue::Str(pat));
    }

    /// Constrains the string field `key` by a caller-supplied pattern, with
    /// optional modifiers: `{"$regex": pattern}` plus `"$options"` when
    /// modifiers are given.  The pattern is taken as written, not escaped.
    pub fn matches_regex(&mut self, key: &str, regex_pattern: &str, modifiers: Option<&str>)
        requires
            query_wf(*old(self)),
        ensures
            obj_lookup(final(self).conditions@, key@) matches Some(v) && ({
                &&& v matches JsonValue::Obj(es)
                &&& es@.len() == (if modifiers is Some {
                    2int
                } else {
                    1int
                })
                &&& es@[0].0@ == "$regex"@
                &&& (es@[0].1 matches JsonValue::Str(p) && p@ == regex_pattern@)
                &&& (modifiers matches Some(m) ==> es@[1].0@ == "$options"@ && (es@[1].1
                    matches JsonValue::Str(o) && o@ == m@))
            }) && cond_written(*old(self), *final(self), key@, v),
    {
        let mut es: Vec<(String, JsonValue)> = Vec::new();
        es.push(("$regex".to_owned(), JsonValue::Str(regex_pattern.to_owned())));
        match modifiers {
            Some(m) => {
                es.push(("$options".to_owned(), JsonValue::Str(m.to_owned())));
            },
            None => {},
        }
        self.write_condition(key, JsonValue::Obj(es));
    }

    /// Adds a full-text search constraint on `key`: a nested
    /// `{"$text": {"$search": {...}}}` value whose optional sub-keys are
    /// present exactly when supplied.
    pub fn search(
        &mut self,
        key: &str,
        term: &str,
        language: Option<&str>,
        case_sensitive: Option<bool>,
        diacritic_sensitive: Option<bool>,
    )
        requires
            query_wf(*old(self)),
        ensures
            obj_lookup(final(self).conditions@, key@) matches Some(v) && (exists|inner: JsonValue|
                is_op_json(v, "$text"@, inner) && (exists|params: JsonValue|
                    is_op_json(inner, "$search"@, params) && search_params_ok(
                        params,
                        term@,
                        language,
                        case_sensitive,
                        diacritic_sensitive,
                    ))) && cond_written(*old(self), *final(self), key@, v),
    {
        let mut ps: Vec<(String, JsonValue)> = Vec::new();
        ps.push(("$term".to_owned(), JsonValue::Str(term.to_owned())));
        match language {
            Some(l) => {
                ps.push(("$language".to_owned(), JsonValue::Str(l.to_owned())));
            },
            None => {},
        }
        match case_sensitive {
            Some(c) => {
                ps.push(("$caseSensitive".to_owned(), JsonValue::Bool(c)));
            },
            None => {},
        }
        match diacritic_sensitive {
            Some(d) => {
                ps.push(("$diacriticSensitive".to_owned(), JsonValue::Bool(d)));
            },
            None => {},
        }
        let params = JsonValue::Obj(ps);
        let ghost gparams = params;
        let mut search_es: Vec<(String, JsonValue)> = Vec::new();
        search_es.push(("$search".to_owned(), params));
        let inner = JsonValue::Obj(search_es);
        let ghost ginner = inner;
        let mut text_es: Vec<(String, JsonValue)> = Vec::new();
        text_es.push(("$text".to_owned(), inner));
        let wrapped = JsonValue::Obj(text_es);
        let ghost gwrapped = wrapped;
        proof {
            assert(search_params_ok(
                gparams,
                term@,
                language,
                case_sensitive,
                diacritic_sensitive,
            ));
            assert(is_op_json(ginner, "$search"@, gparams));
            assert(is_op_json(gwrapped, "$text"@, ginner));
        }
        self.write_condition(key, wrapped);
    }

    /// Replaces every constraint with a relational one: the query then asks
    /// for the objects related to `parent_object` through the relation field
    /// `key_on_parent_object`, and is mutually exclusive with other filters.
    pub fn related_to(&mut self, parent_object: &Pointer, key_on_parent_object: &str)
        requires
            query_wf(*old(self)),
        ensures
            query_wf(*final(self)),
            final(self).conditions@.len() == 1,
            final(self).conditions@[0].0@ == "$relatedTo"@,
            ({
                &&& final(self).conditions@[0].1 matches JsonValue::Obj(es)
                &&& es@.len() == 2
                &&& es@[0].0@ == "object"@
                &&& is_pointer_json(es@[0].1, parent_object.class_name@, parent_object.object_id@)
                &&& es@[1].0@ == "key"@
                &&& (es@[1].1 matches JsonValue::Str(s) && s@ == key_on_parent_object@)
            }),
            only_conditions_changed(*old(self), *final(self)),
    {
        let mut es: Vec<(String, JsonValue)> = Vec::new();
        es.push(("object".to_owned(), parent_object.to_json()));
        es.push(("key".to_owned(), JsonValue::Str(key_on_parent_object.to_owned())));
        let mut conds: Vec<(String, JsonValue)> = Vec::new();
        conds.push(("$relatedTo".to_owned(), JsonValue::Obj(es)));
        self.conditions = conds;
    }

    /// Sets the maximum number of results.
    pub fn limit(&mut self, count: i64)
        ensures
            (*final(self) == ParseQuery { limit: Some(count), ..*old(self) }),
    {
        self.limit = Some(count);
    }

    /// Sets the number of results to skip.
    pub fn skip(&mut self, count: usize)
        ensures
            (*final(self) == ParseQuery { skip: Some(count), ..*old(self) }),
    {
        self.skip = Some(count);
    }

    /// Replaces the whole order string: comma-separated field names, each
    /// with a `-` prefix for descending order.
    pub fn order(&mut self, field_names: &str)
        ensures
            (final(self).order matches Some(o) && o@ == field_names@),
            (*final(self) == ParseQuery { order: final(self).order, ..*old(self) }),
    {
        self.order = Some(field_names.to_owned());
    }

    /// Appends one key to the order string: a comma when text is already
    /// there, a `-` prefix when descending, the key.
    fn append_order_key(&mut self, key: &str, descending: bool)
        ensures
            (final(self).order matches Some(o) && o@ == order_appended(
                old(self).order,
                key@,
                descending,
            )),
            (*final(self) == ParseQuery { order: final(self).order, ..*old(self) }),
    {
        let mut text: String = match &self.order {
            Some(existing) => {
                let mut t = existing.clone();
                if t.as_str().unicode_len() > 0 {
                    crate::json::push_char(&mut t, ',');
                }
                t
            },
            None => String::new(),
        };
        if descending {
            crate::json::push_char(&mut text, '-');
        }
        text.append(key);
        proof {
            assert(text@ =~= order_appended(old(self).order, key@, descending));
        }
        self.order = Some(text);
    }

    /// Replaces the sort order with `key`, ascending.
    pub fn order_by_ascending(&mut self, key: &str)
        ensures
            (final(self).order matches Some(o) && o@ == key@),
            (*final(self) == ParseQuery { order: final(self).order, ..*old(self) }),
    {
        self.order = Some(key.to_owned());
    }

    /// Replaces the sort order with `key`, descending.
    pub fn order_by_descending(&mut self, key: &str)
        ensures
            (final(self).order matches Some(o) && o@ == seq!['-'] + key@),
            (*final(self) == ParseQuery { order: final(self).order, ..*old(self) }),
    {
        let mut t = String::new();
        crate::json::push_char(&mut t, '-');
        t.append(key);
        proof {
            assert(t@ =~= seq!['-'] + key@);
        }
        self.order = Some(t);
    }

    /// Appends `key` to the sort order, ascending.
    pub fn add_ascending_order(&mut self, key: &str)
        ensures
            (final(self).order matches Some(o) && o@ == order_appended(old(self).order, key@, false)),
            (*final(self) == ParseQuery { order: final(self).order, ..*old(self) }),
    {
        self.append_order_key(key, false);
    }

    /// Appends `key` to the sort order, descending: `,-key`.
    pub fn add_descending_order(&mut self, key: &str)
        ensures
            (final(self).order matches Some(o) && o@ == order_appended(old(self).order, key@, true)),
            (*final(self) == ParseQuery { order: final(self).order, ..*old(self) }),
    {
        self.append_order_key(key, true);
    }

    /// Unions pointer fields into the expansion set: duplicates vanish and
    /// the set stays sorted, so repeating keys never changes the compiled
    /// value.
    pub fn include_paths(&mut self, keys_to_expand: &Vec<String>)
        requires
            query_wf(*old(self)),
        ensures
            query_wf(*final(self)),
            final(self).include_keys.deep_view() == keys_merged(
                old(self).include_keys.deep_view(),
                keys_to_expand.deep_view(),
            ),
            (*final(self) == ParseQuery { include_keys: final(self).include_keys, ..*old(self) }),
    {
        let ghost start = self.include_keys.deep_view();
        let n = keys_to_expand.len();
        proof {
            assert(keys_to_expand.deep_view().subrange(0, 0int) =~= Seq::<Seq<char>>::empty());
        }
        let mut i: usize = 0;
        while i < n
            invariant
                query_wf(*old(self)),
                start == old(self).include_keys.deep_view(),
                i <= n,
                n == keys_to_expand@.len(),
                keys_to_expand.deep_view().len() == n,
                keys_sorted(self.include_keys.deep_view()),
                self.include_keys.deep_view() == keys_merged(
                    start,
                    keys_to_expand.deep_view().subrange(0, i as int),
                ),
                self.class_name == old(self).class_name,
                self.conditions == old(self).conditions,
                self.limit == old(self).limit,
                self.skip == old(self).skip,
                self.order == old(self).order,
                self.selected_keys == old(self).selected_keys,
                self.use_master_key == old(self).use_master_key,
            decreases n - i,
        {
            proof {
                lemma_key_inserted_props(
                    self.include_keys.deep_view(),
                    keys_to_expand.deep_view()[i as int],
                );
                assert(keys_to_expand.deep_view()[i as int] == keys_to_expand@[i as int]@);
            }
            insert_key_sorted(&mut self.include_keys, keys_to_expand[i].as_str());
            proof {
                let kv = keys_to_expand.deep_view();
                assert(kv.subrange(0, i + 1int).drop_last() =~= kv.subrange(0, i as int));
                assert(kv.subrange(0, i + 1int).last() == kv[i as int]);
            }
            i = i + 1;
        }
        proof {
            assert(keys_to_expand.deep_view().subrange(0, n as int) =~= keys_to_expand.deep_view());
        }
    }

    /// Unions fields into the selection set: duplicates vanish and the set
    /// stays sorted, so repeating keys never changes the compiled value.
    pub fn select(&mut self, keys_to_select: &Vec<String>)
        requires
            query_wf(*old(self)),
        ensures
            query_wf(*final(self)),
            final(self).selected_keys.deep_view() == keys_merged(
                old(self).selected_keys.deep_view(),
                keys_to_select.deep_view(),
            ),
            (*final(self) == ParseQuery { selected_keys: final(self).selected_keys, ..*old(self) }),
    {
        let ghost start = self.selected_keys.deep_view();
        let n = keys_to_select.len();
        proof {
            assert(keys_to_select.deep_view().subrange(0, 0int) =~= Seq::<Seq<char>>::empty());
        }
        let mut i: usize = 0;
        while i < n
            invariant
                query_wf(*old(self)),
                start == old(self).selected_keys.deep_view(),
                i <= n,
                n == keys_to_select@.len(),
                keys_to_select.deep_view().len() == n,
                keys_sorted(self.selected_keys.deep_view()),
                self.selected_keys.deep_view() == keys_merged(
                    start,
                    keys_to_select.deep_view().subrange(0, i as int),
                ),
                self.class_name == old(self).class_name,
                self.conditions == old(self).conditions,
                self.limit == old(self).limit,
                self.skip == old(self).skip,
                self.order == old(self).order,
                self.include_keys == old(self).include_keys,
                self.use_master_key == old(self).use_master_key,
            decreases n - i,
        {
            proof {
                lemma_key_inserted_props(
                    self.selected_keys.deep_view(),
                    keys_to_select.deep_view()[i as int],
                );
                assert(keys_to_select.deep_view()[i as int] == keys_to_select@[i as int]@);
            }
            insert_key_sorted(&mut self.selected_keys, keys_to_select[i].as_str());
            proof {
                let kv = keys_to_select.deep_view();
                assert(kv.subrange(0, i + 1int).drop_last() =~= kv.subrange(0, i as int));
                assert(kv.subrange(0, i + 1int).last() == kv[i as int]);
            }
            i = i + 1;
        }
        proof {
            assert(keys_to_select.deep_view().subrange(0, n as int) =~= keys_to_select.deep_view());
        }
    }
}

/// The parameter object of a full-text search: `$term` first, then exactly
/// the optional sub-keys that were supplied, in the fixed order language,
/// case sensitivity, diacritic sensitivity.
pub open spec fn search_params_ok(
    params: JsonValue,
    term: Seq<char>,
    language: Option<&str>,
    case_sensitive: Option<bool>,
    diacritic_sensitive: Option<bool>,
) -> bool {
    let lang_n: int = if language is Some {
        1int
    } else {
        0int
    };
    let cs_n: int = if case_sensitive is Some {
        1int
    } else {
        0int
    };
    let ds_n: int = if diacritic_sensitive is Some {
        1int
    } else {
        0int
    };
    &&& params matches JsonValue::Obj(es)
    &&& es@.len() == 1 + lang_n + cs_n + ds_n
    &&& es@[0].0@ == "$term"@
    &&& (es@[0].1 matches JsonValue::Str(t) && t@ == term)
    &&& (language matches Some(l) ==> es@[1].0@ == "$language"@ && (es@[1].1
        matches JsonValue::Str(s) && s@ == l@))
    &&& (case_sensitive matches Some(c) ==> es@[1 + lang_n].0@ == "$caseSensitive"@ && es@[1
        + lang_n].1 == JsonValue::Bool(c))
    &&& (diacritic_sensitive matches Some(d) ==> es@[1 + lang_n + cs_n].0@
        == "$diacriticSensitive"@ && es@[1 + lang_n + cs_n].1 == JsonValue::Bool(d))
}

/// The order string after one key is appended: a comma joins it to existing
/// non-empty text, and a `-` prefix marks a descending key.
pub open spec fn order_appended(old_order: Option<String>, key: Seq<char>, descending: bool) -> Seq<
    char,
> {
    let entry = if descending {
        seq!['-'] + key
    } else {
        key
    };
    match old_order {
        Some(existing) => if existing@.len() > 0 {
            existing@ + seq![','] + entry
        } else {
            entry
        },
        None => entry,
    }
}

/// The `where` document of a constraint map: its members as one JSON object.
pub open spec fn where_text(conds: Seq<(String, JsonValue)>) -> Seq<char> {
    seq!['{'] + obj_text(conds, 0) + seq!['}']
}

/// The exact compiled parameter list of a query, a function of the query
/// value alone: the `where` document only when constraints exist, then limit,
/// skip, order, and the two key sets joined by commas, each only when set.
pub open spec fn compiled_params(q: ParseQuery) -> Seq<(Seq<char>, Seq<char>)> {
    let p0 = Seq::<(Seq<char>, Seq<char>)>::empty();
    let p1 = if q.conditions@.len() > 0 {
        p0.push(("where"@, where_text(q.conditions@)))
    } else {
        p0
    };
    let p2 = match q.limit {
        Some(l) => p1.push(("limit"@, int_text(l as int))),
        None => p1,
    };
    let p3 = match q.skip {
        Some(s) => p2.push(("skip"@, dec_text(s as nat))),
        None => p2,
    };
    let p4 = match q.order {
        Some(o) => p3.push(("order"@, o@)),
        None => p3,
    };
    let p5 = if q.include_keys@.len() > 0 {
        p4.push(("include"@, join_comma(q.include_keys.deep_view())))
    } else {
        p4
    };
    if q.selected_keys@.len() > 0 {
        p5.push(("keys"@, join_comma(q.selected_keys.deep_view())))
    } else {
        p5
    }
}

/// Appends one named parameter.
fn push_param(params: &mut Vec<(String, String)>, name: &str, value: String)
    ensures
        final(params).deep_view() == old(params).deep_view().push((name@, value@)),
{
    let ghost before = params.deep_view();
    params.push((name.to_owned(), value));
    proof {
        assert(params.deep_view() =~= before.push((name@, value@))) by {
            assert(forall|j: int|
                0 <= j < params@.len() ==> params.deep_view()[j] == (
                    params@[j].0@,
                    params@[j].1@,
                ));
        }
    }
}

impl ParseQuery {
    /// Compiles the parameter list with the given limit in place of the
    /// query's own.
    fn compile_with_limit(&self, limit: Option<i64>) -> (r: Vec<(String, String)>)
        ensures
            r.deep_view() == compiled_params(ParseQuery { limit, ..*self }),
    {
        let mut params: Vec<(String, String)> = Vec::new();
        proof {
            assert(params.deep_view() =~= Seq::<(Seq<char>, Seq<char>)>::empty());
        }
        if self.conditions.len() > 0 {
            push_param(&mut params, "where", write_json_object(&self.conditions));
        }
        match limit {
            Some(l) => push_param(&mut params, "limit", crate::json::int_string(l)),
            None => {},
        }
        match &self.skip {
            Some(s) => push_param(&mut params, "skip", crate::json::usize_string(*s)),
            None => {},
        }
        match &self.order {
            Some(o) => push_param(&mut params, "order", o.clone()),
            None => {},
        }
        if self.include_keys.len() > 0 {
            push_param(&mut params, "include", join_keys_comma(&self.include_keys));
        }
        if self.selected_keys.len() > 0 {
            push_param(&mut params, "keys", join_keys_comma(&self.selected_keys));
        }
        params
    }

    /// Compiles the query into its ordered parameter list: exactly
    /// [`compiled_params`] of the query value.  The query itself is read,
    /// never changed, so compiling twice yields identical lists.
    pub fn build_query_params(&self) -> (r: Vec<(String, String)>)
        ensures
            r.deep_view() == compiled_params(*self),
    {
        let r = self.compile_with_limit(self.limit);
        proof {
            assert(ParseQuery { limit: self.limit, ..*self } == *self);
        }
        r
    }

    /// Compiles the parameters of a first-result request: the query with its
    /// limit forced to one.
    pub fn build_first_params(&self) -> (r: Vec<(String, String)>)
        ensures
            r.deep_view() == compiled_params(ParseQuery { limit: Some(1i64), ..*self }),
    {
        self.compile_with_limit(Some(1))
    }

    /// Compiles the parameters of a count request: the query with its limit
    /// forced to zero, and `count=1` appended; the response then carries a
    /// count instead of results.
    pub fn build_count_params(&self) -> (r: Vec<(String, String)>)
        ensures
            r.deep_view() == compiled_params(ParseQuery { limit: Some(0i64), ..*self }).push(
                ("count"@, "1"@),
            ),
    {
        let mut params = self.compile_with_limit(Some(0));
        push_param(&mut params, "count", "1".to_owned());
        params
    }

    /// Compiles the parameters of a distinct request: one aggregation
    /// pipeline document, [`distinct_pipeline_text`] of the constraints and
    /// the grouped field.
    pub fn build_distinct_params(&self, field: &str) -> (r: Vec<(String, String)>)
        ensures
            r.deep_view() == seq![("pipeline"@, distinct_pipeline_text(self.conditions@, field@))],
    {
        let mut text = String::new();
        if self.conditions.len() > 0 {
            text.append("[{\"$match\":");
            let w = write_json_object(&self.conditions);
            text.append(w.as_str());
            text.append("},");
        } else {
            text.append("[");
        }
        text.append("{\"$group\":{\"_id\":");
        let mut fld = String::new();
        crate::json::push_char(&mut fld, '$');
        fld.append(field);
        proof {
            assert(fld@ =~= seq!['$'] + field@);
        }
        crate::json::append_str_literal(&mut text, fld.as_str());
        text.append("}}");
        text.append("]");
        proof {
            assert(text@ =~= distinct_pipeline_text(self.conditions@, field@));
        }
        let mut params: Vec<(String, String)> = Vec::new();
        proof {
            assert(params.deep_view() =~= Seq::<(Seq<char>, Seq<char>)>::empty());
        }
        push_param(&mut params, "pipeline", text);
        proof {
            assert(params.deep_view() =~= seq![
                ("pipeline"@, distinct_pipeline_text(self.conditions@, field@)),
            ]);
        }
        params
    }
}

/// The aggregation pipeline document of a distinct request: an optional
/// `$match` stage, only when constraints exist, and the mandatory `$group`
/// stage keyed by the `$`-prefixed field.
pub open spec fn distinct_pipeline_text(conds: Seq<(String, JsonValue)>, field: Seq<char>) -> Seq<
    char,
> {
    let group = "{\"$group\":{\"_id\":"@ + str_text(seq!['$'] + field) + "}}"@;
    if conds.len() > 0 {
        "[{\"$match\":"@ + where_text(conds) + "},"@ + group + "]"@
    } else {
        "["@ + group + "]"@
    }
}

/// Compiles the parameters of an aggregation request: the caller's pipeline
/// passed through verbatim as one JSON-encoded parameter.
pub fn aggregate_params(pipeline: &JsonValue) -> (r: Vec<(String, String)>)
    ensures
        r.deep_view() == seq![("pipeline"@, json_text(*pipeline))],
{
    let mut params: Vec<(String, String)> = Vec::new();
    proof {
        assert(params.deep_view() =~= Seq::<(Seq<char>, Seq<char>)>::empty());
    }
    push_param(&mut params, "pipeline", write_json(pipeline));
    proof {
        assert(params.deep_view() =~= seq![("pipeline"@, json_text(*pipeline))]);
    }
    params
}

/// Takes the first member under `key` out of an object's entry list.
fn take_member(entries: Vec<(String, JsonValue)>, key: &str) -> (r: Option<JsonValue>)
    ensures
        r == obj_lookup(entries@, key@),
    decreases entries@.len(),
{
    let ghost orig = entries@;
    let mut v = entries;
    if v.len() == 0 {
        return None;
    }
    let e = v.remove(0);
    proof {
        assert(v@ =~= orig.skip(1));
    }
    if str_lex_cmp(e.0.as_str(), key) == 0 {
        Some(e.1)
    } else {
        take_member(v, key)
    }
}

/// Reads the distinct values out of aggregation result rows: the grouped
/// value comes back under the key `objectId` of each row — a protocol
/// convention, not the `_id` name the pipeline asked for — and a row without
/// that member is a decode failure.
pub fn distinct_values(rows: Vec<JsonValue>) -> (r: Result<Vec<JsonValue>, ParseError>)
    ensures
        r is Ok <==> (forall|i: int|
            0 <= i < rows@.len() ==> crate::error::json_member(#[trigger] rows@[i], "objectId"@)
                is Some),
        r matches Ok(vs) ==> vs@.len() == rows@.len() && (forall|i: int|
            0 <= i < rows@.len() ==> crate::error::json_member(#[trigger] rows@[i], "objectId"@)
                == Some(vs@[i])),
        r matches Err(e) ==> e.kind == ErrorKind::ResponseDecodeFailed,
{
    let ghost orig = rows@;
    let n = rows.len();
    let mut v = rows;
    let mut out: Vec<JsonValue> = Vec::new();
    let mut i: usize = 0;
    #[verifier::loop_isolation(false)]
    loop
        invariant
            out@.len() == i,
            i <= n,
            i + v@.len() == n,
            forall|j: int| 0 <= j < v@.len() ==> v@[j] == orig[i + j],
            forall|j: int|
                0 <= j < i ==> crate::error::json_member(#[trigger] orig[j], "objectId"@) == Some(
                    out@[j],
                ),
        decreases v@.len(),
    {
        if v.len() == 0 {
            return Ok(out);
        }
        let ghost pre = v@;
        let row = v.remove(0);
        proof {
            assert(row == orig[i as int]);
            assert(v@ =~= pre.skip(1));
        }
        let got: Option<JsonValue> = match row {
            JsonValue::Obj(entries) => take_member(entries, "objectId"),
            _ => None,
        };
        match got {
            Some(v) => {
                out.push(v);
            },
            None => {
                return Err(
                    ParseError::of_kind(
                        ErrorKind::ResponseDecodeFailed,
                        "A distinct result row carries no objectId member.".to_owned(),
                    ),
                );
            },
        }
        i = i + 1;
    }
}

/// Compiling is deterministic: the compiled parameter list is a function of
/// the query value, so any two compilations of one unchanged query are equal.
pub proof fn lemma_compile_deterministic(
    q: ParseQuery,
    p1: Seq<(Seq<char>, Seq<char>)>,
    p2: Seq<(Seq<char>, Seq<char>)>,
)
    requires
        p1 == compiled_params(q),
        p2 == compiled_params(q),
    ensures
        p1 == p2,
{
}

impl Parse {
    /// Assembles a find request: the compiled parameters against the query's
    /// collection, with the master key exactly when the query asks for it.
    pub fn find_request(&self, query: &ParseQuery) -> (r: Result<CompiledRequest, ParseError>)
        ensures
            r is Err <==> query.use_master_key && self.master_key is None,
            r matches Err(e) ==> e.kind == ErrorKind::MasterKeyRequired,
            r matches Ok(req) ==> {
                &&& req.method == HttpMethod::Get
                &&& req.url@ == request_url_of(self.server_url@, "classes/"@ + query.class_name@)
                    + query_suffix(compiled_params(*query))
                &&& req.headers.deep_view() == header_model(
                    resolved_headers(
                        *self,
                        AuthOptions { use_master_key: query.use_master_key, session_token_override: None },
                    ),
                    true,
                )
                &&& req.body is None
            },
    {
        let mut endpoint = "classes/".to_owned();
        endpoint.append(query.class_name.as_str());
        let params = query.build_query_params();
        let opts = AuthOptions::master(query.uses_master_key());
        self.build_get_request(endpoint.as_str(), &params, &opts)
    }

    /// Assembles a count request: limit forced to zero and `count=1`, against
    /// the query's collection.
    pub fn count_request(&self, query: &ParseQuery) -> (r: Result<CompiledRequest, ParseError>)
        ensures
            r is Err <==> query.use_master_key && self.master_key is None,
            r matches Err(e) ==> e.kind == ErrorKind::MasterKeyRequired,
            r matches Ok(req) ==> {
                &&& req.method == HttpMethod::Get
                &&& req.url@ == request_url_of(self.server_url@, "classes/"@ + query.class_name@)
                    + query_suffix(
                    compiled_params(ParseQuery { limit: Some(0i64), ..*query }).push(
                        ("count"@, "1"@),
                    ),
                )
                &&& req.headers.deep_view() == header_model(
                    resolved_headers(
                        *self,
                        AuthOptions { use_master_key: query.use_master_key, session_token_override: None },
                    ),
                    true,
                )
                &&& req.body is None
            },
    {
        let mut endpoint = "classes/".to_owned();
        endpoint.append(query.class_name.as_str());
        let params = query.build_count_params();
        let opts = AuthOptions::master(query.uses_master_key());
        self.build_get_request(endpoint.as_str(), &params, &opts)
    }

    /// Assembles a distinct request: the aggregation pipeline against the
    /// query's collection.  Aggregation always runs with the master key,
    /// whatever the query's own flag says, and so fails without one.
    pub fn distinct_request(&self, query: &ParseQuery, field: &str) -> (r: Result<
        CompiledRequest,
        ParseError,
    >)
        ensures
            r is Err <==> self.master_key is None,
            r matches Err(e) ==> e.kind == ErrorKind::MasterKeyRequired,
            r matches Ok(req) ==> {
                &&& req.method == HttpMethod::Get
                &&& req.url@ == request_url_of(self.server_url@, "aggregate/"@ + query.class_name@)
                    + query_suffix(
                    seq![("pipeline"@, distinct_pipeline_text(query.conditions@, field@))],
                )
                &&& req.headers.deep_view() == header_model(
                    resolved_headers(
                        *self,
                        AuthOptions { use_master_key: true, session_token_override: None },
                    ),
                    true,
                )
                &&& req.body is None
            },
    {
        let mut endpoint = "aggregate/".to_owned();
        endpoint.append(query.class_name.as_str());
        let params = query.build_distinct_params(field);
        let opts = AuthOptions::master(true);
        self.build_get_request(endpoint.as_str(), &params, &opts)
    }

    /// Assembles an aggregation request: the caller's pipeline verbatim
    /// against the collection.  Aggregation always runs with the master key
    /// and so fails without one.
    pub fn aggregate_request(&self, class_name: &str, pipeline: &JsonValue) -> (r: Result<
        CompiledRequest,
        ParseError,
    >)
        ensures
            r is Err <==> self.master_key is None,
            r matches Err(e) ==> e.kind == ErrorKind::MasterKeyRequired,
            r matches Ok(req) ==> {
                &&& req.method == HttpMethod::Get
                &&& req.url@ == request_url_of(self.server_url@, "aggregate/"@ + class_name@)
                    + query_suffix(seq![("pipeline"@, json_text(*pipeline))])
                &&& req.headers.deep_view() == header_model(
                    resolved_headers(
                        *self,
                        AuthOptions { use_master_key: true, session_token_override: None },
                    ),
                    true,
                )
                &&& req.body is None
            },
    {
        let mut endpoint = "aggregate/".to_owned();
        endpoint.append(class_name);
        let params = aggregate_params(pipeline);
        let opts = AuthOptions::master(true);
        self.build_get_request(endpoint.as_str(), &params, &opts)
    }

    /// Assembles a fetch of one record by identifier; the query's compiled
    /// parameters ride along.
    pub fn get_object_request(&self, query: &ParseQuery, object_id: &str) -> (r: Result<
        CompiledRequest,
        ParseError,
    >)
        ensures
            r is Err <==> query.use_master_key && self.master_key is None,
            r matches Err(e) ==> e.kind == ErrorKind::MasterKeyRequired,
            r matches Ok(req) ==> {
                &&& req.method == HttpMethod::Get
                &&& req.url@ == request_url_of(
                    self.server_url@,
                    "classes/"@ + query.class_name@ + seq!['/'] + object_id@,
                ) + query_suffix(compiled_params(*query))
                &&& req.headers.deep_view() == header_model(
                    resolved_headers(
                        *self,
                        AuthOptions { use_master_key: query.use_master_key, session_token_override: None },
                    ),
                    true,
                )
                &&& req.body is None
            },
    {
        let mut endpoint = "classes/".to_owned();
        endpoint.append(query.class_name.as_str());
        crate::json::push_char(&mut endpoint, '/');
        endpoint.append(object_id);
        proof {
            assert(endpoint@ =~= "classes/"@ + query.class_name@ + seq!['/'] + object_id@);
        }
        let params = query.build_query_params();
        let opts = AuthOptions::master(query.uses_master_key());
        self.build_get_request(endpoint.as_str(), &params, &opts)
    }

    /// Assembles a first-result request: the query with its limit forced to
    /// one.
    pub fn first_request(&self, query: &ParseQuery) -> (r: Result<CompiledRequest, ParseError>)
        ensures
            r is Err <==> query.use_master_key && self.master_key is None,
            r matches Err(e) ==> e.kind == ErrorKind::MasterKeyRequired,
            r matches Ok(req) ==> {
                &&& req.method == HttpMethod::Get
                &&& req.url@ == request_url_of(self.server_url@, "classes/"@ + query.class_name@)
                    + query_suffix(compiled_params(ParseQuery { limit: Some(1i64), ..*query }))
                &&& req.headers.deep_view() == header_model(
                    resolved_headers(
                        *self,
                        AuthOptions { use_master_key: query.use_master_key, session_token_override: None },
                    ),
                    true,
                )
                &&& req.body is None
            },
    {
        let mut endpoint = "classes/".to_owned();
        endpoint.append(query.class_name.as_str());
        let params = query.build_first_params();
        let opts = AuthOptions::master(query.uses_master_key());
        self.build_get_request(endpoint.as_str(), &params, &opts)
    }
}

} // verus!
