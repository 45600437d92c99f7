//! A small tagged JSON document type with a verified text encoder.
//!
//! Constraint values, request bodies and decoded response rows are all held in
//! [`JsonValue`].  The encoder's output is pinned down, character for
//! character, by the spec function [`json_text`], so every contract that
//! mentions a serialized document can state the exact string produced.

use vstd::prelude::*;

use crate::text::{key_inserted, keys_sorted, lemma_key_inserted_props,
    lemma_lex_connected, lemma_lex_irrefl, lemma_lex_trans, lex_lt, str_lex_cmp};

verus! {

/// A JSON document.  The numbers this library itself builds are 64-bit
/// signed integers; a number the decoder reads that carries a fraction, an
/// exponent, or more magnitude than a signed 64-bit integer is held as its
/// verbatim lexeme and written back unchanged.
#[derive(Debug)]
pub enum JsonValue {
    Null,
    Bool(bool),
    Int(i64),
    /// A number carried as its verbatim lexeme.
    Num(String),
    Str(String),
    Arr(Vec<JsonValue>),
    Obj(Vec<(String, JsonValue)>),
}

/// The decimal digit character for `d % 10`.
pub open spec fn dec_digit(d: nat) -> char {
    ((48 + (d % 10)) as u8) as char
}

/// Decimal text of a natural number, most significant digit first.
pub open spec fn dec_text(n: nat) -> Seq<char>
    decreases n,
{
    if n < 10 {
        seq![dec_digit(n)]
    } else {
        dec_text(n / 10).push(dec_digit(n % 10))
    }
}

/// Decimal text of an integer, with a leading minus sign when negative.
pub open spec fn int_text(i: int) -> Seq<char> {
    if i < 0 {
        seq!['-'] + dec_text((-i) as nat)
    } else {
        dec_text(i as nat)
    }
}

/// Lower-case hexadecimal digit character for `d % 16`.
pub open spec fn hex_digit(d: nat) -> char {
    if d % 16 < 10 {
        ((48 + (d % 16)) as u8) as char
    } else {
        ((87 + (d % 16)) as u8) as char
    }
}

/// The escape sequence a character contributes inside a JSON string literal.
pub open spec fn esc_char(c: char) -> Seq<char> {
    if c == '"' {
        seq!['\\', '"']
    } else if c == '\\' {
        seq!['\\', '\\']
    } else if c == '\n' {
        seq!['\\', 'n']
    } else if c == '\r' {
        seq!['\\', 'r']
    } else if c == '\t' {
        seq!['\\', 't']
    } else if (c as u32) < 32 {
        seq!['\\', 'u', '0', '0', hex_digit(((c as u32) / 16) as nat), hex_digit(
            (c as u32) as nat,
        )]
    } else {
        seq![c]
    }
}

/// The body of a JSON string literal: each character replaced by its escape.
pub open spec fn esc_text(s: Seq<char>) -> Seq<char>
    decreases s.len(),
{
    if s.len() == 0 {
        Seq::empty()
    } else {
        esc_text(s.drop_last()) + esc_char(s.last())
    }
}

/// A JSON string literal: quoted, escaped text.
pub open spec fn str_text(s: Seq<char>) -> Seq<char> {
    seq!['"'] + esc_text(s) + seq!['"']
}

/// The exact serialized text of a JSON value.
pub open spec fn json_text(v: JsonValue) -> Seq<char>
    decreases v, 0int,
{
    match v {
        JsonValue::Null => seq!['n', 'u', 'l', 'l'],
        JsonValue::Bool(b) => if b {
            seq!['t', 'r', 'u', 'e']
        } else {
            seq!['f', 'a', 'l', 's', 'e']
        },
        JsonValue::Int(i) => int_text(i as int),
        JsonValue::Num(s) => s@,
        JsonValue::Str(s) => str_text(s@),
        JsonValue::Arr(items) => seq!['['] + arr_text(items@, 0) + seq![']'],
        JsonValue::Obj(entries) => seq!['{'] + obj_text(entries@, 0) + seq!['}'],
    }
}

/// Serialized text of the array elements `items[i..]`, comma separated.
pub open spec fn arr_text(items: Seq<JsonValue>, i: int) -> Seq<char>
    decreases items, items.len() - i,
{
    if i < 0 || i >= items.len() {
        Seq::empty()
    } else if i + 1 < items.len() {
        json_text(items[i]) + seq![','] + arr_text(items, i + 1)
    } else {
        json_text(items[i])
    }
}

/// Serialized text of the object members `entries[i..]`, comma separated.
pub open spec fn obj_text(entries: Seq<(String, JsonValue)>, i: int) -> Seq<char>
    decreases entries, entries.len() - i,
{
    if i < 0 || i >= entries.len() {
        Seq::empty()
    } else if i + 1 < entries.len() {
        str_text(entries[i].0@) + seq![':'] + json_text(entries[i].1) + seq![','] + obj_text(
            entries,
            i + 1,
        )
    } else {
        str_text(entries[i].0@) + seq![':'] + json_text(entries[i].1)
    }
}

/// Relies on `String::push`: appends one character to the string.
#[verifier::external_body]
pub(crate) fn push_char(s: &mut String, c: char)
    ensures
        final(s)@ == old(s)@.push(c),
{
    s.push(c);
}

/// Appends the decimal text of `n`.
fn append_u64(out: &mut String, n: u64)
    ensures
        final(out)@ == old(out)@ + dec_text(n as nat),
    decreases n,
{
    if n < 10 {
        push_char(out, (48 + n as u8) as char);
        assert(final(out)@ =~= old(out)@ + dec_text(n as nat));
    } else {
        append_u64(out, n / 10);
        push_char(out, (48 + (n % 10) as u8) as char);
        assert(final(out)@ =~= old(out)@ + dec_text(n as nat));
    }
}

/// Appends the decimal text of `i`, minus sign included when negative.
pub fn append_int(out: &mut String, i: i64)
    ensures
        final(out)@ == old(out)@ + int_text(i as int),
{
    if i < 0 {
        push_char(out, '-');
        let wide: i128 = i as i128;
        let magnitude: u64 = (-wide) as u64;
        append_u64(out, magnitude);
        assert(final(out)@ =~= old(out)@ + int_text(i as int));
    } else {
        append_u64(out, i as u64);
    }
}

/// The decimal text of `i` as a string.
pub fn int_string(i: i64) -> (r: String)
    ensures
        r@ == int_text(i as int),
{
    let mut out = String::new();
    append_int(&mut out, i);
    assert(out@ =~= int_text(i as int));
    out
}

/// The decimal text of `n` as a string.
pub fn usize_string(n: usize) -> (r: String)
    ensures
        r@ == dec_text(n as nat),
{
    let mut out = String::new();
    append_u64(&mut out, n as u64);
    assert(out@ =~= dec_text(n as nat));
    out
}

/// Appends the escape sequence of one string-literal character.
fn append_escaped_char(out: &mut String, c: char)
    ensures
        final(out)@ == old(out)@ + esc_char(c),
{
    let code: u32 = c as u32;
    if c == '"' {
        push_char(out, '\\');
        push_char(out, '"');
    } else if c == '\\' {
        push_char(out, '\\');
        push_char(out, '\\');
    } else if c == '\n' {
        push_char(out, '\\');
        push_char(out, 'n');
    } else if c == '\r' {
        push_char(out, '\\');
        push_char(out, 'r');
    } else if c == '\t' {
        push_char(out, '\\');
        push_char(out, 't');
    } else if code < 32 {
        push_char(out, '\\');
        push_char(out, 'u');
        push_char(out, '0');
        push_char(out, '0');
        let hi: u8 = (code / 16) as u8;
        let lo: u8 = (code % 16) as u8;
        push_char(out, if hi < 10 { (48 + hi) as char } else { (87 + hi) as char });
        push_char(out, if lo < 10 { (48 + lo) as char } else { (87 + lo) as char });
    } else {
        push_char(out, c);
    }
    assert(final(out)@ =~= old(out)@ + esc_char(c));
}

/// Appends the quoted, escaped JSON literal of `s`.
pub fn append_str_literal(out: &mut String, s: &str)
    ensures
        final(out)@ == old(out)@ + str_text(s@),
{
    push_char(out, '"');
    let n = s.unicode_len();
    let mut i: usize = 0;
    assert(s@.take(0int) =~= Seq::<char>::empty());
    while i < n
        invariant
            i <= n,
            n == s@.len(),
            out@ == old(out)@ + seq!['"'] + esc_text(s@.take(i as int)),
        decreases n - i,
    {
        let c = s.get_char(i);
        append_escaped_char(out, c);
        proof {
            assert(s@.take(i + 1int).drop_last() =~= s@.take(i as int));
            assert(s@.take(i + 1int).last() == s@[i as int]);
        }
        i = i + 1;
    }
    push_char(out, '"');
    proof {
        assert(s@.take(n as int) =~= s@);
        assert(final(out)@ =~= old(out)@ + str_text(s@));
    }
}

/// Appends the serialized text of `v`.
pub fn append_json(out: &mut String, v: &JsonValue)
    ensures
        final(out)@ == old(out)@ + json_text(*v),
    decreases *v, 0int,
{
    match v {
        JsonValue::Null => {
            push_char(out, 'n');
            push_char(out, 'u');
            push_char(out, 'l');
            push_char(out, 'l');
            assert(final(out)@ =~= old(out)@ + json_text(*v));
        },
        JsonValue::Bool(b) => {
            if *b {
                push_char(out, 't');
                push_char(out, 'r');
                push_char(out, 'u');
                push_char(out, 'e');
            } else {
                push_char(out, 'f');
                push_char(out, 'a');
                push_char(out, 'l');
                push_char(out, 's');
                push_char(out, 'e');
            }
            assert(final(out)@ =~= old(out)@ + json_text(*v));
        },
        JsonValue::Int(i) => {
            append_int(out, *i);
        },
        JsonValue::Num(s) => {
            out.append(s.as_str());
        },
        JsonValue::Str(s) => {
            append_str_literal(out, s.as_str());
        },
        JsonValue::Arr(items) => {
            push_char(out, '[');
            if items.len() > 0 {
                append_arr_tail(out, items, 0);
            }
            push_char(out, ']');
            assert(final(out)@ =~= old(out)@ + json_text(*v));
        },
        JsonValue::Obj(entries) => {
            push_char(out, '{');
            if entries.len() > 0 {
                append_obj_tail(out, entries, 0);
            }
            push_char(out, '}');
            assert(final(out)@ =~= old(out)@ + json_text(*v));
        },
    }
}

/// Appends the comma-separated text of `items[i..]`.
fn append_arr_tail(out: &mut String, items: &Vec<JsonValue>, i: usize)
    requires
        i < items@.len(),
    ensures
        final(out)@ == old(out)@ + arr_text(items@, i as int),
    decreases *items, items@.len() - i,
{
    let n = items.len();
    append_json(out, &items[i]);
    if i + 1 < n {
        push_char(out, ',');
        append_arr_tail(out, items, i + 1);
        assert(final(out)@ =~= old(out)@ + arr_text(items@, i as int));
    }
}

/// Appends the comma-separated text of the object members `entries[i..]`.
fn append_obj_tail(out: &mut String, entries: &Vec<(String, JsonValue)>, i: usize)
    requires
        i < entries@.len(),
    ensures
        final(out)@ == old(out)@ + obj_text(entries@, i as int),
    decreases *entries, entries@.len() - i,
{
    let n = entries.len();
    append_str_literal(out, entries[i].0.as_str());
    push_char(out, ':');
    append_json(out, &entries[i].1);
    if i + 1 < n {
        push_char(out, ',');
        append_obj_tail(out, entries, i + 1);
    }
    assert(final(out)@ =~= old(out)@ + obj_text(entries@, i as int));
}

/// Serializes an object's member list to its exact text: braces around the
/// comma-separated members, as given by [`obj_text`].
pub fn write_json_object(entries: &Vec<(String, JsonValue)>) -> (r: String)
    ensures
        r@ == seq!['{'] + obj_text(entries@, 0) + seq!['}'],
{
    let mut out = String::new();
    push_char(&mut out, '{');
    if entries.len() > 0 {
        append_obj_tail(&mut out, entries, 0);
    }
    push_char(&mut out, '}');
    assert(out@ =~= seq!['{'] + obj_text(entries@, 0) + seq!['}']);
    out
}

/// Serializes a JSON value to its exact text, as given by [`json_text`].
pub fn write_json(v: &JsonValue) -> (r: String)
    ensures
        r@ == json_text(*v),
{
    let mut out = String::new();
    append_json(&mut out, v);
    assert(out@ =~= json_text(*v));
    out
}

/// Deep structural equality of documents: the same shape, compared through
/// the views of the vectors and strings it is built from.
pub open spec fn json_equiv(a: JsonValue, b: JsonValue) -> bool
    decreases a, 0int,
{
    match a {
        JsonValue::Null => b is Null,
        JsonValue::Bool(x) => b matches JsonValue::Bool(y) && x == y,
        JsonValue::Int(x) => b matches JsonValue::Int(y) && x == y,
        JsonValue::Num(x) => b matches JsonValue::Num(y) && x@ == y@,
        JsonValue::Str(x) => b matches JsonValue::Str(y) && x@ == y@,
        JsonValue::Arr(xs) => b matches JsonValue::Arr(ys) && xs@.len() == ys@.len() && arr_equiv(
            xs@,
            ys@,
            0,
        ),
        JsonValue::Obj(xs) => b matches JsonValue::Obj(ys) && xs@.len() == ys@.len() && obj_equiv(
            xs@,
            ys@,
            0,
        ),
    }
}

/// Elementwise equivalence of the array elements from `i` on.
pub open spec fn arr_equiv(xs: Seq<JsonValue>, ys: Seq<JsonValue>, i: int) -> bool
    decreases xs, xs.len() - i,
{
    if i < 0 || i >= xs.len() {
        true
    } else {
        i < ys.len() && json_equiv(xs[i], ys[i]) && arr_equiv(xs, ys, i + 1)
    }
}

/// Memberwise equivalence of the object members from `i` on: equal keys and
/// equivalent values.
pub open spec fn obj_equiv(
    xs: Seq<(String, JsonValue)>,
    ys: Seq<(String, JsonValue)>,
    i: int,
) -> bool
    decreases xs, xs.len() - i,
{
    if i < 0 || i >= xs.len() {
        true
    } else {
        i < ys.len() && xs[i].0@ == ys[i].0@ && json_equiv(xs[i].1, ys[i].1) && obj_equiv(
            xs,
            ys,
            i + 1,
        )
    }
}

/// Elementwise equivalence follows from pointwise equivalence.
proof fn lemma_arr_equiv_intro(xs: Seq<JsonValue>, ys: Seq<JsonValue>, i: int)
    requires
        0 <= i <= xs.len(),
        xs.len() == ys.len(),
        forall|t: int| i <= t < xs.len() ==> json_equiv(#[trigger] xs[t], ys[t]),
    ensures
        arr_equiv(xs, ys, i),
    decreases xs.len() - i,
{
    if i < xs.len() {
        lemma_arr_equiv_intro(xs, ys, i + 1);
    }
}

/// Memberwise equivalence follows from pointwise key equality and value
/// equivalence.
proof fn lemma_obj_equiv_intro(xs: Seq<(String, JsonValue)>, ys: Seq<(String, JsonValue)>, i: int)
    requires
        0 <= i <= xs.len(),
        xs.len() == ys.len(),
        forall|t: int|
            i <= t < xs.len() ==> (#[trigger] xs[t]).0@ == ys[t].0@ && json_equiv(xs[t].1, ys[t].1),
    ensures
        obj_equiv(xs, ys, i),
    decreases xs.len() - i,
{
    if i < xs.len() {
        lemma_obj_equiv_intro(xs, ys, i + 1);
    }
}

/// Equivalent documents serialize to the same text.
pub proof fn lemma_equiv_text(a: JsonValue, b: JsonValue)
    requires
        json_equiv(a, b),
    ensures
        json_text(a) == json_text(b),
    decreases a, 1int,
{
    match a {
        JsonValue::Arr(xs) => {
            match b {
                JsonValue::Arr(ys) => {
                    lemma_arr_equiv_text(xs@, ys@, 0);
                },
                _ => {},
            }
        },
        JsonValue::Obj(xs) => {
            match b {
                JsonValue::Obj(ys) => {
                    lemma_obj_equiv_text(xs@, ys@, 0);
                },
                _ => {},
            }
        },
        _ => {},
    }
}

proof fn lemma_arr_equiv_text(xs: Seq<JsonValue>, ys: Seq<JsonValue>, i: int)
    requires
        xs.len() == ys.len(),
        arr_equiv(xs, ys, i),
    ensures
        arr_text(xs, i) == arr_text(ys, i),
    decreases xs, xs.len() - i, 0int,
{
    if 0 <= i < xs.len() {
        lemma_equiv_text(xs[i], ys[i]);
        lemma_arr_equiv_text(xs, ys, i + 1);
    }
}

proof fn lemma_obj_equiv_text(xs: Seq<(String, JsonValue)>, ys: Seq<(String, JsonValue)>, i: int)
    requires
        xs.len() == ys.len(),
        obj_equiv(xs, ys, i),
    ensures
        obj_text(xs, i) == obj_text(ys, i),
    decreases xs, xs.len() - i, 0int,
{
    if 0 <= i < xs.len() {
        lemma_equiv_text(xs[i].1, ys[i].1);
        lemma_obj_equiv_text(xs, ys, i + 1);
    }
}

/// Whether every number in the document is an integer node — the only form
/// of number the encoder itself produces.  A lexeme node is excluded: its
/// text can coincide with an integer's.
pub open spec fn int_numbered(v: JsonValue) -> bool
    decreases v, 0int,
{
    match v {
        JsonValue::Num(_) => false,
        JsonValue::Arr(items) => arr_int_numbered(items@, 0),
        JsonValue::Obj(entries) => obj_int_numbered(entries@, 0),
        _ => true,
    }
}

/// Every array element from `i` on carries only integer numbers.
pub open spec fn arr_int_numbered(items: Seq<JsonValue>, i: int) -> bool
    decreases items, items.len() - i,
{
    if i < 0 || i >= items.len() {
        true
    } else {
        int_numbered(items[i]) && arr_int_numbered(items, i + 1)
    }
}

/// Every member value from `i` on carries only integer numbers.
pub open spec fn obj_int_numbered(entries: Seq<(String, JsonValue)>, i: int) -> bool
    decreases entries, entries.len() - i,
{
    if i < 0 || i >= entries.len() {
        true
    } else {
        int_numbered(entries[i].1) && obj_int_numbered(entries, i + 1)
    }
}

proof fn lemma_arr_int_numbered_at(items: Seq<JsonValue>, t: int)
    requires
        arr_int_numbered(items, 0),
        0 <= t < items.len(),
    ensures
        int_numbered(items[t]),
{
    lemma_arr_int_numbered_from(items, 0, t);
}

proof fn lemma_arr_int_numbered_from(items: Seq<JsonValue>, i: int, t: int)
    requires
        arr_int_numbered(items, i),
        0 <= i <= t < items.len(),
    ensures
        int_numbered(items[t]),
    decreases t - i,
{
    if i < t {
        lemma_arr_int_numbered_from(items, i + 1, t);
    }
}

proof fn lemma_obj_int_numbered_at(entries: Seq<(String, JsonValue)>, t: int)
    requires
        obj_int_numbered(entries, 0),
        0 <= t < entries.len(),
    ensures
        int_numbered(entries[t].1),
{
    lemma_obj_int_numbered_from(entries, 0, t);
}

proof fn lemma_obj_int_numbered_from(entries: Seq<(String, JsonValue)>, i: int, t: int)
    requires
        obj_int_numbered(entries, i),
        0 <= i <= t < entries.len(),
    ensures
        int_numbered(entries[t].1),
    decreases t - i,
{
    if i < t {
        lemma_obj_int_numbered_from(entries, i + 1, t);
    }
}

/// The numeric value spelled by a digit run, most significant first.
pub open spec fn digits_val(ds: Seq<char>) -> nat
    decreases ds.len(),
{
    if ds.len() == 0 {
        0
    } else {
        digits_val(ds.drop_last()) * 10 + ((ds.last() as u32) - 48) as nat
    }
}

/// The code of a decimal digit character.
proof fn lemma_dec_digit_code(d: nat)
    ensures
        dec_digit(d) as u32 == 48 + d % 10,
        48 <= dec_digit(d) as u32 <= 57,
{
}

/// The decimal text of a natural number is non-empty and all digits.
proof fn lemma_dec_text_digits(n: nat)
    ensures
        dec_text(n).len() >= 1,
        forall|t: int| 0 <= t < dec_text(n).len() ==> 48 <= (#[trigger] dec_text(n)[t]) as u32
            <= 57,
    decreases n,
{
    lemma_dec_digit_code(n % 10);
    if n < 10 {
        lemma_dec_digit_code(n);
    } else {
        lemma_dec_text_digits(n / 10);
        assert(forall|t: int|
            0 <= t < dec_text(n / 10).len() ==> dec_text(n)[t] == dec_text(n / 10)[t]);
        assert(dec_text(n).last() == dec_digit(n % 10));
    }
}

/// The digit run of a natural number spells the number back.
proof fn lemma_dec_text_val(n: nat)
    ensures
        digits_val(dec_text(n)) == n,
    decreases n,
{
    lemma_dec_digit_code(n % 10);
    if n < 10 {
        reveal_with_fuel(digits_val, 2);
        lemma_dec_digit_code(n);
        assert(dec_text(n).drop_last() =~= Seq::<char>::empty());
        assert(dec_text(n).last() == dec_digit(n));
        assert(digits_val(dec_text(n)) == ((dec_digit(n) as u32) - 48) as nat);
    } else {
        lemma_dec_text_val(n / 10);
        assert(dec_text(n).drop_last() =~= dec_text(n / 10));
        assert(dec_text(n).last() == dec_digit(n % 10));
    }
}

/// A prefix of a digit run never spells more than the whole run.
proof fn lemma_digits_val_take_le(ds: Seq<char>, k: int)
    requires
        0 <= k <= ds.len(),
    ensures
        digits_val(ds.take(k)) <= digits_val(ds),
    decreases ds.len(),
{
    if k == ds.len() {
        assert(ds.take(k) =~= ds);
    } else {
        assert(ds.take(k) =~= ds.drop_last().take(k));
        lemma_digits_val_take_le(ds.drop_last(), k);
        assert(digits_val(ds.drop_last()) * 10 >= digits_val(ds.drop_last()));
    }
}

/// Extending a digit prefix by one digit multiplies by ten and adds it.
proof fn lemma_digits_val_take_snoc(ds: Seq<char>, k: int)
    requires
        0 <= k < ds.len(),
    ensures
        digits_val(ds.take(k + 1)) == digits_val(ds.take(k)) * 10 + ((ds[k] as u32) - 48) as nat,
{
    assert(ds.take(k + 1).drop_last() =~= ds.take(k));
    assert(ds.take(k + 1).last() == ds[k]);
}

/// The body of a string literal split at a boundary.
proof fn lemma_esc_split(s: Seq<char>, p: int)
    requires
        0 <= p <= s.len(),
    ensures
        esc_text(s) == esc_text(s.take(p)) + esc_text(s.skip(p)),
    decreases s.len() - p,
{
    if p == s.len() {
        assert(s.take(p) =~= s);
        assert(s.skip(p) =~= Seq::<char>::empty());
        assert(esc_text(s) =~= esc_text(s.take(p)) + esc_text(s.skip(p)));
    } else {
        lemma_esc_split(s, p + 1);
        assert(s.take(p + 1).drop_last() =~= s.take(p));
        assert(s.take(p + 1).last() == s[p]);
        assert(esc_text(s.take(p + 1)) == esc_text(s.take(p)) + esc_char(s[p]));
        lemma_esc_front(s.skip(p));
        assert(s.skip(p)[0] == s[p]);
        assert(s.skip(p).skip(1) =~= s.skip(p + 1));
        assert(esc_text(s) =~= esc_text(s.take(p)) + esc_text(s.skip(p)));
    }
}

/// The body of a string literal, first character forward.
proof fn lemma_esc_front(s: Seq<char>)
    requires
        s.len() > 0,
    ensures
        esc_text(s) == esc_char(s[0]) + esc_text(s.skip(1)),
    decreases s.len(),
{
    if s.len() == 1 {
        assert(s.drop_last() =~= Seq::<char>::empty());
        assert(s.skip(1) =~= Seq::<char>::empty());
        assert(esc_text(s) =~= esc_char(s[0]) + esc_text(s.skip(1)));
    } else {
        lemma_esc_front(s.drop_last());
        assert(s.drop_last()[0] == s[0]);
        assert(s.skip(1).drop_last() =~= s.drop_last().skip(1));
        assert(s.skip(1).last() == s.last());
        assert(esc_text(s) =~= esc_char(s[0]) + esc_text(s.skip(1)));
    }
}

/// The first character of a document's text names its variant: the variants'
/// lead characters are pairwise distinct, so the text's first character
/// decides the shape.
proof fn lemma_json_text_first(v: JsonValue)
    requires
        int_numbered(v),
    ensures
        json_text(v).len() >= 1,
        match v {
            JsonValue::Null => json_text(v)[0] == 'n',
            JsonValue::Bool(b) => json_text(v)[0] == if b {
                't'
            } else {
                'f'
            },
            JsonValue::Int(m) => json_text(v)[0] == '-' || 48 <= (json_text(v)[0] as u32) <= 57,
            JsonValue::Num(_) => true,
            JsonValue::Str(_) => json_text(v)[0] == '"',
            JsonValue::Arr(_) => json_text(v)[0] == '[',
            JsonValue::Obj(_) => json_text(v)[0] == '{',
        },
{
    match v {
        JsonValue::Int(m) => {
            if m >= 0 {
                lemma_dec_text_digits(m as nat);
            } else {
                lemma_dec_text_digits((-(m as int)) as nat);
            }
        },
        _ => {},
    }
}

/// Whether a character is JSON whitespace.
pub open spec fn char_is_ws(c: char) -> bool {
    c == ' ' || c == '\t' || c == '\n' || c == '\r'
}

/// Whether the character at `j`, if any, can end a number: a digit, a
/// decimal point or an exponent mark would extend it instead.
pub open spec fn number_delimited(cs: Seq<char>, j: int) -> bool {
    j == cs.len() || !(48 <= (cs[j] as u32) <= 57 || cs[j] == '.' || cs[j] == 'e' || cs[j] == 'E')
}

/// The canonical text of `v` — integer numbers only — stands at `i`, and the
/// character after it, if any, ends a number.
pub open spec fn canonical_at(cs: Seq<char>, i: int, v: JsonValue) -> bool {
    &&& int_numbered(v)
    &&& 0 <= i
    &&& i + json_text(v).len() <= cs.len()
    &&& cs.subrange(i, i + json_text(v).len()) == json_text(v)
    &&& number_delimited(cs, i + json_text(v).len())
}

/// The expected integer, when the expected document is an integer node.
pub open spec fn expect_int(e: Option<JsonValue>) -> Option<i64> {
    match e {
        Some(v) => match v {
            JsonValue::Int(m) => Some(m),
            _ => None,
        },
        None => None,
    }
}

/// The expected text, when the expected document is a string node.
pub open spec fn expect_str(e: Option<JsonValue>) -> Option<Seq<char>> {
    match e {
        Some(v) => match v {
            JsonValue::Str(s) => Some(s@),
            _ => None,
        },
        None => None,
    }
}

/// The magnitude of a signed 64-bit integer.
pub open spec fn int_abs(m: i64) -> nat {
    if m < 0 {
        (-(m as int)) as nat
    } else {
        m as nat
    }
}

/// Whether a character is JSON whitespace.
fn is_ws(c: char) -> (r: bool)
    ensures
        r == char_is_ws(c),
{
    c == ' ' || c == '\t' || c == '\n' || c == '\r'
}

/// Whether a character is a decimal digit, and its value.
fn digit_value(c: char) -> (r: Option<u64>)
    ensures
        r is Some <==> 48 <= (c as u32) <= 57,
        r matches Some(d) ==> d < 10 && d == ((c as u32) - 48) as u64,
{
    let code = c as u32;
    if 48 <= code && code <= 57 {
        Some((code - 48) as u64)
    } else {
        None
    }
}

/// The value of a hexadecimal digit, either case.
fn hex_value(c: char) -> (r: Option<u32>)
    ensures
        r is Some <==> (48 <= (c as u32) <= 57 || 97 <= (c as u32) <= 102 || 65 <= (c as u32)
            <= 70),
        r matches Some(d) ==> d < 16 && d == (if 48 <= (c as u32) <= 57 {
            (c as u32) - 48
        } else if 97 <= (c as u32) <= 102 {
            (c as u32) - 87
        } else {
            (c as u32) - 55
        }),
{
    let code = c as u32;
    if 48 <= code && code <= 57 {
        Some(code - 48)
    } else if 97 <= code && code <= 102 {
        Some(code - 87)
    } else if 65 <= code && code <= 70 {
        Some(code - 55)
    } else {
        None
    }
}

/// The first position at or after `i` that carries no whitespace.
fn skip_ws(cs: &Vec<char>, i: usize) -> (j: usize)
    requires
        i <= cs@.len(),
    ensures
        i <= j <= cs@.len(),
        forall|k: int| i <= k < j ==> char_is_ws(#[trigger] cs@[k]),
        j < cs@.len() ==> !char_is_ws(cs@[j as int]),
{
    let n = cs.len();
    let mut j = i;
    while j < n && is_ws(cs[j])
        invariant
            i <= j <= n,
            n == cs@.len(),
            forall|k: int| i <= k < j ==> char_is_ws(#[trigger] cs@[k]),
        decreases n - j,
    {
        j = j + 1;
    }
    j
}

/// Reads a string literal beginning at the opening quote; hands back the
/// decoded text and the position after the closing quote.  The escapes are
/// the encoder's, plus `\/`, `\b`, `\f` and `\uXXXX` for scalar values;
/// anything else fails.  Handed the text the literal was encoded from, it
/// decodes exactly that text.
#[verifier::rlimit(100)]
#[verifier::spinoff_prover]
fn parse_string(cs: &Vec<char>, i: usize, Ghost(expect): Ghost<Option<Seq<char>>>) -> (r: Option<
    (String, usize),
>)
    requires
        i < cs@.len(),
        cs@[i as int] == '"',
        expect matches Some(sv) ==> (i + str_text(sv).len() <= cs@.len() && cs@.subrange(
            i as int,
            i + str_text(sv).len(),
        ) == str_text(sv)),
    ensures
        r matches Some(p) ==> i < p.1 <= cs@.len(),
        expect matches Some(sv) ==> (r matches Some(p) && p.0@ == sv && p.1 == i + str_text(
            sv,
        ).len()),
{
    let n = cs.len();
    let mut out = String::new();
    let mut k = i + 1;
    proof {
        match expect {
            Some(sv) => {
                assert(out@ =~= sv.take(0int));
                assert(esc_text(sv.take(0int)) =~= Seq::<char>::empty()) by {
                    assert(sv.take(0int) =~= Seq::<char>::empty());
                }
            },
            None => {},
        }
    }
    #[verifier::loop_isolation(false)]
    loop
        invariant
            i < k <= n,
            expect matches Some(sv) ==> (out@.len() <= sv.len() && out@ == sv.take(
                out@.len() as int,
            ) && k == i + 1 + esc_text(sv.take(out@.len() as int)).len()),
        decreases n - k,
    {
        proof {
            match expect {
                Some(sv) => {
                    let p = out@.len() as int;
                    lemma_esc_split(sv, p);
                    assert(esc_text(sv.take(p)).len() <= esc_text(sv).len());
                    if p < sv.len() {
                        lemma_esc_front(sv.skip(p));
                        assert(sv.skip(p)[0] == sv[p]);
                        assert forall|t: int|
                            0 <= t < esc_char(sv[p]).len() implies cs@[k + t] == esc_char(sv[p])[t]
                        by {
                            assert(cs@[k + t] == cs@.subrange(
                                i as int,
                                i + str_text(sv).len(),
                            )[k + t - i]);
                            assert(str_text(sv)[k + t - i] == esc_text(sv)[esc_text(
                                sv.take(p),
                            ).len() + t]);
                            assert(esc_text(sv)[esc_text(sv.take(p)).len() + t] == (esc_char(sv[p])
                                + esc_text(sv.skip(p + 1)))[t]) by {
                                assert(esc_text(sv.skip(p)) == esc_char(sv[p]) + esc_text(
                                    sv.skip(p + 1),
                                )) by {
                                    assert(sv.skip(p).skip(1) =~= sv.skip(p + 1));
                                }
                            }
                        }
                        assert(k + esc_char(sv[p]).len() <= i + 1 + esc_text(sv).len()) by {
                            assert(esc_text(sv.skip(p)) == esc_char(sv[p]) + esc_text(
                                sv.skip(p + 1),
                            )) by {
                                assert(sv.skip(p).skip(1) =~= sv.skip(p + 1));
                                assert(sv.skip(p)[0] == sv[p]);
                            }
                        }
                        assert(i + 1 + esc_text(sv).len() < i + str_text(sv).len());
                    } else {
                        assert(sv.take(p) =~= sv);
                        assert(cs@[k as int] == cs@.subrange(i as int, i + str_text(sv).len())[
                            k - i]);
                        assert(str_text(sv)[k - i] == '"');
                    }
                },
                None => {},
            }
        }
        if k >= n {
            proof {
                match expect {
                    Some(sv) => {
                        assert(k < n);
                    },
                    None => {},
                }
            }
            return None;
        }
        let c = cs[k];
        if c == '"' {
            proof {
                match expect {
                    Some(sv) => {
                        let p = out@.len() as int;
                        if p < sv.len() {
                            assert(cs@[k as int] == esc_char(sv[p])[0]);
                            assert(esc_char(sv[p])[0] != '"');
                        }
                        assert(p == sv.len());
                        assert(out@ =~= sv);
                        assert(k + 1 == i + str_text(sv).len());
                    },
                    None => {},
                }
            }
            return Some((out, k + 1));
        }
        proof {
            match expect {
                Some(sv) => {
                    let p = out@.len() as int;
                    assert(p < sv.len()) by {
                        if p == sv.len() {
                            assert(cs@[k as int] == '"');
                        }
                    }
                },
                None => {},
            }
        }
        if c == '\\' {
            if k + 1 >= n {
                proof {
                    match expect {
                        Some(sv) => {
                            let p = out@.len() as int;
                            assert(esc_char(sv[p]).len() >= 2) by {
                                assert(esc_char(sv[p])[0] == '\\');
                            }
                            assert(k + 1 < n);
                        },
                        None => {},
                    }
                }
                return None;
            }
            let e = cs[k + 1];
            if e == 'u' {
                if n - k < 6 {
                    proof {
                        match expect {
                            Some(sv) => {
                                let p = out@.len() as int;
                                let pc = sv[p];
                                assert(cs@[k as int] == esc_char(pc)[0]);
                                assert(esc_char(pc)[0] == '\\');
                                assert(esc_char(pc).len() >= 2) by {
                                    if !(pc == '"' || pc == '\\' || pc == '\n' || pc == '\r' || pc
                                        == '\t' || (pc as u32) < 32) {
                                        assert(esc_char(pc)[0] == pc);
                                    }
                                }
                                assert(cs@[k + 1int] == esc_char(pc)[1]);
                                assert(esc_char(pc)[1] == 'u');
                                assert(esc_char(pc).len() == 6);
                                assert(n - k >= 6);
                            },
                            None => {},
                        }
                    }
                    return None;
                }
                proof {
                    match expect {
                        Some(sv) => {
                            let p = out@.len() as int;
                            let pc = sv[p];
                            assert(cs@[k as int] == esc_char(pc)[0]);
                            assert(esc_char(pc)[0] == '\\');
                            assert(esc_char(pc).len() >= 2) by {
                                if !(pc == '"' || pc == '\\' || pc == '\n' || pc == '\r' || pc
                                    == '\t' || (pc as u32) < 32) {
                                    assert(esc_char(pc)[0] == pc);
                                }
                            }
                            assert(cs@[k + 1int] == esc_char(pc)[1]);
                            assert(esc_char(pc)[1] == 'u');
                            assert((pc as u32) < 32 && pc != '\n' && pc != '\r' && pc != '\t');
                            assert(esc_char(pc).len() == 6);
                            assert(cs@[k + 2int] == '0' && cs@[k + 3int] == '0');
                            assert(cs@[k + 4int] == hex_digit(((pc as u32) / 16) as nat));
                            assert(cs@[k + 5int] == hex_digit((pc as u32) as nat));
                            assert(48 <= (hex_digit(((pc as u32) / 16) as nat) as u32) <= 57 || 97
                                <= (hex_digit(((pc as u32) / 16) as nat) as u32) <= 102);
                            assert(48 <= (hex_digit((pc as u32) as nat) as u32) <= 57 || 97 <= (
                            hex_digit((pc as u32) as nat) as u32) <= 102);
                        },
                        None => {},
                    }
                }
                let h1 = hex_value(cs[k + 2]);
                let h2 = hex_value(cs[k + 3]);
                let h3 = hex_value(cs[k + 4]);
                let h4 = hex_value(cs[k + 5]);
                let code: u32 = match (h1, h2, h3, h4) {
                    (Some(a), Some(b), Some(c2), Some(d)) => a * 4096 + b * 256 + c2 * 16 + d,
                    _ => {
                        proof {
                            match expect {
                                Some(sv) => {
                                    assert(h1 is Some && h2 is Some && h3 is Some && h4 is Some);
                                },
                                None => {},
                            }
                        }
                        return None;
                    },
                };
                proof {
                    match expect {
                        Some(sv) => {
                            let pc = sv[out@.len() as int];
                            assert(code == pc as u32) by {
                                assert((pc as u32) / 16 < 2);
                                assert((pc as u32) == ((pc as u32) / 16) * 16 + (pc as u32) % 16);
                            }
                            vstd::utf8::char_is_scalar(pc);
                        },
                        None => {},
                    }
                }
                match crate::outside::char_from_u32(code) {
                    Some(decoded) => {
                        proof {
                            match expect {
                                Some(sv) => {
                                    let p = out@.len() as int;
                                    let pc = sv[p];
                                    vstd::utf8::char_u32_cast(decoded, decoded as u32);
                                    vstd::utf8::char_u32_cast(pc, pc as u32);
                                    assert(decoded == pc);
                                    assert(sv.take(p + 1).drop_last() =~= sv.take(p));
                                    assert(sv.take(p + 1).last() == sv[p]);
                                    assert(esc_text(sv.take(p + 1)) == esc_text(sv.take(p))
                                        + esc_char(sv[p]));
                                    assert(out@.push(pc) =~= sv.take(p + 1));
                                },
                                None => {},
                            }
                        }
                        push_char(&mut out, decoded);
                    },
                    None => {
                        proof {
                            match expect {
                                Some(sv) => {
                                    assert(false);
                                },
                                None => {},
                            }
                        }
                        return None;
                    },
                }
                k = k + 6;
            } else {
                proof {
                    match expect {
                        Some(sv) => {
                            let p = out@.len() as int;
                            let pc = sv[p];
                            assert(esc_char(pc)[0] == '\\');
                            assert(esc_char(pc).len() == 2);
                            assert(cs@[k + 1int] == esc_char(pc)[1]);
                        },
                        None => {},
                    }
                }
                let decoded: char = if e == '"' {
                    '"'
                } else if e == '\\' {
                    '\\'
                } else if e == '/' {
                    '/'
                } else if e == 'n' {
                    '\n'
                } else if e == 'r' {
                    '\r'
                } else if e == 't' {
                    '\t'
                } else if e == 'b' {
                    '\u{8}'
                } else if e == 'f' {
                    '\u{c}'
                } else {
                    proof {
                        match expect {
                            Some(sv) => {
                                let pc = sv[out@.len() as int];
                                assert(esc_char(pc)[1] == '"' || esc_char(pc)[1] == '\\'
                                    || esc_char(pc)[1] == 'n' || esc_char(pc)[1] == 'r' || esc_char(
                                    pc,
                                )[1] == 't');
                            },
                            None => {},
                        }
                    }
                    return None;
                };
                proof {
                    match expect {
                        Some(sv) => {
                            let p = out@.len() as int;
                            let pc = sv[p];
                            assert(decoded == pc);
                            assert(sv.take(p + 1).drop_last() =~= sv.take(p));
                            assert(sv.take(p + 1).last() == sv[p]);
                            assert(esc_text(sv.take(p + 1)) == esc_text(sv.take(p)) + esc_char(
                                sv[p],
                            ));
                            assert(out@.push(pc) =~= sv.take(p + 1));
                        },
                        None => {},
                    }
                }
                push_char(&mut out, decoded);
                k = k + 2;
            }
        } else if (c as u32) < 32 {
            proof {
                match expect {
                    Some(sv) => {
                        let pc = sv[out@.len() as int];
                        assert(cs@[k as int] == esc_char(pc)[0]);
                        assert((esc_char(pc)[0] as u32) >= 32);
                    },
                    None => {},
                }
            }
            return None;
        } else {
            proof {
                match expect {
                    Some(sv) => {
                        let p = out@.len() as int;
                        let pc = sv[p];
                        assert(esc_char(pc)[0] == c);
                        assert(c != '\\' && c != '"');
                        assert(pc == c) by {
                            if pc == '"' || pc == '\\' || pc == '\n' || pc == '\r' || pc == '\t'
                                || (pc as u32) < 32 {
                                assert(esc_char(pc)[0] == '\\');
                            }
                        }
                        assert(esc_char(pc).len() == 1);
                        assert(sv.take(p + 1).drop_last() =~= sv.take(p));
                        assert(sv.take(p + 1).last() == sv[p]);
                        assert(esc_text(sv.take(p + 1)) == esc_text(sv.take(p)) + esc_char(sv[p]));
                        assert(out@.push(pc) =~= sv.take(p + 1));
                    },
                    None => {},
                }
            }
            push_char(&mut out, c);
            k = k + 1;
        }
    }
}

/// Reads a number beginning at `i`: an optional minus sign and decimal
/// digits, optionally a fraction and an exponent.  An integral value that
/// fits a signed 64-bit integer becomes an integer node; anything else is
/// carried as its verbatim lexeme.  Handed the integer the text was encoded
/// from, it reads back exactly that integer.
fn parse_number(cs: &Vec<char>, i: usize, Ghost(expect): Ghost<Option<i64>>) -> (r: Option<
    (JsonValue, usize),
>)
    requires
        i < cs@.len(),
        expect matches Some(m) ==> canonical_at(cs@, i as int, JsonValue::Int(m)),
    ensures
        r matches Some(p) ==> i < p.1 <= cs@.len(),
        expect matches Some(m) ==> r matches Some(p) && p.0 == JsonValue::Int(m) && p.1 == i
            + int_text(m as int).len(),
{
    let n = cs.len();
    proof {
        match expect {
            Some(m) => {
                lemma_dec_text_digits(int_abs(m));
                lemma_dec_text_val(int_abs(m));
                assert(json_text(JsonValue::Int(m)) == int_text(m as int));
                if m < 0 {
                    assert(int_text(m as int) == seq!['-'] + dec_text(int_abs(m)));
                    assert(cs@[i as int] == cs@.subrange(i as int, i + int_text(m as int).len())[0]);
                    assert(cs@[i as int] == '-');
                } else {
                    assert(int_text(m as int) == dec_text(int_abs(m)));
                    assert(cs@[i as int] == cs@.subrange(i as int, i + int_text(m as int).len())[0]);
                    assert(48 <= (cs@[i as int] as u32) <= 57);
                }
                let ds = dec_text(int_abs(m));
                let start = if m < 0 {
                    i + 1int
                } else {
                    i as int
                };
                assert forall|t: int| 0 <= t < ds.len() implies cs@[start + t] == ds[t] by {
                    assert(cs@[start + t] == cs@.subrange(i as int, i + int_text(m as int).len())[
                        start + t - i]);
                }
            },
            None => {},
        }
    }
    let negative = cs[i] == '-';
    let start = if negative {
        i + 1
    } else {
        i
    };
    if start >= n {
        proof {
            match expect {
                Some(m) => {
                    assert(start < n);
                },
                None => {},
            }
        }
        return None;
    }
    let mut magnitude: u64 = match digit_value(cs[start]) {
        Some(d) => d,
        None => {
            proof {
                match expect {
                    Some(m) => {
                        let ds = dec_text(int_abs(m));
                        assert(cs@[start as int] == ds[0]);
                        assert(48 <= (cs@[start as int] as u32) <= 57);
                    },
                    None => {},
                }
            }
            return None;
        },
    };
    let mut overflow = false;
    let mut k = start + 1;
    proof {
        match expect {
            Some(m) => {
                let ds = dec_text(int_abs(m));
                assert(magnitude == digits_val(ds.take(1int))) by {
                    lemma_digits_val_take_snoc(ds, 0);
                    assert(ds.take(0int) =~= Seq::<char>::empty());
                }
            },
            None => {},
        }
    }
    #[verifier::loop_isolation(false)]
    while k < n && digit_value(cs[k]).is_some()
        invariant
            start < k <= n,
            expect matches Some(m) ==> (negative == (m < 0) && start == i + (if m < 0 {
                1int
            } else {
                0int
            }) && k <= start + dec_text(int_abs(m)).len() && !overflow && magnitude == digits_val(
                dec_text(int_abs(m)).take(k - start),
            )),
        decreases n - k,
    {
        proof {
            match expect {
                Some(m) => {
                    let ds = dec_text(int_abs(m));
                    assert(k - start < ds.len()) by {
                        if k - start >= ds.len() {
                            assert(k == start + ds.len());
                            assert(k == i + int_text(m as int).len());
                            assert(number_delimited(cs@, k as int));
                        }
                    }
                    assert(cs@[k as int] == ds[k - start]);
                    assert(48 <= (cs@[k as int] as u32) <= 57);
                },
                None => {},
            }
        }
        let d = match digit_value(cs[k]) {
            Some(d) => d,
            None => {
                return None;
            },
        };
        if magnitude > u64::MAX / 10 || (magnitude == u64::MAX / 10 && d > u64::MAX % 10) {
            proof {
                match expect {
                    Some(m) => {
                        let ds = dec_text(int_abs(m));
                        assert(k - start < ds.len()) by {
                            assert(number_delimited(cs@, i + int_text(m as int).len()));
                        }
                        lemma_digits_val_take_snoc(ds, k - start);
                        lemma_digits_val_take_le(ds, k - start + 1);
                        assert(digits_val(ds.take(k - start + 1)) <= int_abs(m));
                        assert(magnitude * 10 + d <= u64::MAX);
                        assert(false);
                    },
                    None => {},
                }
            }
            overflow = true;
            magnitude = 0;
        } else {
            proof {
                match expect {
                    Some(m) => {
                        let ds = dec_text(int_abs(m));
                        assert(k - start < ds.len()) by {
                            assert(number_delimited(cs@, i + int_text(m as int).len()));
                        }
                        lemma_digits_val_take_snoc(ds, k - start);
                        assert(d == ((ds[k - start] as u32) - 48) as u64);
                    },
                    None => {},
                }
            }
            magnitude = magnitude * 10 + d;
        }
        k = k + 1;
    }
    proof {
        match expect {
            Some(m) => {
                let ds = dec_text(int_abs(m));
                assert(k == start + ds.len()) by {
                    if k < start + ds.len() {
                        assert(cs@[k as int] == ds[k - start]);
                        assert(48 <= (cs@[k as int] as u32) <= 57);
                        assert(k < n);
                    }
                }
                assert(ds.take(k - start) =~= ds);
                assert(magnitude == int_abs(m));
                assert(k == i + int_text(m as int).len());
                assert(number_delimited(cs@, k as int));
            },
            None => {},
        }
    }
    let mut fractional = false;
    if k < n && cs[k] == '.' {
        if k + 1 >= n {
            return None;
        }
        if digit_value(cs[k + 1]).is_none() {
            return None;
        }
        fractional = true;
        k = k + 2;
        while k < n && matches!(digit_value(cs[k]), Some(_))
            invariant
                i < k <= n,
                n == cs@.len(),
            decreases n - k,
        {
            k = k + 1;
        }
    }
    if k < n && (cs[k] == 'e' || cs[k] == 'E') {
        let mut e = k + 1;
        if e < n && (cs[e] == '+' || cs[e] == '-') {
            e = e + 1;
        }
        if e >= n {
            return None;
        }
        if digit_value(cs[e]).is_none() {
            return None;
        }
        fractional = true;
        k = e + 1;
        while k < n && matches!(digit_value(cs[k]), Some(_))
            invariant
                i < k <= n,
                n == cs@.len(),
            decreases n - k,
        {
            k = k + 1;
        }
    }
    if fractional || overflow {
        let mut lexeme = String::new();
        let mut t = i;
        while t < k
            invariant
                i <= t <= k <= n,
                n == cs@.len(),
            decreases k - t,
        {
            push_char(&mut lexeme, cs[t]);
            t = t + 1;
        }
        return Some((JsonValue::Num(lexeme), k));
    }
    if negative {
        if magnitude > 9223372036854775808u64 {
            return None;
        }
        if magnitude == 9223372036854775808u64 {
            proof {
                match expect {
                    Some(m) => {
                        assert(int_abs(m) == 9223372036854775808nat);
                        assert(m == i64::MIN);
                    },
                    None => {},
                }
            }
            Some((JsonValue::Int(i64::MIN), k))
        } else {
            proof {
                match expect {
                    Some(m) => {
                        assert(m < 0 && int_abs(m) < 9223372036854775808nat);
                        assert(-(magnitude as i64) == m);
                    },
                    None => {},
                }
            }
            Some((JsonValue::Int(-(magnitude as i64)), k))
        }
    } else {
        if magnitude > i64::MAX as u64 {
            proof {
                match expect {
                    Some(m) => {
                        assert(m >= 0 && int_abs(m) == m as nat);
                        assert(magnitude <= i64::MAX as u64);
                    },
                    None => {},
                }
            }
            return None;
        }
        proof {
            match expect {
                Some(m) => {
                    assert(magnitude as i64 == m);
                },
                None => {},
            }
        }
        Some((JsonValue::Int(magnitude as i64), k))
    }
}

/// Whether the fixed word stands at `i`.
fn word_at(cs: &Vec<char>, i: usize, word: &Vec<char>) -> (r: bool)
    requires
        i <= cs@.len(),
    ensures
        r <==> (i + word@.len() <= cs@.len() && cs@.subrange(i as int, i + word@.len()) == word@),
{
    let n = cs.len();
    let m = word.len();
    if n - i < m {
        return false;
    }
    let mut j: usize = 0;
    while j < m
        invariant
            j <= m,
            m == word@.len(),
            i + m <= n,
            n == cs@.len(),
            forall|t: int| 0 <= t < j ==> cs@[i + t] == word@[t],
        decreases m - j,
    {
        if cs[i + j] != word[j] {
            proof {
                assert(cs@.subrange(i as int, i + word@.len())[j as int] == cs@[i + j]);
            }
            return false;
        }
        j = j + 1;
    }
    proof {
        assert(cs@.subrange(i as int, i + word@.len()) =~= word@);
    }
    true
}

/// The expected elements, when the expected document is an array node.
pub open spec fn expect_arr(e: Option<JsonValue>) -> Seq<JsonValue> {
    match e {
        Some(v) => match v {
            JsonValue::Arr(xs) => xs@,
            _ => Seq::empty(),
        },
        None => Seq::empty(),
    }
}

/// The expected members, when the expected document is an object node.
pub open spec fn expect_obj(e: Option<JsonValue>) -> Seq<(String, JsonValue)> {
    match e {
        Some(v) => match v {
            JsonValue::Obj(es) => es@,
            _ => Seq::empty(),
        },
        None => Seq::empty(),
    }
}

/// Reads one JSON value beginning at `i`; hands back the value and the
/// position after it.  Any malformed text fails; every success consumes at
/// least one character.  Handed a document whose canonical text stands at
/// `i`, it reads back an equivalent document, ending exactly after that
/// text.
#[verifier::rlimit(100)]
#[verifier::spinoff_prover]
fn parse_value(cs: &Vec<char>, i: usize, Ghost(expect): Ghost<Option<JsonValue>>) -> (r: Option<
    (JsonValue, usize),
>)
    requires
        i <= cs@.len(),
        expect matches Some(v) ==> canonical_at(cs@, i as int, v),
    ensures
        r matches Some(p) ==> i < p.1 <= cs@.len(),
        expect matches Some(v) ==> (r matches Some(p) && json_equiv(p.0, v) && p.1 == i
            + json_text(v).len()),
    decreases cs@.len() - i,
{
    let n = cs.len();
    proof {
        match expect {
            Some(v) => {
                lemma_json_text_first(v);
                assert(cs@[i as int] == cs@.subrange(i as int, i + json_text(v).len())[0]);
                assert(cs@[i as int] == json_text(v)[0]);
                assert(i < n);
            },
            None => {},
        }
    }
    if i >= n {
        return None;
    }
    let c = cs[i];
    if c == '{' {
        let ghost es: Seq<(String, JsonValue)> = expect_obj(expect);
        let ghost jend: int = i + 1 + obj_text(es, 0).len();
        proof {
            match expect {
                Some(v) => {
                    assert(v is Obj);
                    assert(json_text(v) == seq!['{'] + obj_text(es, 0) + seq!['}']);
                    assert(json_text(v).len() == 2 + obj_text(es, 0).len());
                    assert(jend + 1 == i + json_text(v).len());
                    assert forall|t: int| 0 <= t < obj_text(es, 0).len() implies cs@[i + 1 + t]
                        == obj_text(es, 0)[t] by {
                        assert(cs@[i + 1 + t] == cs@.subrange(i as int, i + json_text(v).len())[1
                            + t]);
                        assert(json_text(v)[1 + t] == obj_text(es, 0)[t]);
                    }
                    assert(cs@[jend] == '}') by {
                        assert(cs@[jend] == cs@.subrange(i as int, i + json_text(v).len())[jend
                            - i]);
                        assert(json_text(v)[jend - i] == '}');
                    }
                    if es.len() > 0 {
                        assert(obj_text(es, 0)[0] == '"') by {
                            assert(str_text(es[0].0@)[0] == '"');
                        }
                        assert(cs@[i + 1int] == '"');
                    } else {
                        assert(jend == i + 1);
                        assert(cs@[i + 1int] == '}');
                    }
                },
                None => {},
            }
        }
        let mut entries: Vec<(String, JsonValue)> = Vec::new();
        let mut j = skip_ws(cs, i + 1);
        proof {
            match expect {
                Some(v) => {
                    assert(j == i + 1) by {
                        if j > i + 1 {
                            assert(char_is_ws(cs@[i + 1int]));
                        }
                    }
                },
                None => {},
            }
        }
        if j < n && cs[j] == '}' {
            proof {
                match expect {
                    Some(v) => {
                        assert(es.len() == 0) by {
                            if es.len() > 0 {
                                assert(cs@[j as int] == '"');
                            }
                        }
                        assert(json_equiv(JsonValue::Obj(entries), v));
                        assert(j + 1 == i + json_text(v).len());
                    },
                    None => {},
                }
            }
            return Some((JsonValue::Obj(entries), j + 1));
        }
        proof {
            match expect {
                Some(v) => {
                    assert(es.len() > 0) by {
                        if es.len() == 0 {
                            assert(cs@[j as int] == '}');
                            assert(j < n);
                        }
                    }
                },
                None => {},
            }
        }
        #[verifier::loop_isolation(false)]
        loop
            invariant
                i < j <= n,
                expect matches Some(v) ==> ({
                    &&& entries@.len() < es.len()
                    &&& (forall|t: int|
                        0 <= t < entries@.len() ==> (#[trigger] entries@[t]).0@ == es[t].0@
                            && json_equiv(entries@[t].1, es[t].1))
                    &&& j + obj_text(es, entries@.len() as int).len() == jend
                    &&& cs@.subrange(j as int, jend) == obj_text(es, entries@.len() as int)
                }),
            decreases n - j,
        {
            let ghost idx: int = entries@.len() as int;
            proof {
                match expect {
                    Some(v) => {
                        lemma_obj_int_numbered_at(es, idx);
                        let ktext = str_text(es[idx].0@);
                        let vtext = json_text(es[idx].1);
                        if idx + 1 < es.len() {
                            assert(obj_text(es, idx) == ktext + seq![':'] + vtext + seq![',']
                                + obj_text(es, idx + 1));
                        } else {
                            assert(obj_text(es, idx) == ktext + seq![':'] + vtext);
                        }
                        assert forall|t: int| 0 <= t < obj_text(es, idx).len() implies cs@[j + t]
                            == obj_text(es, idx)[t] by {
                            assert(cs@[j + t] == cs@.subrange(j as int, jend)[t]);
                        }
                        assert(cs@[j as int] == '"') by {
                            assert(obj_text(es, idx)[0] == ktext[0]);
                        }
                        assert(j < n);
                        assert(cs@.subrange(j as int, j + ktext.len()) =~= ktext);
                        assert(j + ktext.len() < jend);
                    },
                    None => {},
                }
            }
            if j >= n || cs[j] != '"' {
                proof {
                    match expect {
                        Some(v) => {
                            assert(false);
                        },
                        None => {},
                    }
                }
                return None;
            }
            let parsed_key = parse_string(
                cs,
                j,
                Ghost(
                    if expect is Some {
                        Some(es[idx].0@)
                    } else {
                        None
                    },
                ),
            );
            let (key, after_key) = match parsed_key {
                Some(p) => p,
                None => {
                    proof {
                        match expect {
                            Some(v) => {
                                assert(false);
                            },
                            None => {},
                        }
                    }
                    return None;
                },
            };
            proof {
                match expect {
                    Some(v) => {
                        let ktext = str_text(es[idx].0@);
                        assert(after_key == j + ktext.len());
                        assert(cs@[after_key as int] == ':') by {
                            assert(obj_text(es, idx)[ktext.len() as int] == ':');
                        }
                    },
                    None => {},
                }
            }
            let at_colon = skip_ws(cs, after_key);
            proof {
                match expect {
                    Some(v) => {
                        assert(at_colon == after_key) by {
                            if at_colon > after_key {
                                assert(char_is_ws(cs@[after_key as int]));
                            }
                        }
                    },
                    None => {},
                }
            }
            if at_colon >= n || cs[at_colon] != ':' {
                proof {
                    match expect {
                        Some(v) => {
                            assert(at_colon < jend + 1);
                            assert(false);
                        },
                        None => {},
                    }
                }
                return None;
            }
            proof {
                match expect {
                    Some(v) => {
                        let ktext = str_text(es[idx].0@);
                        let vtext = json_text(es[idx].1);
                        lemma_json_text_first(es[idx].1);
                        assert(cs@[at_colon + 1int] == vtext[0]) by {
                            assert(obj_text(es, idx)[ktext.len() + 1int] == vtext[0]);
                        }
                        assert(!char_is_ws(cs@[at_colon + 1int]));
                    },
                    None => {},
                }
            }
            let at_value = skip_ws(cs, at_colon + 1);
            proof {
                match expect {
                    Some(v) => {
                        let ktext = str_text(es[idx].0@);
                        let vtext = json_text(es[idx].1);
                        assert(at_value == at_colon + 1) by {
                            if at_value > at_colon + 1 {
                                assert(char_is_ws(cs@[at_colon + 1int]));
                            }
                        }
                        assert forall|t: int| 0 <= t < vtext.len() implies cs@[at_value + t]
                            == vtext[t] by {
                            assert(cs@[j + (ktext.len() + 1 + t)] == obj_text(es, idx)[ktext.len()
                                + 1 + t]);
                            assert(obj_text(es, idx)[ktext.len() + 1 + t] == vtext[t]);
                        }
                        assert(cs@.subrange(at_value as int, at_value + vtext.len()) =~= vtext);
                        if idx + 1 < es.len() {
                            assert(cs@[at_value + vtext.len()] == ',') by {
                                assert(obj_text(es, idx)[(ktext.len() + 1 + vtext.len()) as int] == ',');
                            }
                        } else {
                            assert(at_value + vtext.len() == jend);
                            assert(cs@[jend] == '}');
                        }
                        assert(number_delimited(cs@, at_value + vtext.len()));
                        assert(canonical_at(cs@, at_value as int, es[idx].1));
                    },
                    None => {},
                }
            }
            let parsed_value = parse_value(
                cs,
                at_value,
                Ghost(
                    if expect is Some {
                        Some(es[idx].1)
                    } else {
                        None
                    },
                ),
            );
            let (value, after_value) = match parsed_value {
                Some(p) => p,
                None => {
                    proof {
                        match expect {
                            Some(v) => {
                                assert(false);
                            },
                            None => {},
                        }
                    }
                    return None;
                },
            };
            entries.push((key, value));
            proof {
                match expect {
                    Some(v) => {
                        let vtext = json_text(es[idx].1);
                        assert(after_value == at_value + vtext.len());
                        if idx + 1 < es.len() {
                            assert(cs@[after_value as int] == ',');
                            assert(!char_is_ws(cs@[after_value as int]));
                        } else {
                            assert(after_value == jend);
                            assert(cs@[after_value as int] == '}');
                            assert(!char_is_ws(cs@[after_value as int]));
                        }
                    },
                    None => {},
                }
            }
            let at_sep = skip_ws(cs, after_value);
            proof {
                match expect {
                    Some(v) => {
                        assert(at_sep == after_value) by {
                            if at_sep > after_value {
                                assert(char_is_ws(cs@[after_value as int]));
                            }
                        }
                    },
                    None => {},
                }
            }
            if at_sep < n && cs[at_sep] == ',' {
                proof {
                    match expect {
                        Some(v) => {
                            assert(idx + 1 < es.len()) by {
                                if idx + 1 == es.len() {
                                    assert(cs@[at_sep as int] == '}');
                                }
                            }
                            let ktext = str_text(es[idx].0@);
                            let vtext = json_text(es[idx].1);
                            assert(obj_text(es, idx + 1)[0] == str_text(es[idx + 1].0@)[0]);
                            assert(cs@[at_sep + 1int] == '"') by {
                                assert(cs@[j + (ktext.len() + 1 + vtext.len() + 1)] == obj_text(
                                    es,
                                    idx,
                                )[(ktext.len() + 1 + vtext.len() + 1) as int]);
                            }
                            assert(!char_is_ws(cs@[at_sep + 1int]));
                        },
                        None => {},
                    }
                }
                let j2 = skip_ws(cs, at_sep + 1);
                proof {
                    match expect {
                        Some(v) => {
                            assert(j2 == at_sep + 1) by {
                                if j2 > at_sep + 1 {
                                    assert(char_is_ws(cs@[at_sep + 1int]));
                                }
                            }
                            let ktext = str_text(es[idx].0@);
                            let vtext = json_text(es[idx].1);
                            assert(j2 + obj_text(es, idx + 1).len() == jend);
                            assert forall|t: int|
                                0 <= t < obj_text(es, idx + 1).len() implies cs@[j2 + t]
                                == #[trigger] obj_text(es, idx + 1)[t] by {
                                assert(cs@[j + (ktext.len() + 1 + vtext.len() + 1 + t)]
                                    == obj_text(es, idx)[ktext.len() + 1 + vtext.len() + 1 + t]);
                                assert(obj_text(es, idx)[ktext.len() + 1 + vtext.len() + 1 + t]
                                    == obj_text(es, idx + 1)[t]);
                            }
                            assert(cs@.subrange(j2 as int, jend) =~= obj_text(es, idx + 1));
                        },
                        None => {},
                    }
                }
                j = j2;
            } else if at_sep < n && cs[at_sep] == '}' {
                proof {
                    match expect {
                        Some(v) => {
                            assert(idx + 1 == es.len()) by {
                                if idx + 1 < es.len() {
                                    assert(cs@[at_sep as int] == ',');
                                }
                            }
                            lemma_obj_equiv_intro(entries@, es, 0);
                            assert(json_equiv(JsonValue::Obj(entries), v));
                            assert(at_sep + 1 == i + json_text(v).len());
                        },
                        None => {},
                    }
                }
                return Some((JsonValue::Obj(entries), at_sep + 1));
            } else {
                proof {
                    match expect {
                        Some(v) => {
                            assert(false) by {
                                if idx + 1 < es.len() {
                                    assert(cs@[at_sep as int] == ',');
                                    assert(at_sep < jend + 1 <= n);
                                } else {
                                    assert(at_sep == jend);
                                    assert(cs@[jend] == '}');
                                    assert(jend < n);
                                }
                            }
                        },
                        None => {},
                    }
                }
                return None;
            }
        }
    } else if c == '[' {
        let ghost xs: Seq<JsonValue> = expect_arr(expect);
        let ghost jend: int = i + 1 + arr_text(xs, 0).len();
        proof {
            match expect {
                Some(v) => {
                    assert(v is Arr);
                    assert(json_text(v) == seq!['['] + arr_text(xs, 0) + seq![']']);
                    assert(json_text(v).len() == 2 + arr_text(xs, 0).len());
                    assert(jend + 1 == i + json_text(v).len());
                    assert forall|t: int| 0 <= t < arr_text(xs, 0).len() implies cs@[i + 1 + t]
                        == arr_text(xs, 0)[t] by {
                        assert(cs@[i + 1 + t] == cs@.subrange(i as int, i + json_text(v).len())[1
                            + t]);
                        assert(json_text(v)[1 + t] == arr_text(xs, 0)[t]);
                    }
                    assert(cs@[jend] == ']') by {
                        assert(cs@[jend] == cs@.subrange(i as int, i + json_text(v).len())[jend
                            - i]);
                        assert(json_text(v)[jend - i] == ']');
                    }
                    if xs.len() > 0 {
                        lemma_arr_int_numbered_at(xs, 0);
                        lemma_json_text_first(xs[0]);
                        assert(arr_text(xs, 0)[0] == json_text(xs[0])[0]);
                        assert(cs@[i + 1int] == json_text(xs[0])[0]);
                        assert(!char_is_ws(cs@[i + 1int]) && cs@[i + 1int] != ']');
                    } else {
                        assert(jend == i + 1);
                        assert(cs@[i + 1int] == ']');
                    }
                },
                None => {},
            }
        }
        let mut items: Vec<JsonValue> = Vec::new();
        let mut j = skip_ws(cs, i + 1);
        proof {
            match expect {
                Some(v) => {
                    assert(j == i + 1) by {
                        if j > i + 1 {
                            assert(char_is_ws(cs@[i + 1int]));
                        }
                    }
                },
                None => {},
            }
        }
        if j < n && cs[j] == ']' {
            proof {
                match expect {
                    Some(v) => {
                        assert(xs.len() == 0) by {
                            if xs.len() > 0 {
                                assert(cs@[j as int] != ']');
                            }
                        }
                        assert(json_equiv(JsonValue::Arr(items), v));
                        assert(j + 1 == i + json_text(v).len());
                    },
                    None => {},
                }
            }
            return Some((JsonValue::Arr(items), j + 1));
        }
        proof {
            match expect {
                Some(v) => {
                    assert(xs.len() > 0) by {
                        if xs.len() == 0 {
                            assert(cs@[j as int] == ']');
                            assert(j < n);
                        }
                    }
                },
                None => {},
            }
        }
        #[verifier::loop_isolation(false)]
        loop
            invariant
                i < j <= n,
                expect matches Some(v) ==> ({
                    &&& items@.len() < xs.len()
                    &&& (forall|t: int|
                        0 <= t < items@.len() ==> json_equiv(#[trigger] items@[t], xs[t]))
                    &&& j + arr_text(xs, items@.len() as int).len() == jend
                    &&& cs@.subrange(j as int, jend) == arr_text(xs, items@.len() as int)
                }),
            decreases n - j,
        {
            let ghost idx: int = items@.len() as int;
            proof {
                match expect {
                    Some(v) => {
                        lemma_arr_int_numbered_at(xs, idx);
                        let vtext = json_text(xs[idx]);
                        if idx + 1 < xs.len() {
                            assert(arr_text(xs, idx) == vtext + seq![','] + arr_text(xs, idx + 1));
                        } else {
                            assert(arr_text(xs, idx) == vtext);
                        }
                        assert forall|t: int| 0 <= t < arr_text(xs, idx).len() implies cs@[j + t]
                            == arr_text(xs, idx)[t] by {
                            assert(cs@[j + t] == cs@.subrange(j as int, jend)[t]);
                        }
                        assert(cs@.subrange(j as int, j + vtext.len()) =~= vtext);
                        if idx + 1 < xs.len() {
                            assert(cs@[j + vtext.len()] == ',') by {
                                assert(arr_text(xs, idx)[vtext.len() as int] == ',');
                            }
                        } else {
                            assert(j + vtext.len() == jend);
                            assert(cs@[jend] == ']');
                        }
                        assert(number_delimited(cs@, j + vtext.len()));
                        assert(canonical_at(cs@, j as int, xs[idx]));
                    },
                    None => {},
                }
            }
            let parsed_elt = parse_value(
                cs,
                j,
                Ghost(
                    if expect is Some {
                        Some(xs[idx])
                    } else {
                        None
                    },
                ),
            );
            let (value, after_value) = match parsed_elt {
                Some(p) => p,
                None => {
                    proof {
                        match expect {
                            Some(v) => {
                                assert(false);
                            },
                            None => {},
                        }
                    }
                    return None;
                },
            };
            items.push(value);
            proof {
                match expect {
                    Some(v) => {
                        let vtext = json_text(xs[idx]);
                        assert(after_value == j + vtext.len());
                        if idx + 1 < xs.len() {
                            assert(cs@[after_value as int] == ',');
                        } else {
                            assert(after_value == jend);
                            assert(cs@[after_value as int] == ']');
                        }
                        assert(!char_is_ws(cs@[after_value as int]));
                    },
                    None => {},
                }
            }
            let at_sep = skip_ws(cs, after_value);
            proof {
                match expect {
                    Some(v) => {
                        assert(at_sep == after_value) by {
                            if at_sep > after_value {
                                assert(char_is_ws(cs@[after_value as int]));
                            }
                        }
                    },
                    None => {},
                }
            }
            if at_sep < n && cs[at_sep] == ',' {
                proof {
                    match expect {
                        Some(v) => {
                            assert(idx + 1 < xs.len()) by {
                                if idx + 1 == xs.len() {
                                    assert(cs@[at_sep as int] == ']');
                                }
                            }
                            lemma_arr_int_numbered_at(xs, idx + 1);
                            lemma_json_text_first(xs[idx + 1]);
                            let vtext = json_text(xs[idx]);
                            assert(arr_text(xs, idx + 1)[0] == json_text(xs[idx + 1])[0]);
                            assert(cs@[at_sep + 1int] == arr_text(xs, idx + 1)[0]) by {
                                assert(cs@[j + (vtext.len() + 1)] == arr_text(xs, idx)[vtext.len()
                                    + 1int]);
                            }
                            assert(!char_is_ws(cs@[at_sep + 1int]));
                        },
                        None => {},
                    }
                }
                let j2 = skip_ws(cs, at_sep + 1);
                proof {
                    match expect {
                        Some(v) => {
                            assert(j2 == at_sep + 1) by {
                                if j2 > at_sep + 1 {
                                    assert(char_is_ws(cs@[at_sep + 1int]));
                                }
                            }
                            let vtext = json_text(xs[idx]);
                            assert(j2 + arr_text(xs, idx + 1).len() == jend);
                            assert forall|t: int|
                                0 <= t < arr_text(xs, idx + 1).len() implies cs@[j2 + t]
                                == #[trigger] arr_text(xs, idx + 1)[t] by {
                                assert(cs@[j + (vtext.len() + 1 + t)] == arr_text(xs, idx)[
                                vtext.len() + 1 + t]);
                                assert(arr_text(xs, idx)[vtext.len() + 1 + t] == arr_text(
                                    xs,
                                    idx + 1,
                                )[t]);
                            }
                            assert(cs@.subrange(j2 as int, jend) =~= arr_text(xs, idx + 1));
                        },
                        None => {},
                    }
                }
                j = j2;
            } else if at_sep < n && cs[at_sep] == ']' {
                proof {
                    match expect {
                        Some(v) => {
                            assert(idx + 1 == xs.len()) by {
                                if idx + 1 < xs.len() {
                                    assert(cs@[at_sep as int] == ',');
                                }
                            }
                            lemma_arr_equiv_intro(items@, xs, 0);
                            assert(json_equiv(JsonValue::Arr(items), v));
                            assert(at_sep + 1 == i + json_text(v).len());
                        },
                        None => {},
                    }
                }
                return Some((JsonValue::Arr(items), at_sep + 1));
            } else {
                proof {
                    match expect {
                        Some(v) => {
                            assert(false) by {
                                if idx + 1 < xs.len() {
                                    assert(cs@[at_sep as int] == ',');
                                    assert(at_sep < jend + 1 <= n);
                                } else {
                                    assert(at_sep == jend);
                                    assert(cs@[jend] == ']');
                                    assert(jend < n);
                                }
                            }
                        },
                        None => {},
                    }
                }
                return None;
            }
        }
    } else if c == '"' {
        proof {
            match expect {
                Some(v) => {
                    assert(v is Str);
                },
                None => {},
            }
        }
        match parse_string(cs, i, Ghost(expect_str(expect))) {
            Some((text, j)) => {
                proof {
                    match expect {
                        Some(v) => {
                            assert(json_equiv(JsonValue::Str(text), v));
                        },
                        None => {},
                    }
                }
                Some((JsonValue::Str(text), j))
            },
            None => {
                proof {
                    match expect {
                        Some(v) => {
                            assert(false);
                        },
                        None => {},
                    }
                }
                None
            },
        }
    } else if c == 't' {
        let word: Vec<char> = vec!['t', 'r', 'u', 'e'];
        proof {
            match expect {
                Some(v) => {
                    assert(v == JsonValue::Bool(true));
                    assert(json_text(v) =~= word@);
                    assert(cs@.subrange(i as int, i + word@.len()) == word@);
                },
                None => {},
            }
        }
        if word_at(cs, i, &word) {
            Some((JsonValue::Bool(true), i + 4))
        } else {
            proof {
                match expect {
                    Some(v) => {
                        assert(false);
                    },
                    None => {},
                }
            }
            None
        }
    } else if c == 'f' {
        let word: Vec<char> = vec!['f', 'a', 'l', 's', 'e'];
        proof {
            match expect {
                Some(v) => {
                    assert(v == JsonValue::Bool(false));
                    assert(json_text(v) =~= word@);
                    assert(cs@.subrange(i as int, i + word@.len()) == word@);
                },
                None => {},
            }
        }
        if word_at(cs, i, &word) {
            Some((JsonValue::Bool(false), i + 5))
        } else {
            proof {
                match expect {
                    Some(v) => {
                        assert(false);
                    },
                    None => {},
                }
            }
            None
        }
    } else if c == 'n' {
        let word: Vec<char> = vec!['n', 'u', 'l', 'l'];
        proof {
            match expect {
                Some(v) => {
                    assert(v is Null);
                    assert(json_text(v) =~= word@);
                    assert(cs@.subrange(i as int, i + word@.len()) == word@);
                },
                None => {},
            }
        }
        if word_at(cs, i, &word) {
            Some((JsonValue::Null, i + 4))
        } else {
            proof {
                match expect {
                    Some(v) => {
                        assert(false);
                    },
                    None => {},
                }
            }
            None
        }
    } else if c == '-' || digit_value(c).is_some() {
        proof {
            match expect {
                Some(v) => {
                    assert(v is Int);
                },
                None => {},
            }
        }
        match parse_number(cs, i, Ghost(expect_int(expect))) {
            Some((value, j)) => {
                proof {
                    match expect {
                        Some(v) => {
                            assert(json_equiv(value, v));
                        },
                        None => {},
                    }
                }
                Some((value, j))
            },
            None => {
                proof {
                    match expect {
                        Some(v) => {
                            assert(false);
                        },
                        None => {},
                    }
                }
                None
            },
        }
    } else {
        proof {
            match expect {
                Some(v) => {
                    assert(false);
                },
                None => {},
            }
        }
        None
    }
}

/// Decodes a whole JSON document: one value, surrounded by nothing but
/// whitespace.  Anything else — trailing text included — is no document.
/// Completeness for the library's own encoder: when the input is the
/// canonical text of a document whose numbers are integer nodes, decoding
/// succeeds and the decoded document carries exactly that text.
pub fn parse_json(s: &str) -> (r: Option<JsonValue>)
    ensures
        s@.len() == 0 ==> r is None,
        forall|v: JsonValue|
            int_numbered(v) && #[trigger] json_text(v) == s@ ==> (r matches Some(w) && json_text(w)
                == s@),
        (exists|v: JsonValue| int_numbered(v) && #[trigger] json_text(v) == s@) ==> (r matches Some(
            w,
        ) && (exists|v0: JsonValue|
            #![trigger json_equiv(w, v0)]
            int_numbered(v0) && json_text(v0) == s@ && json_equiv(w, v0))),
{
    let cs = crate::text::str_chars(s);
    let ghost expect: Option<JsonValue> = if exists|v: JsonValue|
        int_numbered(v) && json_text(v) == s@ {
        Some(choose|v: JsonValue| int_numbered(v) && json_text(v) == s@)
    } else {
        None
    };
    proof {
        match expect {
            Some(v0) => {
                assert(int_numbered(v0) && json_text(v0) == s@);
                lemma_json_text_first(v0);
                assert(cs@.subrange(0int, json_text(v0).len() as int) =~= json_text(v0));
                assert(canonical_at(cs@, 0int, v0));
                assert(!char_is_ws(cs@[0int]));
            },
            None => {},
        }
    }
    let start = skip_ws(&cs, 0);
    proof {
        match expect {
            Some(v0) => {
                assert(start == 0) by {
                    if start > 0 {
                        assert(char_is_ws(cs@[0int]));
                    }
                }
            },
            None => {},
        }
    }
    match parse_value(&cs, start, Ghost(expect)) {
        Some((value, j)) => {
            let end = skip_ws(&cs, j);
            if end == cs.len() {
                proof {
                    match expect {
                        Some(v0) => {
                            lemma_equiv_text(value, v0);
                        },
                        None => {},
                    }
                }
                Some(value)
            } else {
                proof {
                    match expect {
                        Some(v0) => {
                            assert(j == cs@.len());
                            assert(end == cs@.len());
                            assert(false);
                        },
                        None => {},
                    }
                }
                None
            }
        },
        None => {
            proof {
                match expect {
                    Some(v0) => {
                        assert(false);
                    },
                    None => {},
                }
            }
            None
        },
    }
}

/// The value under `key` in an association list, first match.
pub open spec fn obj_lookup(entries: Seq<(String, JsonValue)>, key: Seq<char>) -> Option<
    JsonValue,
>
    decreases entries.len(),
{
    if entries.len() == 0 {
        None
    } else if entries[0].0@ == key {
        Some(entries[0].1)
    } else {
        obj_lookup(entries.skip(1), key)
    }
}

/// The field names of a member map, in order.
pub open spec fn obj_keys(conds: Seq<(String, JsonValue)>) -> Seq<Seq<char>> {
    Seq::new(conds.len(), |i: int| conds[i].0@)
}

/// A member map with `pair` written into it: inserted at its sorted
/// position, or replacing the entry that carries the same field.
pub open spec fn obj_inserted(
    conds: Seq<(String, JsonValue)>,
    pair: (String, JsonValue),
) -> Seq<(String, JsonValue)>
    decreases conds.len(),
{
    if conds.len() == 0 {
        seq![pair]
    } else if lex_lt(pair.0@, conds[0].0@) {
        seq![pair] + conds
    } else if pair.0@ == conds[0].0@ {
        seq![pair] + conds.skip(1)
    } else {
        seq![conds[0]] + obj_inserted(conds.skip(1), pair)
    }
}

/// Writing one pair keeps the map sorted, sets exactly that field — last
/// write wins — and leaves every other field's value as it was.
pub proof fn lemma_obj_inserted_props(conds: Seq<(String, JsonValue)>, pair: (String, JsonValue))
    requires
        keys_sorted(obj_keys(conds)),
    ensures
        obj_keys(obj_inserted(conds, pair)) == key_inserted(obj_keys(conds), pair.0@),
        obj_lookup(obj_inserted(conds, pair), pair.0@) == Some(pair.1),
        forall|k: Seq<char>|
            k != pair.0@ ==> obj_lookup(obj_inserted(conds, pair), k) == obj_lookup(conds, k),
    decreases conds.len(),
{
    let r = obj_inserted(conds, pair);
    let key = pair.0@;
    if conds.len() == 0 {
        assert(obj_keys(r) =~= key_inserted(obj_keys(conds), key));
        assert forall|k: Seq<char>| k != key implies obj_lookup(r, k) == obj_lookup(conds, k) by {
            assert(r[0] == pair);
            assert(r.skip(1) =~= Seq::<(String, JsonValue)>::empty());
            assert(obj_lookup(r.skip(1), k) is None);
            assert(obj_lookup(r, k) is None);
        }
    } else if lex_lt(key, conds[0].0@) {
        assert(obj_keys(conds)[0] == conds[0].0@);
        assert(obj_keys(r) =~= seq![key] + obj_keys(conds));
        assert(key_inserted(obj_keys(conds), key) =~= seq![key] + obj_keys(conds));
        assert(r.skip(1) =~= conds);
        assert(r[0] == pair);
        assert forall|k: Seq<char>| k != key implies obj_lookup(r, k) == obj_lookup(conds, k) by {
            assert(r.skip(1) =~= conds);
        }
    } else if key == conds[0].0@ {
        assert(obj_keys(r) =~= obj_keys(conds));
        assert(key_inserted(obj_keys(conds), key) == obj_keys(conds)) by {
            assert(obj_keys(conds)[0] == conds[0].0@);
            lemma_lex_irrefl(key);
        }
        assert(r[0] == pair);
        assert(r.skip(1) =~= conds.skip(1));
        assert(obj_lookup(r, key) == Some(pair.1));
        assert forall|k: Seq<char>| k != key implies obj_lookup(r, k) == obj_lookup(conds, k) by {
            assert(r.skip(1) =~= conds.skip(1));
        }
    } else {
        let head_key = conds[0].0@;
        assert(obj_keys(conds)[0] == head_key);
        assert(lex_lt(head_key, key)) by {
            if !lex_lt(head_key, key) {
                lemma_lex_connected(key, head_key);
            }
        }
        assert(key != head_key) by {
            lemma_lex_irrefl(key);
        }
        let tail = conds.skip(1);
        assert(keys_sorted(obj_keys(tail))) by {
            assert(forall|i: int, j: int|
                0 <= i < j < tail.len() ==> obj_keys(tail)[i] == obj_keys(conds)[i + 1]
                    && obj_keys(tail)[j] == obj_keys(conds)[j + 1]);
        }
        lemma_obj_inserted_props(tail, pair);
        assert(r =~= seq![conds[0]] + obj_inserted(tail, pair));
        assert(obj_keys(r) =~= seq![head_key] + obj_keys(obj_inserted(tail, pair)));
        assert(obj_keys(tail) =~= obj_keys(conds).skip(1));
        assert(key_inserted(obj_keys(conds), key) == seq![head_key] + key_inserted(
            obj_keys(tail),
            key,
        ));
        assert(obj_keys(r) =~= key_inserted(obj_keys(conds), key));
        assert(r.skip(1) =~= obj_inserted(tail, pair));
        assert(r[0] == conds[0]);
        assert(obj_lookup(r, key) == Some(pair.1));
        assert forall|k: Seq<char>| k != key implies obj_lookup(r, k) == obj_lookup(conds, k) by {
            assert(r.skip(1) =~= obj_inserted(tail, pair));
            if k != head_key {
                assert(obj_lookup(r, k) == obj_lookup(obj_inserted(tail, pair), k));
                assert(obj_lookup(conds, k) == obj_lookup(tail, k));
            }
        }
    }
}

/// Writes one pair into a sorted member map, in place.
pub(crate) fn insert_pair(conds: &mut Vec<(String, JsonValue)>, pair: (String, JsonValue))
    requires
        keys_sorted(obj_keys(old(conds)@)),
    ensures
        final(conds)@ == obj_inserted(old(conds)@, pair),
{
    let ghost s = old(conds)@;
    proof {
        assert(s.subrange(0, 0int) =~= Seq::<(String, JsonValue)>::empty());
        assert(s.subrange(0, s.len() as int) =~= s);
        assert(obj_inserted(s, pair) =~= s.subrange(0, 0int) + obj_inserted(
            s.subrange(0, s.len() as int),
            pair,
        ));
    }
    let mut i: usize = 0;
    loop
        invariant
            s == old(conds)@,
            keys_sorted(obj_keys(s)),
            i <= conds.len(),
            conds@ == s,
            forall|j: int| 0 <= j < i ==> lex_lt(s[j].0@, pair.0@),
            obj_inserted(s, pair) == s.subrange(0, i as int) + obj_inserted(
                s.subrange(i as int, s.len() as int),
                pair,
            ),
        decreases conds.len() - i,
    {
        if i == conds.len() {
            conds.push(pair);
            proof {
                assert(s.subrange(i as int, s.len() as int) =~= Seq::<(String, JsonValue)>::empty());
                assert(s.subrange(0, i as int) =~= s);
                assert(conds@ =~= s + seq![pair]);
                assert(obj_inserted(s, pair) =~= s + seq![pair]);
            }
            return ;
        }
        let c = str_lex_cmp(pair.0.as_str(), conds[i].0.as_str());
        proof {
            let rest = s.subrange(i as int, s.len() as int);
            assert(rest[0] == s[i as int]);
        }
        if c < 0 {
            conds.insert(i, pair);
            proof {
                let rest = s.subrange(i as int, s.len() as int);
                assert(obj_inserted(rest, pair) =~= seq![pair] + rest);
                assert(conds@ =~= s.subrange(0, i as int) + (seq![pair] + rest));
            }
            return ;
        } else if c == 0 {
            let _old_entry = conds.remove(i);
            conds.insert(i, pair);
            proof {
                let rest = s.subrange(i as int, s.len() as int);
                assert(rest.skip(1) =~= s.subrange(i + 1int, s.len() as int));
                assert(obj_inserted(rest, pair) =~= seq![pair] + rest.skip(1));
                assert(conds@ =~= s.subrange(0, i as int) + (seq![pair] + rest.skip(1)));
            }
            return ;
        }
        proof {
            let rest = s.subrange(i as int, s.len() as int);
            let rest1 = s.subrange(i + 1int, s.len() as int);
            assert(rest.skip(1) =~= rest1);
            assert(lex_lt(s[i as int].0@, pair.0@));
            assert(pair.0@ != s[i as int].0@) by {
                lemma_lex_irrefl(pair.0@);
            }
            assert(!lex_lt(pair.0@, s[i as int].0@)) by {
                if lex_lt(pair.0@, s[i as int].0@) {
                    lemma_lex_trans(pair.0@, s[i as int].0@, pair.0@);
                    lemma_lex_irrefl(pair.0@);
                }
            }
            assert(obj_inserted(rest, pair) == seq![s[i as int]] + obj_inserted(rest1, pair));
            assert(s.subrange(0, i as int) + (seq![s[i as int]] + obj_inserted(rest1, pair))
                =~= s.subrange(0, i + 1int) + obj_inserted(rest1, pair));
        }
        i = i + 1;
    }
}

} // verus!
