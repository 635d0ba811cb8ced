//! The document model: a parsed JSON value held as plain data, and the three
//! aggregate weights that the size tree is built from.

use vstd::prelude::*;

verus! {

/// A parsed JSON document held as plain values: a number carries its canonical
/// decimal text, an object keeps its entries in the order they were given.
pub enum JsonValue {
    Null,
    Bool(bool),
    Num(String),
    Str(String),
    Arr(Vec<JsonValue>),
    Obj(Vec<(String, JsonValue)>),
}

/// Aggregate "byte weight" of a value: 0 for null, 4 for a boolean, the length
/// in characters of a number's decimal text or of a string, and the sum over
/// the elements or entry values of a container.
pub open spec fn byte_weight(v: JsonValue) -> nat
    decreases v,
{
    match v {
        JsonValue::Null => 0,
        JsonValue::Bool(_) => 4,
        JsonValue::Num(s) => s@.len(),
        JsonValue::Str(s) => s@.len(),
        JsonValue::Arr(es) => byte_weight_seq(es@),
        JsonValue::Obj(kvs) => byte_weight_entries(kvs@),
    }
}

pub open spec fn byte_weight_seq(s: Seq<JsonValue>) -> nat
    decreases s,
{
    if s.len() == 0 {
        0
    } else {
        byte_weight_seq(s.drop_last()) + byte_weight(s.last())
    }
}

pub open spec fn byte_weight_entries(s: Seq<(String, JsonValue)>) -> nat
    decreases s,
{
    if s.len() == 0 {
        0
    } else {
        byte_weight_entries(s.drop_last()) + byte_weight(s.last().1)
    }
}

/// Aggregate "structural weight" of a value: 0 for a leaf; for a container,
/// its number of direct elements plus the sum of its elements' weights.
pub open spec fn struct_weight(v: JsonValue) -> nat
    decreases v,
{
    match v {
        JsonValue::Null => 0,
        JsonValue::Bool(_) => 0,
        JsonValue::Num(_) => 0,
        JsonValue::Str(_) => 0,
        JsonValue::Arr(es) => es@.len() + struct_weight_seq(es@),
        JsonValue::Obj(kvs) => kvs@.len() + struct_weight_entries(kvs@),
    }
}

pub open spec fn struct_weight_seq(s: Seq<JsonValue>) -> nat
    decreases s,
{
    if s.len() == 0 {
        0
    } else {
        struct_weight_seq(s.drop_last()) + struct_weight(s.last())
    }
}

pub open spec fn struct_weight_entries(s: Seq<(String, JsonValue)>) -> nat
    decreases s,
{
    if s.len() == 0 {
        0
    } else {
        struct_weight_entries(s.drop_last()) + struct_weight(s.last().1)
    }
}

/// Aggregate key footprint: the character lengths of all object keys in the
/// subtree. A leaf keeps the inherited key length `ks`; an array sums its
/// elements' footprints (each reached without a key); an object sums, per
/// entry, the entry's own key length plus every key nested inside its value.
pub open spec fn key_weight(v: JsonValue, ks: nat) -> nat
    decreases v,
{
    match v {
        JsonValue::Null => ks,
        JsonValue::Bool(_) => ks,
        JsonValue::Num(_) => ks,
        JsonValue::Str(_) => ks,
        JsonValue::Arr(es) => key_weight_seq(es@),
        JsonValue::Obj(kvs) => entry_key_weights(kvs@),
    }
}

pub open spec fn key_weight_seq(s: Seq<JsonValue>) -> nat
    decreases s,
{
    if s.len() == 0 {
        0
    } else {
        key_weight_seq(s.drop_last()) + key_weight(s.last(), 0)
    }
}

pub open spec fn entry_key_weights(s: Seq<(String, JsonValue)>) -> nat
    decreases s,
{
    if s.len() == 0 {
        0
    } else {
        entry_key_weights(s.drop_last()) + s.last().0@.len() + key_weight(s.last().1, 0)
    }
}

/// All three weights of `v`, and of every value under it, fit in a `usize`;
/// the machine-side condition under which the tree builder cannot overflow.
pub open spec fn weights_fit(v: JsonValue, ks: nat) -> bool
    decreases v,
{
    &&& byte_weight(v) <= usize::MAX
    &&& struct_weight(v) <= usize::MAX
    &&& key_weight(v, ks) <= usize::MAX
    &&& match v {
        JsonValue::Arr(es) => forall|i: int|
            0 <= i < es@.len() ==> weights_fit(#[trigger] es@[i], 0),
        JsonValue::Obj(kvs) => forall|i: int|
            0 <= i < kvs@.len() ==> weights_fit(#[trigger] kvs@[i].1, kvs@[i].0@.len()),
        _ => true,
    }
}

pub proof fn lemma_byte_seq_take_step(s: Seq<JsonValue>, i: int)
    requires
        0 <= i < s.len(),
    ensures
        byte_weight_seq(s.take(i + 1)) == byte_weight_seq(s.take(i)) + byte_weight(s[i]),
{
    assert(s.take(i + 1).drop_last() =~= s.take(i));
    assert(s.take(i + 1).last() == s[i]);
}

pub proof fn lemma_byte_seq_take_le(s: Seq<JsonValue>, i: int)
    requires
        0 <= i <= s.len(),
    ensures
        byte_weight_seq(s.take(i)) <= byte_weight_seq(s),
    decreases s.len() - i,
{
    if i == s.len() {
        assert(s.take(i) =~= s);
    } else {
        lemma_byte_seq_take_step(s, i);
        lemma_byte_seq_take_le(s, i + 1);
    }
}

pub proof fn lemma_byte_entries_take_step(s: Seq<(String, JsonValue)>, i: int)
    requires
        0 <= i < s.len(),
    ensures
        byte_weight_entries(s.take(i + 1)) == byte_weight_entries(s.take(i)) + byte_weight(
            s[i].1,
        ),
{
    assert(s.take(i + 1).drop_last() =~= s.take(i));
    assert(s.take(i + 1).last() == s[i]);
}

pub proof fn lemma_byte_entries_take_le(s: Seq<(String, JsonValue)>, i: int)
    requires
        0 <= i <= s.len(),
    ensures
        byte_weight_entries(s.take(i)) <= byte_weight_entries(s),
    decreases s.len() - i,
{
    if i == s.len() {
        assert(s.take(i) =~= s);
    } else {
        lemma_byte_entries_take_step(s, i);
        lemma_byte_entries_take_le(s, i + 1);
    }
}

pub proof fn lemma_struct_seq_take_step(s: Seq<JsonValue>, i: int)
    requires
        0 <= i < s.len(),
    ensures
        struct_weight_seq(s.take(i + 1)) == struct_weight_seq(s.take(i)) + struct_weight(s[i]),
{
    assert(s.take(i + 1).drop_last() =~= s.take(i));
    assert(s.take(i + 1).last() == s[i]);
}

pub proof fn lemma_struct_seq_take_le(s: Seq<JsonValue>, i: int)
    requires
        0 <= i <= s.len(),
    ensures
        struct_weight_seq(s.take(i)) <= struct_weight_seq(s),
    decreases s.len() - i,
{
    if i == s.len() {
        assert(s.take(i) =~= s);
    } else {
        lemma_struct_seq_take_step(s, i);
        lemma_struct_seq_take_le(s, i + 1);
    }
}

pub proof fn lemma_struct_entries_take_step(s: Seq<(String, JsonValue)>, i: int)
    requires
        0 <= i < s.len(),
    ensures
        struct_weight_entries(s.take(i + 1)) == struct_weight_entries(s.take(i)) + struct_weight(
            s[i].1,
        ),
{
    assert(s.take(i + 1).drop_last() =~= s.take(i));
    assert(s.take(i + 1).last() == s[i]);
}

pub proof fn lemma_struct_entries_take_le(s: Seq<(String, JsonValue)>, i: int)
    requires
        0 <= i <= s.len(),
    ensures
        struct_weight_entries(s.take(i)) <= struct_weight_entries(s),
    decreases s.len() - i,
{
    if i == s.len() {
        assert(s.take(i) =~= s);
    } else {
        lemma_struct_entries_take_step(s, i);
        lemma_struct_entries_take_le(s, i + 1);
    }
}

pub proof fn lemma_key_seq_take_step(s: Seq<JsonValue>, i: int)
    requires
        0 <= i < s.len(),
    ensures
        key_weight_seq(s.take(i + 1)) == key_weight_seq(s.take(i)) + key_weight(s[i], 0),
{
    assert(s.take(i + 1).drop_last() =~= s.take(i));
    assert(s.take(i + 1).last() == s[i]);
}

pub proof fn lemma_key_seq_take_le(s: Seq<JsonValue>, i: int)
    requires
        0 <= i <= s.len(),
    ensures
        key_weight_seq(s.take(i)) <= key_weight_seq(s),
    decreases s.len() - i,
{
    if i == s.len() {
        assert(s.take(i) =~= s);
    } else {
        lemma_key_seq_take_step(s, i);
        lemma_key_seq_take_le(s, i + 1);
    }
}

pub proof fn lemma_entry_keys_take_step(s: Seq<(String, JsonValue)>, i: int)
    requires
        0 <= i < s.len(),
    ensures
        entry_key_weights(s.take(i + 1)) == entry_key_weights(s.take(i)) + s[i].0@.len()
            + key_weight(s[i].1, 0),
{
    assert(s.take(i + 1).drop_last() =~= s.take(i));
    assert(s.take(i + 1).last() == s[i]);
}

pub proof fn lemma_entry_keys_take_le(s: Seq<(String, JsonValue)>, i: int)
    requires
        0 <= i <= s.len(),
    ensures
        entry_key_weights(s.take(i)) <= entry_key_weights(s),
    decreases s.len() - i,
{
    if i == s.len() {
        assert(s.take(i) =~= s);
    } else {
        lemma_entry_keys_take_step(s, i);
        lemma_entry_keys_take_le(s, i + 1);
    }
}

} // verus!
