//! The mathematical view of a JSON value, and the building of arrays and
//! objects whose view is known.
//!
//! An object's entries keep the order in which their keys were first
//! inserted; inserting a key that is present replaces its value in place.

use vstd::prelude::*;

use crate::json::{width, JsonValue};
use crate::text::{str_eq, string_eq};

verus! {

/// A JSON value with its texts as character sequences.
pub enum JsonView {
    Null,
    Bool(bool),
    Number(Seq<char>),
    Str(Seq<char>),
    Array(Seq<JsonView>),
    Object(Seq<(Seq<char>, JsonView)>),
}

/// The view of a value.
pub open spec fn jv(v: JsonValue) -> JsonView
    decreases v, width(v) + 1,
{
    match v {
        JsonValue::Null => JsonView::Null,
        JsonValue::Bool(b) => JsonView::Bool(b),
        JsonValue::Number(n) => JsonView::Number(n@),
        JsonValue::String(s) => JsonView::Str(s@),
        JsonValue::Array(items) => JsonView::Array(jv_items(v, items.len() as nat)),
        JsonValue::Object(m) => JsonView::Object(jv_entries(v, m.len() as nat)),
    }
}

/// The views of the first `k` items of an array.
pub open spec fn jv_items(v: JsonValue, k: nat) -> Seq<JsonView>
    decreases v, k,
{
    if k == 0 || k > width(v) {
        Seq::empty()
    } else {
        match v {
            JsonValue::Array(items) => {
                proof {
                    assert(decreases_to!(v => v->Array_0));
                    vstd::std_specs::vec::axiom_vec_index_decreases(items, k - 1);
                }
                jv_items(v, (k - 1) as nat).push(jv(items@[k - 1]))
            },
            _ => Seq::empty(),
        }
    }
}

/// The views of the first `k` entries of an object.
pub open spec fn jv_entries(v: JsonValue, k: nat) -> Seq<(Seq<char>, JsonView)>
    decreases v, k,
{
    if k == 0 || k > width(v) {
        Seq::empty()
    } else {
        match v {
            JsonValue::Object(m) => {
                proof {
                    assert(decreases_to!(v => v->Object_0));
                    vstd::std_specs::vec::axiom_vec_index_decreases(m, k - 1);
                    assert(decreases_to!(m@[k - 1] => m@[k - 1].1));
                }
                jv_entries(v, (k - 1) as nat).push((m@[k - 1].0@, jv(m@[k - 1].1)))
            },
            _ => Seq::empty(),
        }
    }
}

/// The views of a sequence of values.
pub open spec fn views(s: Seq<JsonValue>) -> Seq<JsonView> {
    s.map_values(|x: JsonValue| jv(x))
}

/// The views of a sequence of object entries.
pub open spec fn entry_views(s: Seq<(String, JsonValue)>) -> Seq<(Seq<char>, JsonView)> {
    s.map_values(|e: (String, JsonValue)| (e.0@, jv(e.1)))
}

proof fn lemma_jv_items(items: Vec<JsonValue>, k: nat)
    requires
        k <= items.len(),
    ensures
        jv_items(JsonValue::Array(items), k) == views(items@.take(k as int)),
    decreases k,
{
    if k > 0 {
        lemma_jv_items(items, (k - 1) as nat);
        assert(items@.take(k as int) =~= items@.take(k - 1).push(items@[k - 1]));
        assert(views(items@.take(k as int)) =~= views(items@.take(k - 1)).push(jv(items@[k - 1])));
    } else {
        assert(views(items@.take(0)) =~= Seq::empty());
    }
}

proof fn lemma_jv_entries(m: Vec<(String, JsonValue)>, k: nat)
    requires
        k <= m.len(),
    ensures
        jv_entries(JsonValue::Object(m), k) == entry_views(m@.take(k as int)),
    decreases k,
{
    if k > 0 {
        lemma_jv_entries(m, (k - 1) as nat);
        assert(m@.take(k as int) =~= m@.take(k - 1).push(m@[k - 1]));
        assert(entry_views(m@.take(k as int)) =~= entry_views(m@.take(k - 1)).push(
            (m@[k - 1].0@, jv(m@[k - 1].1)),
        ));
    } else {
        assert(entry_views(m@.take(0)) =~= Seq::empty());
    }
}

/// The view of an array is the views of its items.
pub proof fn lemma_jv_array(items: Vec<JsonValue>)
    ensures
        jv(JsonValue::Array(items)) == JsonView::Array(views(items@)),
{
    lemma_jv_items(items, items.len() as nat);
    assert(items@.take(items.len() as int) =~= items@);
}

/// The view of an object is the views of its entries.
pub proof fn lemma_jv_object(m: Vec<(String, JsonValue)>)
    ensures
        jv(JsonValue::Object(m)) == JsonView::Object(entry_views(m@)),
{
    lemma_jv_entries(m, m.len() as nat);
    assert(m@.take(m.len() as int) =~= m@);
}

/// The index of the first entry with key `k` at or after `i`.
pub open spec fn find_key(m: Seq<(Seq<char>, JsonView)>, k: Seq<char>, i: nat) -> Option<nat>
    decreases m.len() - i,
{
    if i >= m.len() {
        None
    } else if m[i as int].0 == k {
        Some(i)
    } else {
        find_key(m, k, i + 1)
    }
}

/// Whether an object has an entry with key `k`.
pub open spec fn has_entry(m: Seq<(Seq<char>, JsonView)>, k: Seq<char>) -> bool {
    find_key(m, k, 0) is Some
}

/// Setting key `k` to `v`: the entry of `k` takes the new value in place,
/// or a new entry is added at the end.
pub open spec fn obj_insert(m: Seq<(Seq<char>, JsonView)>, k: Seq<char>, v: JsonView) -> Seq<
    (Seq<char>, JsonView),
> {
    match find_key(m, k, 0) {
        Some(i) => m.update(i as int, (k, v)),
        None => m.push((k, v)),
    }
}

proof fn lemma_find_key_bound(m: Seq<(Seq<char>, JsonView)>, k: Seq<char>, i: nat)
    ensures
        find_key(m, k, i) matches Some(j) ==> i <= j < m.len() && m[j as int].0 == k,
    decreases m.len() - i,
{
    if i < m.len() && m[i as int].0 != k {
        lemma_find_key_bound(m, k, i + 1);
    }
}

/// Sets `key` to `value` in the entries of an object.
pub fn insert_entry(m: &mut Vec<(String, JsonValue)>, key: String, value: JsonValue)
    ensures
        entry_views(final(m)@) == obj_insert(entry_views(old(m)@), key@, jv(value)),
{
    let ghost before = entry_views(m@);
    let mut i: usize = 0;
    while i < m.len()
        invariant
            i <= m.len(),
            entry_views(m@) == before,
            before == entry_views(old(m)@),
            find_key(before, key@, 0) == find_key(before, key@, i as nat),
        decreases m.len() - i,
    {
        if string_eq(&m[i].0, &key) {
            proof {
                assert(before[i as int].0 == key@);
                assert(find_key(before, key@, i as nat) == Some(i as nat));
            }
            m[i] = (key, value);
            proof {
                assert(entry_views(m@) =~= before.update(i as int, (key@, jv(value))));
            }
            return;
        }
        proof {
            assert(before[i as int].0 != key@);
        }
        i = i + 1;
    }
    let ghost k = key@;
    m.push((key, value));
    proof {
        assert(entry_views(m@) =~= before.push((k, jv(value))));
    }
}

/// Appends `value` to the items of an array.
pub fn push_item(items: &mut Vec<JsonValue>, value: JsonValue)
    ensures
        views(final(items)@) == views(old(items)@).push(jv(value)),
{
    let ghost v = jv(value);
    items.push(value);
    proof {
        assert(views(items@) =~= views(old(items)@).push(v));
    }
}

/// Whether the entries of an object have the key `key`.
pub fn has_entry_of(m: &Vec<(String, JsonValue)>, key: &str) -> (r: bool)
    ensures
        r == has_entry(entry_views(m@), key@),
{
    let ghost v = entry_views(m@);
    let mut i: usize = 0;
    while i < m.len()
        invariant
            i <= m.len(),
            v == entry_views(m@),
            find_key(v, key@, 0) == find_key(v, key@, i as nat),
        decreases m.len() - i,
    {
        if str_eq(m[i].0.as_str(), key) {
            proof {
                assert(find_key(v, key@, i as nat) == Some(i as nat));
            }
            return true;
        }
        i = i + 1;
    }
    false
}

} // verus!
