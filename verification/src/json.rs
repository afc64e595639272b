//! JSON values as plain data, and the navigation the library does in them.
//!
//! An object is a list of entries; a lookup takes the first entry of a key.

use vstd::prelude::*;

use crate::combinations::Combo;
use crate::templates::{bindings_view, bindings_well_formed, substitute_parameters, Bindings};
use crate::text::{chars_eq, chars_of, copy_string, lit};
use crate::workflow_spec::subst;

verus! {

/// A JSON value. A number is held as its text.
#[derive(Debug, PartialEq)]
pub enum JsonValue {
    Null,
    Bool(bool),
    Number(String),
    String(String),
    Array(Vec<JsonValue>),
    Object(Vec<(String, JsonValue)>),
}

/// The value of the first entry named `key`.
pub open spec fn entries_get(m: Seq<(String, JsonValue)>, key: Seq<char>) -> Option<JsonValue>
    decreases m.len(),
{
    if m.len() == 0 {
        None
    } else if m[0].0@ == key {
        Some(m[0].1)
    } else {
        entries_get(m.drop_first(), key)
    }
}

/// The member `key` of an object; `None` for anything else.
pub open spec fn json_get(v: JsonValue, key: Seq<char>) -> Option<JsonValue> {
    match v {
        JsonValue::Object(m) => entries_get(m@, key),
        _ => None,
    }
}

pub open spec fn opt_get(o: Option<JsonValue>, key: Seq<char>) -> Option<JsonValue> {
    match o {
        Some(v) => json_get(v, key),
        None => None,
    }
}

/// The text of a string value.
pub open spec fn opt_str(o: Option<JsonValue>) -> Option<Seq<char>> {
    match o {
        Some(JsonValue::String(s)) => Some(s@),
        _ => None,
    }
}

/// The entries of an object value.
pub open spec fn opt_object(o: Option<JsonValue>) -> Option<Seq<(String, JsonValue)>> {
    match o {
        Some(JsonValue::Object(m)) => Some(m@),
        _ => None,
    }
}

/// Whether some entry is named `key`.
pub open spec fn has_key(m: Seq<(String, JsonValue)>, key: Seq<char>) -> bool {
    exists|i: int| 0 <= i < m.len() && (#[trigger] m[i]).0@ == key
}

pub proof fn lemma_entries_get_none(m: Seq<(String, JsonValue)>, key: Seq<char>)
    ensures
        entries_get(m, key) is None <==> !has_key(m, key),
    decreases m.len(),
{
    if m.len() > 0 {
        lemma_entries_get_none(m.drop_first(), key);
        if has_key(m, key) && m[0].0@ != key {
            let i = choose|i: int| 0 <= i < m.len() && (#[trigger] m[i]).0@ == key;
            assert(m.drop_first()[i - 1] == m[i]);
        }
        if has_key(m.drop_first(), key) {
            let i = choose|i: int| 0 <= i < m.len() - 1 && (#[trigger] m.drop_first()[i]).0@ == key;
            assert(m[i + 1] == m.drop_first()[i]);
        }
    }
}

impl JsonValue {
    /// The member `key` of an object (its first entry of that name).
    pub fn get(&self, key: &str) -> (r: Option<&JsonValue>)
        ensures
            match r {
                Some(x) => json_get(*self, key@) == Some(*x),
                None => json_get(*self, key@) is None,
            },
    {
        match self {
            JsonValue::Object(m) => {
                let k = chars_of(key);
                let mut i: usize = 0;
                proof {
                    assert(m@.skip(0) =~= m@);
                }
                while i < m.len()
                    invariant
                        i <= m.len(),
                        k@ == key@,
                        json_get(*self, key@) == entries_get(m@, key@),
                        entries_get(m@, key@) == entries_get(m@.skip(i as int), key@),
                    decreases m.len() - i,
                {
                    let name = chars_of(m[i].0.as_str());
                    proof {
                        assert(m@.skip(i as int)[0] == m@[i as int]);
                        assert(m@.skip(i as int).drop_first() =~= m@.skip(i + 1));
                    }
                    if chars_eq(&name, &k) {
                        return Some(&m[i].1);
                    }
                    i = i + 1;
                }
                None
            },
            _ => None,
        }
    }

    /// The text of a string value.
    pub fn as_str(&self) -> (r: Option<&str>)
        ensures
            match r {
                Some(s) => opt_str(Some(*self)) == Some(s@),
                None => opt_str(Some(*self)) is None,
            },
    {
        match self {
            JsonValue::String(s) => Some(s.as_str()),
            _ => None,
        }
    }

    /// The entries of an object value.
    pub fn as_object(&self) -> (r: Option<&Vec<(String, JsonValue)>>)
        ensures
            match r {
                Some(m) => opt_object(Some(*self)) == Some(m@),
                None => opt_object(Some(*self)) is None,
            },
    {
        match self {
            JsonValue::Object(m) => Some(m),
            _ => None,
        }
    }
}

/// Whether an object's entries name `key`.
pub fn contains_key(m: &Vec<(String, JsonValue)>, key: &str) -> (b: bool)
    ensures
        b == has_key(m@, key@),
{
    let k = chars_of(key);
    let mut i: usize = 0;
    while i < m.len()
        invariant
            i <= m.len(),
            k@ == key@,
            forall|j: int| 0 <= j < i ==> (#[trigger] m@[j]).0@ != key@,
        decreases m.len() - i,
    {
        let name = chars_of(m[i].0.as_str());
        if chars_eq(&name, &k) {
            return true;
        }
        i = i + 1;
    }
    false
}

/// The name of a value's JSON type.
pub open spec fn kind_text(v: JsonValue) -> Seq<char> {
    match v {
        JsonValue::Null => "null"@,
        JsonValue::Bool(_) => "boolean"@,
        JsonValue::Number(_) => "number"@,
        JsonValue::String(_) => "string"@,
        JsonValue::Array(_) => "array"@,
        JsonValue::Object(_) => "object"@,
    }
}

/// The name of a value's JSON type, as in messages.
pub fn json_value_kind(value: &JsonValue) -> (r: &'static str)
    ensures
        r@ == kind_text(*value),
{
    match value {
        JsonValue::Null => "null",
        JsonValue::Bool(_) => "boolean",
        JsonValue::Number(_) => "number",
        JsonValue::String(_) => "string",
        JsonValue::Array(_) => "array",
        JsonValue::Object(_) => "object",
    }
}

/// `b` is `a` with the same structure, numbers and keys, and every string
/// `s` replaced by `subst(s, c)`.
pub open spec fn strings_substituted(a: JsonValue, b: JsonValue, c: Combo) -> bool
    decreases a,
{
    match a {
        JsonValue::Null => b is Null,
        JsonValue::Bool(x) => b == JsonValue::Bool(x),
        JsonValue::Number(n) => (b matches JsonValue::Number(m) && m@ == n@),
        JsonValue::String(s) => (b matches JsonValue::String(t) && t@ == subst(s@, c)),
        JsonValue::Array(v) => (b matches JsonValue::Array(w) && w.len() == v.len() && forall|i: int|
            0 <= i < v.len() ==> strings_substituted(#[trigger] v@[i], w@[i], c)),
        JsonValue::Object(v) => (b matches JsonValue::Object(w) && w.len() == v.len() && forall|i: int|
            0 <= i < v.len() ==> (#[trigger] v@[i]).0@ == w@[i].0@ && strings_substituted(
                v@[i].1,
                w@[i].1,
                c,
            )),
    }
}

/// `b` holds the same JSON as `a`.
pub open spec fn json_same(a: JsonValue, b: JsonValue) -> bool
    decreases a,
{
    match a {
        JsonValue::Null => b is Null,
        JsonValue::Bool(x) => b == JsonValue::Bool(x),
        JsonValue::Number(n) => (b matches JsonValue::Number(m) && m@ == n@),
        JsonValue::String(s) => (b matches JsonValue::String(t) && t@ == s@),
        JsonValue::Array(v) => (b matches JsonValue::Array(w) && w.len() == v.len() && forall|i: int|
            0 <= i < v.len() ==> json_same(#[trigger] v@[i], w@[i])),
        JsonValue::Object(v) => (b matches JsonValue::Object(w) && w.len() == v.len() && forall|i: int|
            0 <= i < v.len() ==> (#[trigger] v@[i]).0@ == w@[i].0@ && json_same(v@[i].1, w@[i].1)),
    }
}

impl JsonValue {
    /// A copy of the value.
    pub fn copy(&self) -> (r: JsonValue)
        ensures
            json_same(*self, r),
        decreases self,
    {
        match self {
            JsonValue::Null => JsonValue::Null,
            JsonValue::Bool(b) => JsonValue::Bool(*b),
            JsonValue::Number(n) => JsonValue::Number(copy_string(n)),
            JsonValue::String(s) => JsonValue::String(copy_string(s)),
            JsonValue::Array(items) => {
                let mut out: Vec<JsonValue> = Vec::new();
                let mut i: usize = 0;
                while i < items.len()
                    invariant
                        i <= items.len(),
                        out.len() == i,
                        *self == JsonValue::Array(*items),
                        forall|k: int| 0 <= k < i ==> json_same(#[trigger] items@[k], out@[k]),
                    decreases items.len() - i,
                {
                    proof {
                        assert(decreases_to!(*self => (*self)->Array_0));
                        vstd::std_specs::vec::axiom_vec_index_decreases(*items, i as int);
                        assert(decreases_to!(*self => items@[i as int]));
                    }
                    let x = items[i].copy();
                    out.push(x);
                    i = i + 1;
                }
                JsonValue::Array(out)
            },
            JsonValue::Object(m) => {
                let mut out: Vec<(String, JsonValue)> = Vec::new();
                let mut i: usize = 0;
                while i < m.len()
                    invariant
                        i <= m.len(),
                        out.len() == i,
                        *self == JsonValue::Object(*m),
                        forall|k: int|
                            0 <= k < i ==> (#[trigger] m@[k]).0@ == out@[k].0@ && json_same(
                                m@[k].1,
                                out@[k].1,
                            ),
                    decreases m.len() - i,
                {
                    proof {
                        assert(decreases_to!(*self => (*self)->Object_0));
                        vstd::std_specs::vec::axiom_vec_index_decreases(*m, i as int);
                        assert(decreases_to!(m@[i as int] => m@[i as int].1));
                        assert(decreases_to!(*self => m@[i as int].1));
                    }
                    let x = m[i].1.copy();
                    out.push((copy_string(&m[i].0), x));
                    i = i + 1;
                }
                JsonValue::Object(out)
            },
        }
    }

    /// The value with the parameter tokens of every string substituted
    /// (keys, numbers and the structure are kept).
    pub fn substitute_parameters(&self, combo: &Bindings) -> (r: JsonValue)
        requires
            bindings_well_formed(combo@),
        ensures
            strings_substituted(*self, r, bindings_view(combo@)),
        decreases self,
    {
        match self {
            JsonValue::Null => JsonValue::Null,
            JsonValue::Bool(b) => JsonValue::Bool(*b),
            JsonValue::Number(n) => JsonValue::Number(copy_string(n)),
            JsonValue::String(s) => JsonValue::String(substitute_parameters(s.as_str(), combo)),
            JsonValue::Array(items) => {
                let mut out: Vec<JsonValue> = Vec::new();
                let mut i: usize = 0;
                while i < items.len()
                    invariant
                        i <= items.len(),
                        out.len() == i,
                        *self == JsonValue::Array(*items),
                        bindings_well_formed(combo@),
                        forall|k: int|
                            0 <= k < i ==> strings_substituted(
                                #[trigger] items@[k],
                                out@[k],
                                bindings_view(combo@),
                            ),
                    decreases items.len() - i,
                {
                    proof {
                        assert(decreases_to!(*self => (*self)->Array_0));
                        vstd::std_specs::vec::axiom_vec_index_decreases(*items, i as int);
                        assert(decreases_to!(*self => items@[i as int]));
                    }
                    let x = items[i].substitute_parameters(combo);
                    out.push(x);
                    i = i + 1;
                }
                JsonValue::Array(out)
            },
            JsonValue::Object(m) => {
                let mut out: Vec<(String, JsonValue)> = Vec::new();
                let mut i: usize = 0;
                while i < m.len()
                    invariant
                        i <= m.len(),
                        out.len() == i,
                        *self == JsonValue::Object(*m),
                        bindings_well_formed(combo@),
                        forall|k: int|
                            0 <= k < i ==> (#[trigger] m@[k]).0@ == out@[k].0@
                                && strings_substituted(m@[k].1, out@[k].1, bindings_view(combo@)),
                    decreases m.len() - i,
                {
                    proof {
                        assert(decreases_to!(*self => (*self)->Object_0));
                        vstd::std_specs::vec::axiom_vec_index_decreases(*m, i as int);
                        assert(decreases_to!(m@[i as int] => m@[i as int].1));
                        assert(decreases_to!(*self => m@[i as int].1));
                    }
                    let x = m[i].1.substitute_parameters(combo);
                    out.push((copy_string(&m[i].0), x));
                    i = i + 1;
                }
                JsonValue::Object(out)
            },
        }
    }
}

/// Holding the same JSON is transitive.
pub proof fn lemma_json_same_trans(a: JsonValue, b: JsonValue, c: JsonValue)
    requires
        json_same(a, b),
        json_same(b, c),
    ensures
        json_same(a, c),
    decreases a,
{
    match a {
        JsonValue::Array(v) => {
            let w = b->Array_0;
            let x = c->Array_0;
            assert forall|i: int| 0 <= i < v.len() implies json_same(#[trigger] v@[i], x@[i]) by {
                assert(json_same(w@[i], x@[i]));
                lemma_json_same_trans(v@[i], w@[i], x@[i]);
            }
        },
        JsonValue::Object(v) => {
            let w = b->Object_0;
            let x = c->Object_0;
            assert forall|i: int| 0 <= i < v.len() implies (#[trigger] v@[i]).0@ == x@[i].0@
                && json_same(v@[i].1, x@[i].1) by {
                assert(w@[i].0@ == x@[i].0@ && json_same(w@[i].1, x@[i].1));
                lemma_json_same_trans(v@[i].1, w@[i].1, x@[i].1);
            }
        },
        _ => {},
    }
}

/// Substituting in a copy is substituting in the original.
pub proof fn lemma_substituted_through_same(a: JsonValue, b: JsonValue, d: JsonValue, c: Combo)
    requires
        json_same(a, b),
        strings_substituted(b, d, c),
    ensures
        strings_substituted(a, d, c),
    decreases a,
{
    match a {
        JsonValue::Array(v) => {
            let w = b->Array_0;
            let x = d->Array_0;
            assert forall|i: int| 0 <= i < v.len() implies strings_substituted(#[trigger] v@[i], x@[i], c) by {
                assert(json_same(v@[i], w@[i]));
                assert(strings_substituted(w@[i], x@[i], c));
                lemma_substituted_through_same(v@[i], w@[i], x@[i], c);
            }
        },
        JsonValue::Object(v) => {
            let w = b->Object_0;
            let x = d->Object_0;
            assert forall|i: int| 0 <= i < v.len() implies (#[trigger] v@[i]).0@ == x@[i].0@
                && strings_substituted(v@[i].1, x@[i].1, c) by {
                assert(v@[i].0@ == w@[i].0@ && json_same(v@[i].1, w@[i].1));
                assert(w@[i].0@ == x@[i].0@ && strings_substituted(w@[i].1, x@[i].1, c));
                lemma_substituted_through_same(v@[i].1, w@[i].1, x@[i].1, c);
            }
        },
        _ => {},
    }
}

// ---------------------------------------------------------------------------
// Compact JSON text
// ---------------------------------------------------------------------------

pub open spec fn hex_digit(n: int) -> char {
    if n < 10 {
        ((n + 48) as u8) as char
    } else {
        ((n - 10 + 97) as u8) as char
    }
}

/// A character inside a JSON string: quotes, backslashes and control
/// characters escaped (the short forms where JSON has them).
pub open spec fn escape_char(c: char) -> Seq<char> {
    if c == '"' {
        seq!['\\', '"']
    } else if c == '\\' {
        seq!['\\', '\\']
    } else if c == '\u{8}' {
        seq!['\\', 'b']
    } else if c == '\t' {
        seq!['\\', 't']
    } else if c == '\n' {
        seq!['\\', 'n']
    } else if c == '\u{c}' {
        seq!['\\', 'f']
    } else if c == '\r' {
        seq!['\\', 'r']
    } else if (c as int) < 32 {
        seq!['\\', 'u', '0', '0', hex_digit((c as int) / 16), hex_digit((c as int) % 16)]
    } else {
        seq![c]
    }
}

pub open spec fn escape_text(s: Seq<char>) -> Seq<char>
    decreases s.len(),
{
    if s.len() == 0 {
        Seq::empty()
    } else {
        escape_text(s.drop_last()) + escape_char(s.last())
    }
}

/// A string as a JSON string literal.
pub open spec fn quoted(s: Seq<char>) -> Seq<char> {
    seq!['"'] + escape_text(s) + seq!['"']
}

/// The number of items or entries of a value.
pub open spec fn width(v: JsonValue) -> nat {
    match v {
        JsonValue::Array(items) => items.len() as nat,
        JsonValue::Object(m) => m.len() as nat,
        _ => 0,
    }
}

/// A value as compact JSON text: no whitespace, entries in their order.
pub open spec fn json_text(v: JsonValue) -> Seq<char>
    decreases v, width(v) + 1,
{
    match v {
        JsonValue::Null => "null"@,
        JsonValue::Bool(b) => if b {
            "true"@
        } else {
            "false"@
        },
        JsonValue::Number(n) => n@,
        JsonValue::String(s) => quoted(s@),
        JsonValue::Array(items) => seq!['['] + parts_text(v, items.len() as nat) + seq![']'],
        JsonValue::Object(m) => seq!['{'] + parts_text(v, m.len() as nat) + seq!['}'],
    }
}

/// The first `k` items (or entries) of an array (or object), separated by commas.
pub open spec fn parts_text(v: JsonValue, k: nat) -> Seq<char>
    decreases v, k,
{
    if k == 0 || k > width(v) {
        Seq::empty()
    } else {
        let sep = if k > 1 {
            seq![',']
        } else {
            Seq::empty()
        };
        match v {
            JsonValue::Array(items) => {
                proof {
                    assert(decreases_to!(v => v->Array_0));
                    vstd::std_specs::vec::axiom_vec_index_decreases(items, k - 1);
                }
                parts_text(v, (k - 1) as nat) + sep + json_text(items@[k - 1])
            },
            JsonValue::Object(m) => {
                proof {
                    assert(decreases_to!(v => v->Object_0));
                    vstd::std_specs::vec::axiom_vec_index_decreases(m, k - 1);
                    assert(decreases_to!(m@[k - 1] => m@[k - 1].1));
                }
                parts_text(v, (k - 1) as nat) + sep + quoted(m@[k - 1].0@) + seq![':'] + json_text(
                    m@[k - 1].1,
                )
            },
            _ => Seq::empty(),
        }
    }
}

fn hex_digit_exec(n: u32) -> (c: char)
    requires
        n < 16,
    ensures
        c == hex_digit(n as int),
{
    if n < 10 {
        ((n + 48) as u8) as char
    } else {
        ((n - 10 + 97) as u8) as char
    }
}

fn push_escaped(out: &mut Vec<char>, c: char)
    ensures
        final(out)@ == old(out)@ + escape_char(c),
{
    let ghost start = out@;
    if c == '"' {
        out.push('\\');
        out.push('"');
    } else if c == '\\' {
        out.push('\\');
        out.push('\\');
    } else if c == '\u{8}' {
        out.push('\\');
        out.push('b');
    } else if c == '\t' {
        out.push('\\');
        out.push('t');
    } else if c == '\n' {
        out.push('\\');
        out.push('n');
    } else if c == '\u{c}' {
        out.push('\\');
        out.push('f');
    } else if c == '\r' {
        out.push('\\');
        out.push('r');
    } else if (c as u32) < 32 {
        let code = c as u32;
        out.push('\\');
        out.push('u');
        out.push('0');
        out.push('0');
        out.push(hex_digit_exec(code / 16));
        out.push(hex_digit_exec(code % 16));
    } else {
        out.push(c);
    }
    proof {
        assert(out@ =~= start + escape_char(c));
    }
}

fn push_quoted(out: &mut Vec<char>, s: &str)
    ensures
        final(out)@ == old(out)@ + quoted(s@),
{
    let ghost start = out@;
    let v = chars_of(s);
    out.push('"');
    let mut i: usize = 0;
    proof {
        assert(v@.take(0) =~= Seq::<char>::empty());
    }
    while i < v.len()
        invariant
            i <= v.len(),
            out@ == start + seq!['"'] + escape_text(v@.take(i as int)),
        decreases v.len() - i,
    {
        proof {
            assert(v@.take(i + 1).drop_last() =~= v@.take(i as int));
        }
        push_escaped(out, v[i]);
        proof {
            assert(out@ =~= start + seq!['"'] + escape_text(v@.take(i + 1)));
        }
        i = i + 1;
    }
    out.push('"');
    proof {
        assert(v@.take(v.len() as int) =~= v@);
        assert(out@ =~= start + quoted(s@));
    }
}

/// Appends the compact JSON text of `v` to `out`, as `serde_json::to_string`
/// writes a value.
pub fn write_json(v: &JsonValue, out: &mut Vec<char>)
    ensures
        final(out)@ == old(out)@ + json_text(*v),
    decreases v,
{
    let ghost start = out@;
    match v {
        JsonValue::Null => {
            crate::text::extend_str(out, "null");
        },
        JsonValue::Bool(b) => {
            if *b {
                crate::text::extend_str(out, "true");
            } else {
                crate::text::extend_str(out, "false");
            }
        },
        JsonValue::Number(n) => {
            crate::text::extend_str(out, n.as_str());
        },
        JsonValue::String(s) => {
            push_quoted(out, s.as_str());
        },
        JsonValue::Array(items) => {
            out.push('[');
            let mut i: usize = 0;
            while i < items.len()
                invariant
                    i <= items.len(),
                    *v == JsonValue::Array(*items),
                    out@ == start + seq!['['] + parts_text(*v, i as nat),
                decreases items.len() - i,
            {
                proof {
                    assert(decreases_to!(*v => (*v)->Array_0));
                    vstd::std_specs::vec::axiom_vec_index_decreases(*items, i as int);
                    assert(decreases_to!(*v => items@[i as int]));
                }
                let ghost before = out@;
                if i > 0 {
                    out.push(',');
                }
                write_json(&items[i], out);
                proof {
                    let sep = if i + 1 > 1 {
                        seq![',']
                    } else {
                        Seq::<char>::empty()
                    };
                    assert(parts_text(*v, (i + 1) as nat) == parts_text(*v, i as nat) + sep
                        + json_text(items@[i as int]));
                    assert(out@ =~= start + seq!['['] + parts_text(*v, (i + 1) as nat));
                }
                i = i + 1;
            }
            out.push(']');
            proof {
                assert(out@ =~= start + json_text(*v));
            }
        },
        JsonValue::Object(m) => {
            out.push('{');
            let mut i: usize = 0;
            while i < m.len()
                invariant
                    i <= m.len(),
                    *v == JsonValue::Object(*m),
                    out@ == start + seq!['{'] + parts_text(*v, i as nat),
                decreases m.len() - i,
            {
                proof {
                    assert(decreases_to!(*v => (*v)->Object_0));
                    vstd::std_specs::vec::axiom_vec_index_decreases(*m, i as int);
                    assert(decreases_to!(m@[i as int] => m@[i as int].1));
                    assert(decreases_to!(*v => m@[i as int].1));
                }
                if i > 0 {
                    out.push(',');
                }
                push_quoted(out, m[i].0.as_str());
                out.push(':');
                write_json(&m[i].1, out);
                proof {
                    let sep = if i + 1 > 1 {
                        seq![',']
                    } else {
                        Seq::<char>::empty()
                    };
                    assert(parts_text(*v, (i + 1) as nat) == parts_text(*v, i as nat) + sep
                        + quoted(m@[i as int].0@) + seq![':'] + json_text(m@[i as int].1));
                    assert(out@ =~= start + seq!['{'] + parts_text(*v, (i + 1) as nat));
                }
                i = i + 1;
            }
            out.push('}');
            proof {
                assert(out@ =~= start + json_text(*v));
            }
        },
    }
}

/// The compact JSON text of a value.
pub fn to_json_text(v: &JsonValue) -> (s: String)
    ensures
        s@ == json_text(*v),
{
    let mut out: Vec<char> = Vec::new();
    write_json(v, &mut out);
    proof {
        assert(out@ =~= json_text(*v));
    }
    crate::text::string_of(&out)
}

} // verus!
