//! Workflow `variables`: constants substituted into every string of a
//! specification before it is read into a [`crate::workflow::WorkflowSpec`].
//!
//! The specification is taken as a JSON value. Strings under a `variables`
//! or `use_parameters` key are left alone, and so are the keys of a
//! `parameters` map; every other string has its `{name}` / `{name:fmt}`
//! tokens naming a variable replaced, after a check that each template token
//! names a variable or a parameter.

use vstd::prelude::*;

use crate::combinations::Combo;
use crate::json::{entries_get, json_get, json_same, kind_text, json_value_kind, width, JsonValue};
use crate::templates::{bindings_view, bindings_well_formed, substitute, substitute_workflow_variables_in_string, Bindings};
use crate::parameters::{ParamVal, ParameterValue};
use crate::sorted::{insert_sorted_exec, sorted_unique};
use crate::text::{chars_eq, chars_of, concat3, copy_string, is_identifier, join, join_strings, spec_is_identifier};
use crate::variables::{check_undefined_tokens, contains_name, check_variable_value_tokens, flagged_from, undefined_token_message, variable_value_verdict};
use crate::workflow_spec::strs_view;

verus! {

/// The message of the first template token, in document order, whose name is
/// an identifier missing from `valid`.
pub open spec fn undefined_in(v: JsonValue, valid: Seq<Seq<char>>) -> Option<Seq<char>>
    decreases v, 1nat,
{
    match v {
        JsonValue::String(s) => match flagged_from(s@, 0, valid) {
            Some(inner) => Some(undefined_token_message(inner, s@)),
            None => None,
        },
        JsonValue::Array(items) => undefined_in_parts(v, items.len() as nat, valid, false),
        JsonValue::Object(m) => undefined_in_parts(v, m.len() as nat, valid, false),
        _ => None,
    }
}

/// The same, over the first `k` items or entries of `v`. With
/// `values_only`, `v` is a `parameters` map: its keys carry no rule.
pub open spec fn undefined_in_parts(v: JsonValue, k: nat, valid: Seq<Seq<char>>, values_only: bool) -> Option<
    Seq<char>,
>
    decreases v, 0nat, k,
{
    if k == 0 || k > width(v) {
        None
    } else {
        match undefined_in_parts(v, (k - 1) as nat, valid, values_only) {
            Some(msg) => Some(msg),
            None => match v {
                JsonValue::Array(items) => {
                    proof {
                        assert(decreases_to!(v => v->Array_0));
                        vstd::std_specs::vec::axiom_vec_index_decreases(items, k - 1);
                    }
                    undefined_in(items@[k - 1], valid)
                },
                JsonValue::Object(m) => {
                    proof {
                        assert(decreases_to!(v => v->Object_0));
                        vstd::std_specs::vec::axiom_vec_index_decreases(m, k - 1);
                        assert(decreases_to!(m@[k - 1] => m@[k - 1].1));
                    }
                    let key = m@[k - 1].0@;
                    let child = m@[k - 1].1;
                    if values_only {
                        undefined_in(child, valid)
                    } else if key == "variables"@ || key == "use_parameters"@ {
                        None
                    } else if key == "parameters"@ {
                        match child {
                            JsonValue::Object(p) => undefined_in_parts(child, p.len() as nat, valid, true),
                            _ => None,
                        }
                    } else {
                        undefined_in(child, valid)
                    }
                },
                _ => None,
            },
        }
    }
}

/// Once a prefix of the items holds an undefined token, so does every longer
/// prefix, with the same first one.
pub proof fn lemma_undefined_persists(v: JsonValue, k: nat, k2: nat, valid: Seq<Seq<char>>, values_only: bool)
    requires
        k <= k2 <= width(v),
        undefined_in_parts(v, k, valid, values_only) is Some,
    ensures
        undefined_in_parts(v, k2, valid, values_only) == undefined_in_parts(v, k, valid, values_only),
    decreases k2 - k,
{
    if k < k2 {
        lemma_undefined_persists(v, k, (k2 - 1) as nat, valid, values_only);
    }
}

/// `b` is `a` with the variables of `vars` substituted into its strings
/// (numbers, keys and structure kept).
pub open spec fn vars_applied(a: JsonValue, b: JsonValue, vars: Combo) -> bool
    decreases a, 1nat,
{
    match a {
        JsonValue::Null => b is Null,
        JsonValue::Bool(x) => b == JsonValue::Bool(x),
        JsonValue::Number(n) => (b matches JsonValue::Number(m) && m@ == n@),
        JsonValue::String(s) => (b matches JsonValue::String(t) && t@ == substitute(s@, vars, true)),
        JsonValue::Array(v) => (b matches JsonValue::Array(w) && w.len() == v.len() && forall|i: int|
            0 <= i < v.len() ==> vars_applied(#[trigger] v@[i], w@[i], vars)),
        JsonValue::Object(_) => entries_applied(a, b, vars, false),
    }
}

/// For objects: the keys kept, and each entry substituted as its key asks
/// (`values_only`: each value substituted, whatever its key).
pub open spec fn entries_applied(a: JsonValue, b: JsonValue, vars: Combo, values_only: bool) -> bool
    decreases a, 0nat,
{
    match a {
        JsonValue::Object(v) => (b matches JsonValue::Object(w) && w.len() == v.len() && forall|i: int|
            0 <= i < v.len() ==> (#[trigger] v@[i]).0@ == w@[i].0@ && (if values_only {
                vars_applied(v@[i].1, w@[i].1, vars)
            } else {
                entry_applied(v@[i].0@, v@[i].1, w@[i].1, vars)
            })),
        _ => false,
    }
}

/// One entry of an object: what its key asks for its value.
pub open spec fn entry_applied(key: Seq<char>, a: JsonValue, b: JsonValue, vars: Combo) -> bool
    decreases a, 2nat,
{
    if key == "variables"@ || key == "use_parameters"@ {
        json_same(a, b)
    } else if key == "parameters"@ {
        match a {
            JsonValue::Object(_) => entries_applied(a, b, vars, true),
            _ => json_same(a, b),
        }
    } else {
        vars_applied(a, b, vars)
    }
}

fn is_key(k: &String, lit: &str) -> (b: bool)
    ensures
        b == (k@ == lit@),
{
    crate::text::chars_eq(&crate::text::chars_of(k.as_str()), &crate::text::chars_of(lit))
}

/// Substitutes the variables into every string of a value, after checking
/// each string's template tokens; stops at the first undefined token.
pub fn substitute_variables_in_value(v: &JsonValue, variables: &Bindings, valid_token_names: &Vec<String>) -> (r: Result<
    JsonValue,
    String,
>)
    requires
        bindings_well_formed(variables@),
    ensures
        match r {
            Ok(b) => undefined_in(*v, strs_view(valid_token_names@)) is None && vars_applied(
                *v,
                b,
                bindings_view(variables@),
            ),
            Err(m) => undefined_in(*v, strs_view(valid_token_names@)) == Some(m@),
        },
    decreases v, 1nat,
{
    match v {
        JsonValue::Null => Ok(JsonValue::Null),
        JsonValue::Bool(b) => Ok(JsonValue::Bool(*b)),
        JsonValue::Number(n) => Ok(JsonValue::Number(copy_string(n))),
        JsonValue::String(s) => {
            match check_undefined_tokens(s.as_str(), valid_token_names) {
                Err(m) => Err(m),
                Ok(()) => Ok(JsonValue::String(substitute_workflow_variables_in_string(s.as_str(), variables))),
            }
        },
        JsonValue::Array(items) => {
            let mut out: Vec<JsonValue> = Vec::new();
            let mut i: usize = 0;
            while i < items.len()
                invariant
                    i <= items.len(),
                    out.len() == i,
                    *v == JsonValue::Array(*items),
                    bindings_well_formed(variables@),
                    undefined_in_parts(*v, i as nat, strs_view(valid_token_names@), false) is None,
                    forall|k: int|
                        0 <= k < i ==> vars_applied(#[trigger] items@[k], out@[k], bindings_view(variables@)),
                decreases items.len() - i,
            {
                proof {
                    assert(decreases_to!(*v => (*v)->Array_0));
                    vstd::std_specs::vec::axiom_vec_index_decreases(*items, i as int);
                    assert(decreases_to!(*v => items@[i as int]));
                }
                match substitute_variables_in_value(&items[i], variables, valid_token_names) {
                    Err(m) => {
                        proof {
                            lemma_undefined_persists(*v, (i + 1) as nat, items.len() as nat, strs_view(valid_token_names@), false);
                        }
                        return Err(m);
                    },
                    Ok(x) => {
                        out.push(x);
                    },
                }
                i = i + 1;
            }
            Ok(JsonValue::Array(out))
        },
        JsonValue::Object(_) => substitute_variables_in_entries(v, variables, valid_token_names, false),
    }
}

/// The same for the entries of an object.
fn substitute_variables_in_entries(
    v: &JsonValue,
    variables: &Bindings,
    valid_token_names: &Vec<String>,
    values_only: bool,
) -> (r: Result<JsonValue, String>)
    requires
        bindings_well_formed(variables@),
        v is Object,
    ensures
        match r {
            Ok(b) => undefined_in_parts(*v, width(*v), strs_view(valid_token_names@), values_only) is None
                && entries_applied(*v, b, bindings_view(variables@), values_only),
            Err(m) => undefined_in_parts(*v, width(*v), strs_view(valid_token_names@), values_only) == Some(m@),
        },
    decreases v, 0nat,
{
    let m = match v {
        JsonValue::Object(m) => m,
        _ => {
            return Err(copy_string(&String::new()));
        },
    };
    let ghost vars = bindings_view(variables@);
    let ghost valid = strs_view(valid_token_names@);
    let mut out: Vec<(String, JsonValue)> = Vec::new();
    let mut i: usize = 0;
    while i < m.len()
        invariant
            i <= m.len(),
            out.len() == i,
            *v == JsonValue::Object(*m),
            bindings_well_formed(variables@),
            vars == bindings_view(variables@),
            valid == strs_view(valid_token_names@),
            undefined_in_parts(*v, i as nat, valid, values_only) is None,
            forall|k: int|
                0 <= k < i ==> (#[trigger] m@[k]).0@ == out@[k].0@ && (if values_only {
                    vars_applied(m@[k].1, out@[k].1, vars)
                } else {
                    entry_applied(m@[k].0@, m@[k].1, out@[k].1, vars)
                }),
        decreases m.len() - i,
    {
        proof {
            assert(decreases_to!(*v => (*v)->Object_0));
            vstd::std_specs::vec::axiom_vec_index_decreases(*m, i as int);
            assert(decreases_to!(m@[i as int] => m@[i as int].1));
            assert(decreases_to!(*v => m@[i as int].1));
        }
        let key = &m[i].0;
        let child = &m[i].1;
        let next: Result<JsonValue, String> = if values_only {
            substitute_variables_in_value(child, variables, valid_token_names)
        } else if is_key(key, "variables") || is_key(key, "use_parameters") {
            Ok(child.copy())
        } else if is_key(key, "parameters") {
            match child {
                JsonValue::Object(_) => substitute_variables_in_entries(child, variables, valid_token_names, true),
                _ => Ok(child.copy()),
            }
        } else {
            substitute_variables_in_value(child, variables, valid_token_names)
        };
        match next {
            Err(e) => {
                proof {
                    lemma_undefined_persists(*v, (i + 1) as nat, m.len() as nat, valid, values_only);
                }
                return Err(e);
            },
            Ok(x) => {
                out.push((copy_string(key), x));
            },
        }
        i = i + 1;
    }
    Ok(JsonValue::Object(out))
}

// ---------------------------------------------------------------------------
// The variables of a specification, and the checks before substitution
// ---------------------------------------------------------------------------

pub open spec fn invalid_variable_name_message(name: Seq<char>) -> Seq<char> {
    "workflow variable name '"@ + name + "' must be a valid identifier ([A-Za-z_][A-Za-z0-9_]*). Rename the variable."@
}

pub open spec fn variable_not_string_message(name: Seq<char>, kind: Seq<char>) -> Seq<char> {
    "workflow variable '"@ + name + "' must be a string (got "@ + kind + ")"@
}

pub open spec fn variables_not_object_message() -> Seq<char> {
    "workflow `variables` must be an object of string key/value pairs"@
}

pub open spec fn collision_message(names: Seq<Seq<char>>) -> Seq<char> {
    "workflow `variables` collide with parameter names: "@ + join(names, ", "@)
        + ". Rename the variable(s) or the parameter(s) so each name appears in only one map."@
}

/// What is wrong with one variable's name or value, if anything.
pub open spec fn variable_shape_issue(e: (String, JsonValue)) -> Option<Seq<char>> {
    if !spec_is_identifier(e.0@) {
        Some(invalid_variable_name_message(e.0@))
    } else {
        match e.1 {
            JsonValue::String(_) => None,
            other => Some(variable_not_string_message(e.0@, kind_text(other))),
        }
    }
}

/// The first issue with the names and values of the first `k` variables.
pub open spec fn variables_shape_error(entries: Seq<(String, JsonValue)>, k: int) -> Option<Seq<char>>
    decreases k,
{
    if k <= 0 || k > entries.len() {
        None
    } else {
        match variables_shape_error(entries, k - 1) {
            Some(m) => Some(m),
            None => variable_shape_issue(entries[k - 1]),
        }
    }
}

pub proof fn lemma_shape_error_persists(entries: Seq<(String, JsonValue)>, k: int, k2: int)
    requires
        0 <= k <= k2 <= entries.len(),
        variables_shape_error(entries, k) is Some,
    ensures
        variables_shape_error(entries, k2) == variables_shape_error(entries, k),
    decreases k2 - k,
{
    if k < k2 {
        lemma_shape_error_persists(entries, k, k2 - 1);
    }
}

/// The variables as bindings of strings.
pub open spec fn variable_bindings(entries: Seq<(String, JsonValue)>) -> Combo {
    entries.map_values(
        |e: (String, JsonValue)|
            (
                e.0@,
                match e.1 {
                    JsonValue::String(s) => ParamVal::Str(s@),
                    _ => ParamVal::Str(Seq::empty()),
                },
            ),
    )
}

pub open spec fn variable_names(entries: Seq<(String, JsonValue)>) -> Seq<Seq<char>> {
    entries.map_values(|e: (String, JsonValue)| e.0@)
}

/// The columns of the table loaded from `path` (the first table of that path).
pub open spec fn table_columns(tables: Seq<(Seq<char>, Seq<Seq<char>>)>, path: Seq<char>) -> Option<Seq<Seq<char>>>
    decreases tables.len(),
{
    if tables.len() == 0 {
        None
    } else if tables[0].0 == path {
        Some(tables[0].1)
    } else {
        table_columns(tables.drop_first(), path)
    }
}

pub open spec fn tables_view(t: Seq<(String, Vec<String>)>) -> Seq<(Seq<char>, Seq<Seq<char>>)> {
    t.map_values(|e: (String, Vec<String>)| (e.0@, strs_view(e.1@)))
}

/// The columns of the table a `parameters_file` member names, its path
/// with the variables substituted.
pub open spec fn columns_for(o: Option<JsonValue>, vars: Combo, tables: Seq<(Seq<char>, Seq<Seq<char>>)>) -> Option<
    Seq<Seq<char>>,
> {
    match o {
        Some(JsonValue::String(p)) => table_columns(tables, substitute(p@, vars, true)),
        _ => None,
    }
}

pub open spec fn or_empty(o: Option<Seq<Seq<char>>>) -> Seq<Seq<char>> {
    match o {
        Some(s) => s,
        None => Seq::empty(),
    }
}

/// The keys of an object member.
pub open spec fn member_keys(o: Option<JsonValue>) -> Seq<Seq<char>> {
    match o {
        Some(JsonValue::Object(p)) => p@.map_values(|e: (String, JsonValue)| e.0@),
        _ => Seq::empty(),
    }
}

/// The parameter names one job, file or user data record declares.
pub open spec fn item_parameter_names(
    item: JsonValue,
    vars: Combo,
    tables: Seq<(Seq<char>, Seq<Seq<char>>)>,
    shared: Option<Seq<Seq<char>>>,
) -> Seq<Seq<char>> {
    match item {
        JsonValue::Object(im) => member_keys(entries_get(im@, "parameters"@)) + or_empty(
            columns_for(entries_get(im@, "parameters_file"@), vars, tables),
        ) + if entries_get(im@, "use_parameters_file"@) == Some(JsonValue::Bool(true)) {
            or_empty(shared)
        } else {
            Seq::empty()
        },
        _ => Seq::empty(),
    }
}

pub open spec fn items_parameter_names(
    items: Seq<JsonValue>,
    vars: Combo,
    tables: Seq<(Seq<char>, Seq<Seq<char>>)>,
    shared: Option<Seq<Seq<char>>>,
) -> Seq<Seq<char>>
    decreases items.len(),
{
    if items.len() == 0 {
        Seq::empty()
    } else {
        items_parameter_names(items.drop_last(), vars, tables, shared) + item_parameter_names(
            items.last(),
            vars,
            tables,
            shared,
        )
    }
}

pub open spec fn field_parameter_names(
    m: Seq<(String, JsonValue)>,
    field: Seq<char>,
    vars: Combo,
    tables: Seq<(Seq<char>, Seq<Seq<char>>)>,
    shared: Option<Seq<Seq<char>>>,
) -> Seq<Seq<char>> {
    match entries_get(m, field) {
        Some(JsonValue::Array(items)) => items_parameter_names(items@, vars, tables, shared),
        _ => Seq::empty(),
    }
}

/// Every parameter name the specification declares: in the shared
/// `parameters`, the columns of the shared table, and in the `parameters`,
/// tables and opted-in shared table of each job, file and user data record.
pub open spec fn parameter_names(v: JsonValue, vars: Combo, tables: Seq<(Seq<char>, Seq<Seq<char>>)>) -> Seq<
    Seq<char>,
> {
    match v {
        JsonValue::Object(m) => {
            let shared = columns_for(entries_get(m@, "parameters_file"@), vars, tables);
            member_keys(entries_get(m@, "parameters"@)) + or_empty(shared) + field_parameter_names(
                m@,
                "jobs"@,
                vars,
                tables,
                shared,
            ) + field_parameter_names(m@, "files"@, vars, tables, shared) + field_parameter_names(
                m@,
                "user_data"@,
                vars,
                tables,
                shared,
            )
        },
        _ => Seq::empty(),
    }
}

/// The names that are among `others` too, in order.
pub open spec fn shared_names(names: Seq<Seq<char>>, others: Seq<Seq<char>>) -> Seq<Seq<char>>
    decreases names.len(),
{
    if names.len() == 0 {
        Seq::empty()
    } else if others.contains(names.last()) {
        shared_names(names.drop_last(), others).push(names.last())
    } else {
        shared_names(names.drop_last(), others)
    }
}

/// The first variable, among the first `k`, whose value holds a template
/// token, as its message.
pub open spec fn value_token_error(entries: Seq<(String, JsonValue)>, k: int, vars: Combo) -> Option<Seq<char>>
    decreases k,
{
    if k <= 0 || k > entries.len() {
        None
    } else {
        match value_token_error(entries, k - 1, vars) {
            Some(m) => Some(m),
            None => match entries[k - 1].1 {
                JsonValue::String(s) => match variable_value_verdict(entries[k - 1].0@, s@, vars) {
                    Err(m) => Some(m),
                    Ok(()) => None,
                },
                _ => None,
            },
        }
    }
}

pub proof fn lemma_token_error_persists(entries: Seq<(String, JsonValue)>, k: int, k2: int, vars: Combo)
    requires
        0 <= k <= k2 <= entries.len(),
        value_token_error(entries, k, vars) is Some,
    ensures
        value_token_error(entries, k2, vars) == value_token_error(entries, k, vars),
    decreases k2 - k,
{
    if k < k2 {
        lemma_token_error_persists(entries, k, k2 - 1, vars);
    }
}

/// What applying the variables of a specification comes to.
pub enum VariablesPlan {
    /// No variables to apply: the specification is kept as it is.
    Keep,
    /// The variables are refused, with this message.
    Fail(Seq<char>),
    /// The strings get these variables, once each of their template tokens is
    /// found among these names.
    Apply(Combo, Seq<Seq<char>>),
}

pub open spec fn variables_plan(v: JsonValue, tables: Seq<(Seq<char>, Seq<Seq<char>>)>) -> VariablesPlan {
    match json_get(v, "variables"@) {
        None => VariablesPlan::Keep,
        Some(JsonValue::Object(vm)) => if vm.len() == 0 {
            VariablesPlan::Keep
        } else {
            match variables_shape_error(vm@, vm.len() as int) {
                Some(m) => VariablesPlan::Fail(m),
                None => {
                    let vars = variable_bindings(vm@);
                    let params = parameter_names(v, vars, tables);
                    let clashes = shared_names(variable_names(vm@), params);
                    if clashes.len() > 0 {
                        VariablesPlan::Fail(collision_message(sorted_unique(clashes)))
                    } else {
                        match value_token_error(vm@, vm.len() as int, vars) {
                            Some(m) => VariablesPlan::Fail(m),
                            None => VariablesPlan::Apply(vars, variable_names(vm@) + params),
                        }
                    }
                },
            }
        },
        Some(_) => VariablesPlan::Fail(variables_not_object_message()),
    }
}

fn push_all(dst: &mut Vec<String>, src: &Vec<String>)
    ensures
        strs_view(final(dst)@) == strs_view(old(dst)@) + strs_view(src@),
{
    let ghost start = strs_view(dst@);
    let mut i: usize = 0;
    while i < src.len()
        invariant
            i <= src.len(),
            strs_view(dst@) == start + strs_view(src@).take(i as int),
        decreases src.len() - i,
    {
        let c = copy_string(&src[i]);
        let ghost prev = dst@;
        dst.push(c);
        proof {
            assert(dst@ == prev.push(c));
            assert(strs_view(dst@) =~= strs_view(prev).push(c@));
            assert(strs_view(dst@) =~= start + strs_view(src@).take(i + 1));
        }
        i = i + 1;
    }
    proof {
        assert(strs_view(src@).take(src.len() as int) =~= strs_view(src@));
    }
}

fn push_keys(dst: &mut Vec<String>, o: Option<&JsonValue>)
    ensures
        strs_view(final(dst)@) == strs_view(old(dst)@) + member_keys(
            match o {
                Some(x) => Some(*x),
                None => None,
            },
        ),
{
    match o {
        Some(JsonValue::Object(p)) => {
            let ghost start = strs_view(dst@);
            let ghost keys = p@.map_values(|e: (String, JsonValue)| e.0@);
            let mut i: usize = 0;
            while i < p.len()
                invariant
                    i <= p.len(),
                    keys == p@.map_values(|e: (String, JsonValue)| e.0@),
                    strs_view(dst@) == start + keys.take(i as int),
                decreases p.len() - i,
            {
                let c = copy_string(&p[i].0);
                let ghost prev = dst@;
                dst.push(c);
                proof {
                    assert(dst@ == prev.push(c));
                    assert(strs_view(dst@) =~= strs_view(prev).push(c@));
                    assert(strs_view(dst@) =~= start + keys.take(i + 1));
                }
                i = i + 1;
            }
            proof {
                assert(keys.take(p.len() as int) =~= keys);
            }
        },
        _ => {
            proof {
                assert(strs_view(dst@) =~= strs_view(dst@) + Seq::<Seq<char>>::empty());
            }
        },
    }
}

fn table_columns_exec<'a>(tables: &'a Vec<(String, Vec<String>)>, path: &String) -> (r: Option<&'a Vec<String>>)
    ensures
        match r {
            Some(c) => table_columns(tables_view(tables@), path@) == Some(strs_view(c@)),
            None => table_columns(tables_view(tables@), path@) is None,
        },
{
    let pv = chars_of(path.as_str());
    let mut i: usize = 0;
    proof {
        assert(tables_view(tables@).skip(0) =~= tables_view(tables@));
    }
    while i < tables.len()
        invariant
            i <= tables.len(),
            pv@ == path@,
            table_columns(tables_view(tables@), path@) == table_columns(tables_view(tables@).skip(i as int), path@),
        decreases tables.len() - i,
    {
        proof {
            assert(tables_view(tables@).skip(i as int).drop_first() =~= tables_view(tables@).skip(i + 1));
        }
        if chars_eq(&chars_of(tables[i].0.as_str()), &pv) {
            return Some(&tables[i].1);
        }
        i = i + 1;
    }
    proof {
        assert(tables_view(tables@).skip(tables.len() as int).len() == 0);
    }
    None
}

fn columns_for_exec(o: Option<&JsonValue>, vars: &Bindings, tables: &Vec<(String, Vec<String>)>) -> (r: Option<
    Vec<String>,
>)
    requires
        bindings_well_formed(vars@),
    ensures
        match r {
            Some(c) => columns_for(
                match o {
                    Some(x) => Some(*x),
                    None => None,
                },
                bindings_view(vars@),
                tables_view(tables@),
            ) == Some(strs_view(c@)),
            None => columns_for(
                match o {
                    Some(x) => Some(*x),
                    None => None,
                },
                bindings_view(vars@),
                tables_view(tables@),
            ) is None,
        },
{
    match o {
        Some(JsonValue::String(p)) => {
            let resolved = substitute_workflow_variables_in_string(p.as_str(), vars);
            match table_columns_exec(tables, &resolved) {
                Some(c) => {
                    let mut out: Vec<String> = Vec::new();
                    push_all(&mut out, c);
                    proof {
                        assert(strs_view(out@) =~= strs_view(c@));
                    }
                    Some(out)
                },
                None => None,
            }
        },
        _ => None,
    }
}

fn item_parameter_names_exec(
    item: &JsonValue,
    vars: &Bindings,
    tables: &Vec<(String, Vec<String>)>,
    shared: &Option<Vec<String>>,
    out: &mut Vec<String>,
)
    requires
        bindings_well_formed(vars@),
    ensures
        strs_view(final(out)@) == strs_view(old(out)@) + item_parameter_names(
            *item,
            bindings_view(vars@),
            tables_view(tables@),
            match shared {
                Some(s) => Some(strs_view(s@)),
                None => None,
            },
        ),
{
    let ghost start = strs_view(out@);
    match item {
        JsonValue::Object(_) => {
            push_keys(out, item.get("parameters"));
            match columns_for_exec(item.get("parameters_file"), vars, tables) {
                Some(c) => push_all(out, &c),
                None => {},
            }
            let opted = match item.get("use_parameters_file") {
                Some(JsonValue::Bool(b)) => *b,
                _ => false,
            };
            if opted {
                match shared {
                    Some(c) => push_all(out, c),
                    None => {},
                }
            }
            proof {
                assert(strs_view(out@) =~= start + item_parameter_names(
                    *item,
                    bindings_view(vars@),
                    tables_view(tables@),
                    match shared {
                        Some(s) => Some(strs_view(s@)),
                        None => None,
                    },
                ));
            }
        },
        _ => {
            proof {
                assert(strs_view(out@) =~= start + Seq::<Seq<char>>::empty());
            }
        },
    }
}

fn field_parameter_names_exec(
    v: &JsonValue,
    field: &str,
    vars: &Bindings,
    tables: &Vec<(String, Vec<String>)>,
    shared: &Option<Vec<String>>,
    out: &mut Vec<String>,
)
    requires
        bindings_well_formed(vars@),
        v is Object,
    ensures
        strs_view(final(out)@) == strs_view(old(out)@) + field_parameter_names(
            v->Object_0@,
            field@,
            bindings_view(vars@),
            tables_view(tables@),
            match shared {
                Some(s) => Some(strs_view(s@)),
                None => None,
            },
        ),
{
    let ghost start = strs_view(out@);
    let ghost sh = match shared {
        Some(s) => Some(strs_view(s@)),
        None => None,
    };
    match v.get(field) {
        Some(JsonValue::Array(items)) => {
            let mut i: usize = 0;
            proof {
                assert(strs_view(out@) =~= start + items_parameter_names(
                    items@.take(0),
                    bindings_view(vars@),
                    tables_view(tables@),
                    sh,
                ));
            }
            while i < items.len()
                invariant
                    i <= items.len(),
                    bindings_well_formed(vars@),
                    sh == match shared {
                        Some(s) => Some(strs_view(s@)),
                        None => None,
                    },
                    strs_view(out@) == start + items_parameter_names(
                        items@.take(i as int),
                        bindings_view(vars@),
                        tables_view(tables@),
                        sh,
                    ),
                decreases items.len() - i,
            {
                proof {
                    assert(items@.take(i + 1).drop_last() =~= items@.take(i as int));
                    assert(items@.take(i + 1).last() == items@[i as int]);
                }
                let ghost before = strs_view(out@);
                item_parameter_names_exec(&items[i], vars, tables, shared, out);
                proof {
                    assert(strs_view(out@) =~= start + items_parameter_names(
                        items@.take(i + 1),
                        bindings_view(vars@),
                        tables_view(tables@),
                        sh,
                    ));
                }
                i = i + 1;
            }
            proof {
                assert(items@.take(items.len() as int) =~= items@);
            }
        },
        _ => {
            proof {
                assert(strs_view(out@) =~= start + Seq::<Seq<char>>::empty());
            }
        },
    }
}

/// Every parameter name the specification declares, with the columns of
/// the tables named by `parameters_file` members (their paths with the
/// variables substituted) looked up in `table_columns`; a table missing
/// there adds no name.
pub fn collect_parameter_names(value: &JsonValue, variables: &Bindings, table_columns: &Vec<(String, Vec<String>)>) -> (r:
    Vec<String>)
    requires
        bindings_well_formed(variables@),
    ensures
        strs_view(r@) == parameter_names(*value, bindings_view(variables@), tables_view(table_columns@)),
{
    let mut out: Vec<String> = Vec::new();
    match value {
        JsonValue::Object(_) => {
            push_keys(&mut out, value.get("parameters"));
            let shared = columns_for_exec(value.get("parameters_file"), variables, table_columns);
            match &shared {
                Some(c) => push_all(&mut out, c),
                None => {},
            }
            let ghost a = strs_view(out@);
            field_parameter_names_exec(value, "jobs", variables, table_columns, &shared, &mut out);
            field_parameter_names_exec(value, "files", variables, table_columns, &shared, &mut out);
            field_parameter_names_exec(value, "user_data", variables, table_columns, &shared, &mut out);
            proof {
                assert(strs_view(out@) =~= parameter_names(*value, bindings_view(variables@), tables_view(table_columns@)));
            }
        },
        _ => {
            proof {
                assert(strs_view(out@) =~= Seq::<Seq<char>>::empty());
            }
        },
    }
    out
}

/// What applying the workflow variables of `value` gives: the value as it
/// is when it has none, the error of a malformed set, or the value with
/// every variable substituted, unless a reference names an undefined one.
pub open spec fn variables_outcome(
    value: JsonValue,
    tables: Seq<(Seq<char>, Seq<Seq<char>>)>,
    r: Result<JsonValue, String>,
) -> bool {
    match variables_plan(value, tables) {
        VariablesPlan::Keep => r == Ok::<JsonValue, String>(value),
        VariablesPlan::Fail(m) => (r matches Err(e) && e@ == m),
        VariablesPlan::Apply(vars, valid) => match r {
            Ok(b) => undefined_in(value, valid) is None && vars_applied(value, b, vars),
            Err(e) => undefined_in(value, valid) == Some(e@),
        },
    }
}

/// The error for a specification that still sets the removed
/// `slurm_config` field.
pub open spec fn removed_slurm_config_message() -> Seq<char> {
    "The 'slurm_config' field has been removed from the workflow spec. Use 'execution_config' instead."@
}

/// Reads a specification value before it is taken into the workflow
/// record: a value that sets the removed `slurm_config` field is refused
/// with a pointer to `execution_config`; any other has its workflow
/// variables applied (`apply_workflow_variables`).
pub fn read_spec_value(value: JsonValue, table_columns: &Vec<(String, Vec<String>)>) -> (r: Result<
    JsonValue,
    String,
>)
    ensures
        json_get(value, "slurm_config"@) is Some ==> (r matches Err(e) && e@
            == removed_slurm_config_message()),
        json_get(value, "slurm_config"@) is None ==> variables_outcome(
            value,
            tables_view(table_columns@),
            r,
        ),
{
    if value.get("slurm_config").is_some() {
        return Err(
            crate::text::lit(
                "The 'slurm_config' field has been removed from the workflow spec. Use 'execution_config' instead.",
            ),
        );
    }
    apply_workflow_variables(value, table_columns)
}

/// Applies the workflow `variables` of a specification to every string in
/// it (see the module's documentation). `table_columns` holds the columns
/// of each loadable parameter table, by path.
pub fn apply_workflow_variables(value: JsonValue, table_columns: &Vec<(String, Vec<String>)>) -> (r: Result<
    JsonValue,
    String,
>)
    ensures
        variables_outcome(value, tables_view(table_columns@), r),
{
    let keep = match value.get("variables") {
        None => true,
        Some(JsonValue::Object(vm)) => vm.len() == 0,
        Some(_) => false,
    };
    if keep {
        return Ok(value);
    }
    let vm = match value.get("variables") {
        Some(JsonValue::Object(vm)) => vm,
        _ => {
            return Err(crate::text::lit("workflow `variables` must be an object of string key/value pairs"));
        },
    };
    let ghost tv = tables_view(table_columns@);
    // Names and values.
    let mut i: usize = 0;
    while i < vm.len()
        invariant
            i <= vm.len(),
            variables_shape_error(vm@, i as int) is None,
            json_get(value, "variables"@) == Some(JsonValue::Object(*vm)),
            vm.len() > 0,
        decreases vm.len() - i,
    {
        if !is_identifier(vm[i].0.as_str()) {
            proof {
                lemma_shape_error_persists(vm@, i + 1, vm.len() as int);
            }
            return Err(concat3("workflow variable name '", vm[i].0.as_str(), "' must be a valid identifier ([A-Za-z_][A-Za-z0-9_]*). Rename the variable."));
        }
        match &vm[i].1 {
            JsonValue::String(_) => {},
            other => {
                proof {
                    lemma_shape_error_persists(vm@, i + 1, vm.len() as int);
                }
                let head = concat3("workflow variable '", vm[i].0.as_str(), "' must be a string (got ");
                return Err(concat3(head.as_str(), json_value_kind(other), ")"));
            },
        }
        i = i + 1;
    }
    // The variables as bindings, and their names.
    let mut vars: Bindings = Vec::new();
    let mut names: Vec<String> = Vec::new();
    let mut k: usize = 0;
    while k < vm.len()
        invariant
            k <= vm.len(),
            bindings_well_formed(vars@),
            bindings_view(vars@) == variable_bindings(vm@).take(k as int),
            strs_view(names@) == variable_names(vm@).take(k as int),
        decreases vm.len() - k,
    {
        let text = match &vm[k].1 {
            JsonValue::String(s) => copy_string(s),
            _ => String::new(),
        };
        let b = (copy_string(&vm[k].0), ParameterValue::String(text));
        let ghost pv = vars@;
        vars.push(b);
        let c = copy_string(&vm[k].0);
        let ghost pn = names@;
        names.push(c);
        proof {
            assert(vars@ == pv.push(b));
            assert(bindings_view(vars@) =~= bindings_view(pv).push((b.0@, b.1@)));
            assert(bindings_view(vars@) =~= variable_bindings(vm@).take(k + 1));
            assert(names@ == pn.push(c));
            assert(strs_view(names@) =~= strs_view(pn).push(c@));
            assert(strs_view(names@) =~= variable_names(vm@).take(k + 1));
            assert forall|j: int| 0 <= j < vars@.len() implies (#[trigger] vars@[j]).1.well_formed() by {
                if j < pv.len() {
                    assert(vars@[j] == pv[j]);
                }
            }
        }
        k = k + 1;
    }
    proof {
        assert(variable_bindings(vm@).take(vm.len() as int) =~= variable_bindings(vm@));
        assert(variable_names(vm@).take(vm.len() as int) =~= variable_names(vm@));
    }
    // Variables that are parameters too.
    let params = collect_parameter_names(&value, &vars, table_columns);
    let mut clashes: Vec<String> = Vec::new();
    let mut j: usize = 0;
    proof {
        assert(strs_view(clashes@) =~= shared_names(strs_view(names@).take(0), strs_view(params@)));
    }
    while j < names.len()
        invariant
            j <= names.len(),
            strs_view(clashes@) == shared_names(strs_view(names@).take(j as int), strs_view(params@)),
        decreases names.len() - j,
    {
        proof {
            assert(strs_view(names@).take(j + 1).drop_last() =~= strs_view(names@).take(j as int));
            assert(strs_view(names@).take(j + 1).last() == names@[j as int]@);
        }
        if contains_name(&params, &chars_of(names[j].as_str())) {
            let c = copy_string(&names[j]);
            let ghost prev = clashes@;
            clashes.push(c);
            proof {
                assert(clashes@ == prev.push(c));
                assert(strs_view(clashes@) =~= strs_view(prev).push(c@));
            }
        }
        j = j + 1;
    }
    proof {
        assert(strs_view(names@).take(names.len() as int) =~= strs_view(names@));
        assert(strs_view(clashes@).len() == clashes@.len());
    }
    if clashes.len() > 0 {
        let mut sorted: Vec<String> = Vec::new();
        let mut m: usize = 0;
        proof {
            assert(strs_view(sorted@) =~= sorted_unique(strs_view(clashes@).take(0)));
        }
        while m < clashes.len()
            invariant
                m <= clashes.len(),
                strs_view(sorted@) == sorted_unique(strs_view(clashes@).take(m as int)),
            decreases clashes.len() - m,
        {
            proof {
                assert(strs_view(clashes@).take(m + 1).drop_last() =~= strs_view(clashes@).take(m as int));
                assert(strs_view(clashes@).take(m + 1).last() == clashes@[m as int]@);
            }
            insert_sorted_exec(&mut sorted, copy_string(&clashes[m]));
            m = m + 1;
        }
        proof {
            assert(strs_view(clashes@).take(clashes.len() as int) =~= strs_view(clashes@));
            assert(sorted@.map_values(|s: String| s@) =~= strs_view(sorted@));
        }
        let listed = join_strings(&sorted, ", ");
        return Err(concat3("workflow `variables` collide with parameter names: ", listed.as_str(), ". Rename the variable(s) or the parameter(s) so each name appears in only one map."));
    }
    // Values must be literals.
    let mut t: usize = 0;
    while t < vm.len()
        invariant
            t <= vm.len(),
            bindings_view(vars@) == variable_bindings(vm@),
            value_token_error(vm@, t as int, bindings_view(vars@)) is None,
            json_get(value, "variables"@) == Some(JsonValue::Object(*vm)),
            vm.len() > 0,
            variables_shape_error(vm@, vm.len() as int) is None,
            tv == tables_view(table_columns@),
            shared_names(variable_names(vm@), parameter_names(value, bindings_view(vars@), tv)).len() == 0,
        decreases vm.len() - t,
    {
        match &vm[t].1 {
            JsonValue::String(s) => match check_variable_value_tokens(vm[t].0.as_str(), s.as_str(), &vars) {
                Err(e) => {
                    proof {
                        lemma_token_error_persists(vm@, t + 1, vm.len() as int, bindings_view(vars@));
                    }
                    return Err(e);
                },
                Ok(()) => {},
            },
            _ => {},
        }
        t = t + 1;
    }
    // Every template token must name a variable or a parameter.
    let mut valid: Vec<String> = Vec::new();
    push_all(&mut valid, &names);
    push_all(&mut valid, &params);
    proof {
        assert(strs_view(valid@) =~= variable_names(vm@) + strs_view(params@));
    }
    substitute_variables_in_value(&value, &vars, &valid)
}

} // verus!
