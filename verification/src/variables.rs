//! Checks on workflow variables and on the template tokens of a workflow.
//!
//! A token is `{inner}` where `inner` holds neither `{` nor `}`; its name is
//! the text of `inner` before the first `:`. A `{` right after `$` opens no
//! token (that is shell syntax). Only tokens whose name is an identifier are
//! taken for template references.

use vstd::prelude::*;

use crate::templates::{bindings_view, lookup, lookup_exec, name_and_format, Bindings};
use crate::text::{chars_eq, chars_of, is_identifier_chars, slice_chars, spec_is_identifier, string_of, extend_chars, extend_str};
use crate::parameters::{first_index_exec, lemma_first_index};
use crate::workflow_spec::{strs_view, unit_view};

verus! {

/// The first index at or after `j` holding `{` or `}`, or `s.len()`.
pub open spec fn token_end(s: Seq<char>, j: int) -> int
    decreases s.len() - j,
{
    if j < 0 || j >= s.len() || s[j] == '}' || s[j] == '{' {
        j
    } else {
        token_end(s, j + 1)
    }
}

/// The inside of the first token at or after position `i` whose name is an
/// identifier missing from `allowed`.
pub open spec fn flagged_from(s: Seq<char>, i: int, allowed: Seq<Seq<char>>) -> Option<Seq<char>>
    decreases s.len() - i,
{
    if i < 0 || i >= s.len() {
        None
    } else if s[i] != '{' || (i > 0 && s[i - 1] == '$') {
        flagged_from(s, i + 1, allowed)
    } else {
        let j = token_end(s, i + 1);
        if j <= i || j >= s.len() || s[j] != '}' {
            flagged_from(s, i + 1, allowed)
        } else {
            let inner = s.subrange(i + 1, j);
            let name = name_and_format(inner).0;
            if spec_is_identifier(name) && !allowed.contains(name) {
                Some(inner)
            } else {
                flagged_from(s, j + 1, allowed)
            }
        }
    }
}

pub proof fn lemma_token_end(s: Seq<char>, j: int)
    requires
        0 <= j <= s.len(),
    ensures
        j <= token_end(s, j) <= s.len(),
        forall|k: int| j <= k < token_end(s, j) ==> s[k] != '}' && s[k] != '{',
    decreases s.len() - j,
{
    if j < s.len() && s[j] != '}' && s[j] != '{' {
        lemma_token_end(s, j + 1);
    }
}

fn token_end_exec(s: &Vec<char>, j: usize) -> (r: usize)
    requires
        j <= s.len(),
    ensures
        r == token_end(s@, j as int),
{
    let mut k: usize = j;
    while k < s.len() && s[k] != '}' && s[k] != '{'
        invariant
            j <= k <= s.len(),
            token_end(s@, j as int) == token_end(s@, k as int),
        decreases s.len() - k,
    {
        k = k + 1;
    }
    k
}

pub(crate) fn contains_name(names: &Vec<String>, name: &Vec<char>) -> (b: bool)
    ensures
        b == strs_view(names@).contains(name@),
{
    let mut i: usize = 0;
    while i < names.len()
        invariant
            i <= names.len(),
            forall|k: int| 0 <= k < i ==> names@[k]@ != name@,
        decreases names.len() - i,
    {
        let n = chars_of(names[i].as_str());
        if chars_eq(&n, name) {
            proof {
                assert(strs_view(names@)[i as int] == name@);
            }
            return true;
        }
        i = i + 1;
    }
    proof {
        if strs_view(names@).contains(name@) {
            let k = choose|k: int| 0 <= k < strs_view(names@).len() && strs_view(names@)[k] == name@;
            assert(names@[k]@ == name@);
        }
    }
    false
}

/// The first flagged token of `s`, scanning from the start.
fn first_flagged(s: &Vec<char>, allowed: &Vec<String>) -> (r: Option<Vec<char>>)
    ensures
        flagged_from(s@, 0, strs_view(allowed@)) == match r {
            Some(v) => Some(v@),
            None => None,
        },
{
    let ghost a = strs_view(allowed@);
    let mut i: usize = 0;
    while i < s.len()
        invariant
            i <= s.len(),
            a == strs_view(allowed@),
            flagged_from(s@, 0, a) == flagged_from(s@, i as int, a),
        decreases s.len() - i,
    {
        if s[i] != '{' || (i > 0 && s[i - 1] == '$') {
            i = i + 1;
            continue;
        }
        let j = token_end_exec(s, i + 1);
        proof {
            lemma_token_end(s@, i + 1);
        }
        if j >= s.len() || s[j] != '}' {
            i = i + 1;
            continue;
        }
        let inner = slice_chars(s, i + 1, j);
        let c = first_index_exec(&inner, ':');
        proof {
            lemma_first_index(inner@, ':');
        }
        let name = if c < inner.len() {
            slice_chars(&inner, 0, c)
        } else {
            slice_chars(&inner, 0, inner.len())
        };
        proof {
            if c < inner.len() {
                assert(name@ =~= inner@.take(c as int));
            } else {
                assert(name@ =~= inner@);
            }
            assert(name@ == name_and_format(inner@).0);
        }
        if is_identifier_chars(&name) && !contains_name(allowed, &name) {
            return Some(inner);
        }
        i = j + 1;
    }
    None
}

pub open spec fn undefined_token_message(inner: Seq<char>, s: Seq<char>) -> Seq<char> {
    "undefined template name '{"@ + inner + "}' in '"@ + s
        + "': not declared in `variables` or any `parameters` map. Add it to `variables` or fix the typo."@
}

/// Checks that every template token of `s` whose name is an identifier names
/// a variable or a parameter (one of `valid_token_names`); `${...}` is shell
/// syntax and is not checked.
pub fn check_undefined_tokens(s: &str, valid_token_names: &Vec<String>) -> (r: Result<(), String>)
    ensures
        unit_view(r) == match flagged_from(s@, 0, strs_view(valid_token_names@)) {
            None => Ok::<(), Seq<char>>(()),
            Some(inner) => Err(undefined_token_message(inner, s@)),
        },
{
    let v = chars_of(s);
    match first_flagged(&v, valid_token_names) {
        None => Ok(()),
        Some(inner) => {
            let mut m = chars_of("undefined template name '{");
            extend_chars(&mut m, &inner);
            extend_str(&mut m, "}' in '");
            extend_str(&mut m, s);
            extend_str(
                &mut m,
                "': not declared in `variables` or any `parameters` map. Add it to `variables` or fix the typo.",
            );
            Err(string_of(&m))
        },
    }
}

pub open spec fn variable_reference_message(var_name: Seq<char>, s: Seq<char>, inner: Seq<char>) -> Seq<char> {
    "variable '"@ + var_name + "' value '"@ + s + "' references another variable '{"@ + inner
        + "}'. Variable values may not reference other variables; resolution order would be undefined. Inline the constant or compose at the use site."@
}

pub open spec fn template_reference_message(var_name: Seq<char>, s: Seq<char>, inner: Seq<char>) -> Seq<char> {
    "variable '"@ + var_name + "' value '"@ + s + "' contains template reference '{"@ + inner
        + "}'. Variable values must be plain literal strings (shell-style `${...}` is allowed). Compose at the use site instead."@
}

/// The verdict on a variable's value: it may hold no template token at all
/// (shell-style `${...}` aside); a token naming another variable gets its
/// own message.
pub open spec fn variable_value_verdict(
    var_name: Seq<char>,
    s: Seq<char>,
    variables: Seq<(Seq<char>, crate::parameters::ParamVal)>,
) -> Result<(), Seq<char>> {
    match flagged_from(s, 0, Seq::empty()) {
        None => Ok(()),
        Some(inner) => if lookup(variables, name_and_format(inner).0) is Some {
            Err(variable_reference_message(var_name, s, inner))
        } else {
            Err(template_reference_message(var_name, s, inner))
        },
    }
}

/// Checks that a workflow variable's value is a plain literal.
pub fn check_variable_value_tokens(var_name: &str, s: &str, variables: &Bindings) -> (r: Result<
    (),
    String,
>)
    ensures
        unit_view(r) == variable_value_verdict(var_name@, s@, bindings_view(variables@)),
{
    let v = chars_of(s);
    let none: Vec<String> = Vec::new();
    proof {
        assert(strs_view(none@) =~= Seq::<Seq<char>>::empty());
    }
    match first_flagged(&v, &none) {
        None => Ok(()),
        Some(inner) => {
            let c = first_index_exec(&inner, ':');
            proof {
                lemma_first_index(inner@, ':');
            }
            let name = if c < inner.len() {
                slice_chars(&inner, 0, c)
            } else {
                slice_chars(&inner, 0, inner.len())
            };
            proof {
                if c < inner.len() {
                    assert(name@ =~= inner@.take(c as int));
                } else {
                    assert(name@ =~= inner@);
                }
            }
            let mut m = chars_of("variable '");
            extend_str(&mut m, var_name);
            extend_str(&mut m, "' value '");
            extend_str(&mut m, s);
            match lookup_exec(variables, &name) {
                Some(_) => {
                    extend_str(&mut m, "' references another variable '{");
                    extend_chars(&mut m, &inner);
                    extend_str(
                        &mut m,
                        "}'. Variable values may not reference other variables; resolution order would be undefined. Inline the constant or compose at the use site.",
                    );
                },
                None => {
                    extend_str(&mut m, "' contains template reference '{");
                    extend_chars(&mut m, &inner);
                    extend_str(
                        &mut m,
                        "}'. Variable values must be plain literal strings (shell-style `${...}` is allowed). Compose at the use site instead.",
                    );
                },
            }
            Err(string_of(&m))
        },
    }
}

} // verus!
