//! `{name}` / `{name:format}` substitution in template strings.
//!
//! A token is a `{`, the text up to the next `}`, and that `}`. Its name is the
//! text before the first `:`, its format the text after it. A token whose name
//! has a value is replaced by the value's formatted text; any other text is
//! copied unchanged. When shell-style text is protected, a `{` right after a
//! `$` starts no token, so `${HOME}` stays as it is.

use vstd::prelude::*;

use crate::parameters::{
    first_index, first_index_exec, format_value, lemma_first_index, ParamVal, ParameterValue,
};
use crate::text::{chars_eq, chars_of, extend_chars, slice_chars, string_of};

verus! {

/// Named values: one combination of parameters, or the workflow variables.
pub type Bindings = Vec<(String, ParameterValue)>;

pub open spec fn bindings_view(b: Seq<(String, ParameterValue)>) -> Seq<(Seq<char>, ParamVal)> {
    b.map_values(|p: (String, ParameterValue)| (p.0@, p.1@))
}

pub open spec fn bindings_well_formed(b: Seq<(String, ParameterValue)>) -> bool {
    forall|i: int| 0 <= i < b.len() ==> (#[trigger] b[i]).1.well_formed()
}

/// The value bound to `name` (the first binding of that name).
pub open spec fn lookup(b: Seq<(Seq<char>, ParamVal)>, name: Seq<char>) -> Option<ParamVal>
    decreases b.len(),
{
    if b.len() == 0 {
        None
    } else if b[0].0 == name {
        Some(b[0].1)
    } else {
        lookup(b.drop_first(), name)
    }
}

/// A token's inside split into its name and its optional format.
pub open spec fn name_and_format(inner: Seq<char>) -> (Seq<char>, Option<Seq<char>>) {
    let c = first_index(inner, ':');
    if c < inner.len() {
        (inner.take(c as int), Some(inner.skip(c as int + 1)))
    } else {
        (inner, None)
    }
}

/// What a token with inside `inner` is replaced by, if anything.
pub open spec fn replacement(b: Seq<(Seq<char>, ParamVal)>, inner: Seq<char>) -> Option<
    Seq<char>,
> {
    let (name, fmt) = name_and_format(inner);
    match lookup(b, name) {
        Some(v) => Some(format_value(v, fmt)),
        None => None,
    }
}

/// Index of the first `}` at or after `start`, or `s.len()`.
pub open spec fn close_index(s: Seq<char>, start: int) -> int {
    start + first_index(s.skip(start), '}')
}

pub open spec fn starts_token(s: Seq<char>, i: int, protect_shell: bool) -> bool {
    s[i] == '{' && !(protect_shell && i > 0 && s[i - 1] == '$')
}

/// The substituted text of `s` from position `i` on.
pub open spec fn subst_from(
    s: Seq<char>,
    i: int,
    b: Seq<(Seq<char>, ParamVal)>,
    protect_shell: bool,
) -> Seq<char>
    decreases s.len() - i,
{
    if i < 0 || i >= s.len() {
        Seq::empty()
    } else if !starts_token(s, i, protect_shell) {
        seq![s[i]] + subst_from(s, i + 1, b, protect_shell)
    } else {
        let e = close_index(s, i + 1);
        if e >= s.len() || e < i + 1 {
            seq![s[i]] + subst_from(s, i + 1, b, protect_shell)
        } else {
            let inner = s.subrange(i + 1, e);
            match replacement(b, inner) {
                Some(r) => r + subst_from(s, e + 1, b, protect_shell),
                None => s.subrange(i, e + 1) + subst_from(s, e + 1, b, protect_shell),
            }
        }
    }
}

/// `s` with every token whose name is bound replaced by its formatted value.
pub open spec fn substitute(s: Seq<char>, b: Seq<(Seq<char>, ParamVal)>, protect_shell: bool) -> Seq<
    char,
> {
    subst_from(s, 0, b, protect_shell)
}

pub proof fn lemma_close_index(s: Seq<char>, start: int)
    requires
        0 <= start <= s.len(),
    ensures
        start <= close_index(s, start) <= s.len(),
        forall|k: int| start <= k < close_index(s, start) ==> s[k] != '}',
        close_index(s, start) < s.len() ==> s[close_index(s, start)] == '}',
{
    lemma_first_index(s.skip(start), '}');
    assert forall|k: int| start <= k < close_index(s, start) implies s[k] != '}' by {
        assert(s.skip(start)[k - start] == s[k]);
    }
}

/// Finds the binding for a name.
pub fn lookup_exec(b: &Bindings, name: &Vec<char>) -> (r: Option<usize>)
    ensures
        match r {
            Some(k) => k < b.len() && lookup(bindings_view(b@), name@) == Some(b@[k as int].1@),
            None => lookup(bindings_view(b@), name@) is None,
        },
{
    let mut k: usize = 0;
    proof {
        assert(bindings_view(b@).skip(0) =~= bindings_view(b@));
    }
    while k < b.len()
        invariant
            k <= b.len(),
            lookup(bindings_view(b@), name@) == lookup(bindings_view(b@).skip(k as int), name@),
        decreases b.len() - k,
    {
        let key = chars_of(b[k].0.as_str());
        proof {
            assert(bindings_view(b@).skip(k as int)[0] == (b@[k as int].0@, b@[k as int].1@));
            assert(bindings_view(b@).skip(k as int).drop_first() =~= bindings_view(b@).skip(
                k + 1,
            ));
        }
        if chars_eq(&key, name) {
            return Some(k);
        }
        k = k + 1;
    }
    None
}

fn name_and_format_exec(inner: &Vec<char>) -> (r: (Vec<char>, Option<Vec<char>>))
    ensures
        name_and_format(inner@) == (
            r.0@,
            match r.1 {
                Some(f) => Some(f@),
                None => None,
            },
        ),
{
    let c = first_index_exec(inner, ':');
    proof {
        lemma_first_index(inner@, ':');
    }
    if c < inner.len() {
        let name = slice_chars(inner, 0, c);
        let fmt = slice_chars(inner, c + 1, inner.len());
        proof {
            assert(name@ =~= inner@.take(c as int));
            assert(fmt@ =~= inner@.skip(c + 1));
        }
        (name, Some(fmt))
    } else {
        (slice_chars(inner, 0, inner.len()), None)
    }
}

fn replacement_exec(b: &Bindings, inner: &Vec<char>) -> (r: Option<Vec<char>>)
    requires
        bindings_well_formed(b@),
    ensures
        replacement(bindings_view(b@), inner@) == match r {
            Some(v) => Some(v@),
            None => None,
        },
{
    let (name, fmt) = name_and_format_exec(inner);
    proof {
        if inner@.len() == name@.len() {
            assert(name@ =~= inner@.subrange(0, inner@.len() as int));
        }
    }
    match lookup_exec(b, &name) {
        None => None,
        Some(k) => {
            let v = &b[k].1;
            proof {
                assert(v.well_formed());
            }
            match fmt {
                Some(f) => Some(v.format_chars(Some(&f))),
                None => Some(v.format_chars(None)),
            }
        },
    }
}

/// Substitutes bound tokens in `s`.
pub fn substitute_chars(s: &Vec<char>, b: &Bindings, protect_shell: bool) -> (r: Vec<char>)
    requires
        bindings_well_formed(b@),
    ensures
        r@ == substitute(s@, bindings_view(b@), protect_shell),
{
    let ghost bv = bindings_view(b@);
    let mut out: Vec<char> = Vec::new();
    let mut i: usize = 0;
    while i < s.len()
        invariant
            i <= s.len(),
            bindings_well_formed(b@),
            bv == bindings_view(b@),
            substitute(s@, bv, protect_shell) == out@ + subst_from(s@, i as int, bv, protect_shell),
        decreases s.len() - i,
    {
        let is_open = s[i] == '{' && !(protect_shell && i > 0 && s[i - 1] == '$');
        if !is_open {
            let ghost before = out@;
            out.push(s[i]);
            proof {
                assert(out@ =~= before + seq![s@[i as int]]);
            }
            i = i + 1;
            continue;
        }
        let rest = slice_chars(s, i + 1, s.len());
        let rel = first_index_exec(&rest, '}');
        proof {
            assert(rest@ =~= s@.skip(i + 1));
            lemma_close_index(s@, i + 1);
        }
        let e = i + 1 + rel;
        if e >= s.len() {
            let ghost before = out@;
            out.push(s[i]);
            proof {
                assert(out@ =~= before + seq![s@[i as int]]);
            }
            i = i + 1;
            continue;
        }
        let inner = slice_chars(s, i + 1, e);
        match replacement_exec(b, &inner) {
            Some(rep) => {
                let ghost before = out@;
                extend_chars(&mut out, &rep);
                proof {
                    assert(out@ =~= before + rep@);
                }
            },
            None => {
                let raw = slice_chars(s, i, e + 1);
                let ghost before = out@;
                extend_chars(&mut out, &raw);
                proof {
                    assert(out@ =~= before + raw@);
                }
            },
        }
        i = e + 1;
    }
    proof {
        assert(out@ + Seq::<char>::empty() =~= out@);
    }
    out
}

/// Substitutes parameter tokens in a template: every `{name}` or
/// `{name:format}` whose name is bound in `combination` becomes the value's
/// text.
pub fn substitute_parameters(template: &str, combination: &Bindings) -> (r: String)
    requires
        bindings_well_formed(combination@),
    ensures
        r@ == substitute(template@, bindings_view(combination@), false),
{
    let v = chars_of(template);
    let out = substitute_chars(&v, combination, false);
    string_of(&out)
}

/// Substitutes workflow variables in a string: like parameter substitution,
/// except that a `{` right after `$` starts no token, so shell expansions such
/// as `${HOME}` are kept verbatim.
pub fn substitute_workflow_variables_in_string(s: &str, variables: &Bindings) -> (r: String)
    requires
        bindings_well_formed(variables@),
    ensures
        r@ == substitute(s@, bindings_view(variables@), true),
{
    let v = chars_of(s);
    let out = substitute_chars(&v, variables, true);
    string_of(&out)
}

} // verus!
