//! A workflow specification written as KDL text.
//!
//! Strings are quoted; one that holds a newline, a quote or a backslash is
//! written raw (`r#"..."#`), with as many `#` as it takes for the closing
//! delimiter not to occur inside. Booleans are `#true` / `#false`. The text
//! is a list of lines joined by newlines.

use vstd::prelude::*;

use crate::json::{json_text, to_json_text};
use crate::parameters::{contains_char, repeat, repeat_chars};
use crate::references::starts_with_at;
use crate::sorted::str_lt;
use crate::text::{chars_of, concat2, concat3, copy_string, extend_chars, extend_str, i64_to_string, int_text, join, join_strings, string_of};
use crate::execution::{ExecutionConfig, ExecutionMode, MonitorGranularity, ResourceMonitorConfig, StdioConfig, StdioMode, spec_jobs_config};
use crate::workflow::WorkflowSpec;
use crate::workflow_spec::{strs_view, FileSpec, JobSpec, ResourceRequirementsSpec, SlurmSchedulerSpec, UserDataSpec, WorkflowActionSpec};

verus! {

// ---------------------------------------------------------------------------
// Strings and values
// ---------------------------------------------------------------------------

pub open spec fn needs_raw(s: Seq<char>) -> bool {
    s.contains('\n') || s.contains('"') || s.contains('\\')
}

pub open spec fn occurs(s: Seq<char>, p: Seq<char>) -> bool {
    exists|i: int| starts_with_at(s, i, p)
}

/// A quote followed by `n` hashes.
pub open spec fn quote_hashes(n: nat) -> Seq<char> {
    seq!['"'] + repeat('#', n)
}

/// The fewest hashes, from `n` on, whose closing delimiter does not occur
/// in `s`.
pub open spec fn raw_hashes(s: Seq<char>, n: nat) -> nat
    decreases s.len() + 1 - n,
{
    if n > s.len() || !occurs(s, quote_hashes(n)) {
        n
    } else {
        raw_hashes(s, n + 1)
    }
}

/// A string as a KDL string.
pub open spec fn kdl_string(s: Seq<char>) -> Seq<char> {
    if needs_raw(s) {
        let h = repeat('#', raw_hashes(s, 0));
        seq!['r'] + h + seq!['"'] + s + seq!['"'] + h
    } else {
        seq!['"'] + s + seq!['"']
    }
}

pub open spec fn kdl_bool(b: bool) -> Seq<char> {
    if b {
        "#true"@
    } else {
        "#false"@
    }
}

fn occurs_exec(s: &Vec<char>, p: &Vec<char>) -> (b: bool)
    ensures
        b == occurs(s@, p@),
{
    if p.len() > s.len() {
        proof {
            assert forall|i: int| !starts_with_at(s@, i, p@) by {}
        }
        return false;
    }
    if p.len() == 0 {
        proof {
            assert(s@.subrange(0, 0) =~= p@);
            assert(starts_with_at(s@, 0, p@));
        }
        return true;
    }
    let mut i: usize = 0;
    while i <= s.len() - p.len()
        invariant
            1 <= p.len() <= s.len(),
            i <= s.len() - p.len() + 1,
            forall|k: int| 0 <= k < i ==> !starts_with_at(s@, k, p@),
        decreases s.len() - i,
    {
        let mut j: usize = 0;
        let mut same = true;
        while j < p.len() && same
            invariant
                i + p.len() <= s.len(),
                j <= p.len(),
                same ==> forall|m: int| 0 <= m < j ==> s@[i + m] == p@[m],
                !same ==> !starts_with_at(s@, i as int, p@),
            decreases p.len() - j + if same { 1int } else { 0int },
        {
            if s[i + j] != p[j] {
                same = false;
                proof {
                    assert(s@.subrange(i as int, i + p.len())[j as int] != p@[j as int]);
                }
            } else {
                j = j + 1;
            }
        }
        if same {
            proof {
                assert(s@.subrange(i as int, i + p.len()) =~= p@);
                assert(starts_with_at(s@, i as int, p@));
            }
            return true;
        }
        i = i + 1;
    }
    proof {
        assert forall|k: int| !starts_with_at(s@, k, p@) by {
            if starts_with_at(s@, k, p@) {
                assert(0 <= k && k < i);
            }
        }
    }
    false
}

/// A string as a KDL string.
pub fn kdl_escape(s: &str) -> (r: String)
    ensures
        r@ == kdl_string(s@),
{
    let v = chars_of(s);
    if contains_char(&v, '\n') || contains_char(&v, '"') || contains_char(&v, '\\') {
        let mut h: usize = 0;
        let mut delim: Vec<char> = Vec::new();
        delim.push('"');
        proof {
            assert(delim@ =~= quote_hashes(0));
        }
        while h <= v.len() && occurs_exec(&v, &delim)
            invariant
                h <= v.len() + 1,
                delim@ == quote_hashes(h as nat),
                raw_hashes(v@, 0) == raw_hashes(v@, h as nat),
            decreases v.len() + 1 - h,
        {
            delim.push('#');
            h = h + 1;
            proof {
                assert(delim@ =~= quote_hashes(h as nat));
            }
        }
        let hashes = repeat_chars('#', h);
        let mut out: Vec<char> = Vec::new();
        out.push('r');
        extend_chars(&mut out, &hashes);
        out.push('"');
        extend_chars(&mut out, &v);
        out.push('"');
        extend_chars(&mut out, &hashes);
        proof {
            assert(out@ =~= kdl_string(s@));
        }
        string_of(&out)
    } else {
        let mut out: Vec<char> = Vec::new();
        out.push('"');
        extend_chars(&mut out, &v);
        out.push('"');
        proof {
            assert(out@ =~= kdl_string(s@));
        }
        string_of(&out)
    }
}

fn bool_text(b: bool) -> (r: &'static str)
    ensures
        r@ == kdl_bool(b),
{
    if b {
        "#true"
    } else {
        "#false"
    }
}

// ---------------------------------------------------------------------------
// Entries sorted by key
// ---------------------------------------------------------------------------

pub open spec fn pairs_of(m: Seq<(String, String)>) -> Seq<(Seq<char>, Seq<char>)> {
    m.map_values(|p: (String, String)| (p.0@, p.1@))
}

/// `u` with `x` put after every entry whose key is not greater than its own.
pub open spec fn insert_by_key(u: Seq<(Seq<char>, Seq<char>)>, x: (Seq<char>, Seq<char>)) -> Seq<(Seq<char>, Seq<char>)>
    decreases u.len(),
{
    if u.len() == 0 {
        seq![x]
    } else if str_lt(x.0, u[0].0) {
        seq![x] + u
    } else {
        seq![u[0]] + insert_by_key(u.drop_first(), x)
    }
}

/// The entries in the order of their keys, entries of equal keys in their
/// own order (a stable sort).
pub open spec fn sort_by_key(v: Seq<(Seq<char>, Seq<char>)>) -> Seq<(Seq<char>, Seq<char>)>
    decreases v.len(),
{
    if v.len() == 0 {
        Seq::empty()
    } else {
        insert_by_key(sort_by_key(v.drop_last()), v.last())
    }
}

fn insert_by_key_exec(u: &mut Vec<(String, String)>, x: (String, String))
    ensures
        pairs_of(final(u)@) == insert_by_key(pairs_of(old(u)@), (x.0@, x.1@)),
{
    let ghost start = pairs_of(u@);
    let ghost xv = (x.0@, x.1@);
    let key = chars_of(x.0.as_str());
    let mut i: usize = 0;
    proof {
        assert(start.skip(0) =~= start);
        assert(start.take(0) =~= Seq::<(Seq<char>, Seq<char>)>::empty());
    }
    while i < u.len() && !crate::sorted::str_lt_exec(&key, &chars_of(u[i].0.as_str()))
        invariant
            i <= u.len(),
            start == pairs_of(u@),
            key@ == x.0@,
            xv == (x.0@, x.1@),
            insert_by_key(start, xv) == start.take(i as int) + insert_by_key(start.skip(i as int), xv),
        decreases u.len() - i,
    {
        proof {
            assert(start.skip(i as int)[0] == (u@[i as int].0@, u@[i as int].1@));
            assert(start.skip(i as int).drop_first() =~= start.skip(i + 1));
        }
        proof {
            assert(start.take(i + 1) =~= start.take(i as int) + seq![start[i as int]]);
            assert(insert_by_key(start.skip(i as int), xv) == seq![start[i as int]] + insert_by_key(start.skip(i + 1), xv));
            assert(start.take(i as int) + (seq![start[i as int]] + insert_by_key(start.skip(i + 1), xv))
                =~= start.take(i + 1) + insert_by_key(start.skip(i + 1), xv));
        }
        i = i + 1;
    }
    proof {
        if i == u.len() {
            assert(start.skip(i as int) =~= Seq::<(Seq<char>, Seq<char>)>::empty());
        } else {
            assert(start.skip(i as int)[0] == (u@[i as int].0@, u@[i as int].1@));
        }
        assert(insert_by_key(start.skip(i as int), xv) == seq![xv] + start.skip(i as int));
    }
    u.insert(i, x);
    proof {
        assert(pairs_of(u@) =~= start.take(i as int) + (seq![xv] + start.skip(i as int)));
    }
}

/// The entries sorted by key.
fn sorted_by_key(m: &Vec<(String, String)>) -> (r: Vec<(String, String)>)
    ensures
        pairs_of(r@) == sort_by_key(pairs_of(m@)),
{
    let mut r: Vec<(String, String)> = Vec::new();
    let mut i: usize = 0;
    proof {
        assert(pairs_of(m@).take(0) =~= Seq::<(Seq<char>, Seq<char>)>::empty());
        assert(pairs_of(r@) =~= sort_by_key(pairs_of(m@).take(0)));
    }
    while i < m.len()
        invariant
            i <= m.len(),
            pairs_of(r@) == sort_by_key(pairs_of(m@).take(i as int)),
        decreases m.len() - i,
    {
        proof {
            assert(pairs_of(m@).take(i + 1).drop_last() =~= pairs_of(m@).take(i as int));
            assert(pairs_of(m@).take(i + 1).last() == (m@[i as int].0@, m@[i as int].1@));
        }
        insert_by_key_exec(&mut r, (copy_string(&m[i].0), copy_string(&m[i].1)));
        i = i + 1;
    }
    proof {
        assert(pairs_of(m@).take(m.len() as int) =~= pairs_of(m@));
    }
    r
}

// ---------------------------------------------------------------------------
// Lines
// ---------------------------------------------------------------------------

pub open spec fn string_lines(prefix: Seq<char>, o: Option<String>) -> Seq<Seq<char>> {
    match o {
        Some(v) => seq![prefix + kdl_string(v@)],
        None => Seq::empty(),
    }
}

pub open spec fn int_lines(prefix: Seq<char>, o: Option<int>) -> Seq<Seq<char>> {
    match o {
        Some(n) => seq![prefix + int_text(n)],
        None => Seq::empty(),
    }
}

pub open spec fn wide(o: Option<i64>) -> Option<int> {
    match o {
        Some(n) => Some(n as int),
        None => None,
    }
}

pub open spec fn wide32(o: Option<i32>) -> Option<int> {
    match o {
        Some(n) => Some(n as int),
        None => None,
    }
}

pub open spec fn bool_lines(prefix: Seq<char>, o: Option<bool>) -> Seq<Seq<char>> {
    match o {
        Some(b) => seq![prefix + kdl_bool(b)],
        None => Seq::empty(),
    }
}

/// One line per item.
pub open spec fn list_lines(prefix: Seq<char>, o: Option<Vec<String>>) -> Seq<Seq<char>> {
    match o {
        Some(v) => strs_view(v@).map_values(|x: Seq<char>| prefix + kdl_string(x)),
        None => Seq::empty(),
    }
}

/// A block of `key value` lines, when the map holds entries.
pub open spec fn map_block(head: Seq<char>, indent: Seq<char>, close: Seq<char>, o: Option<Vec<(String, String)>>, sorted: bool) -> Seq<
    Seq<char>,
> {
    match o {
        Some(v) => if v.len() == 0 {
            Seq::empty()
        } else {
            let entries = if sorted {
                sort_by_key(pairs_of(v@))
            } else {
                pairs_of(v@)
            };
            seq![head] + entries.map_values(
                |e: (Seq<char>, Seq<char>)| indent + e.0 + " "@ + kdl_string(e.1),
            ) + seq![close]
        },
        None => Seq::empty(),
    }
}

fn push_line(lines: &mut Vec<String>, s: String)
    ensures
        strs_view(final(lines)@) == strs_view(old(lines)@).push(s@),
{
    let ghost prev = lines@;
    lines.push(s);
    proof {
        assert(lines@ == prev.push(s));
        assert(strs_view(lines@) =~= strs_view(prev).push(s@));
    }
}

fn push_string_line(lines: &mut Vec<String>, prefix: &str, o: &Option<String>)
    ensures
        strs_view(final(lines)@) == strs_view(old(lines)@) + string_lines(prefix@, *o),
{
    match o {
        Some(v) => {
            push_line(lines, concat2(prefix, kdl_escape(v.as_str()).as_str()));
            proof {
                assert(strs_view(lines@) =~= strs_view(old(lines)@) + string_lines(prefix@, *o));
            }
        },
        None => {
            proof {
                assert(strs_view(lines@) =~= strs_view(lines@) + Seq::<Seq<char>>::empty());
            }
        },
    }
}

fn push_int_line(lines: &mut Vec<String>, prefix: &str, o: Option<i64>)
    ensures
        strs_view(final(lines)@) == strs_view(old(lines)@) + int_lines(prefix@, wide(o)),
{
    match o {
        Some(n) => {
            push_line(lines, concat2(prefix, i64_to_string(n).as_str()));
            proof {
                assert(strs_view(lines@) =~= strs_view(old(lines)@) + int_lines(prefix@, wide(o)));
            }
        },
        None => {
            proof {
                assert(strs_view(lines@) =~= strs_view(lines@) + Seq::<Seq<char>>::empty());
            }
        },
    }
}

fn push_int32_line(lines: &mut Vec<String>, prefix: &str, o: Option<i32>)
    ensures
        strs_view(final(lines)@) == strs_view(old(lines)@) + int_lines(prefix@, wide32(o)),
{
    let w: Option<i64> = match o {
        Some(n) => Some(n as i64),
        None => None,
    };
    proof {
        assert(wide(w) == wide32(o));
    }
    push_int_line(lines, prefix, w);
}

fn push_bool_line(lines: &mut Vec<String>, prefix: &str, o: Option<bool>)
    ensures
        strs_view(final(lines)@) == strs_view(old(lines)@) + bool_lines(prefix@, o),
{
    match o {
        Some(b) => {
            push_line(lines, concat2(prefix, bool_text(b)));
            proof {
                assert(strs_view(lines@) =~= strs_view(old(lines)@) + bool_lines(prefix@, o));
            }
        },
        None => {
            proof {
                assert(strs_view(lines@) =~= strs_view(lines@) + Seq::<Seq<char>>::empty());
            }
        },
    }
}

fn push_list_lines(lines: &mut Vec<String>, prefix: &str, o: &Option<Vec<String>>)
    ensures
        strs_view(final(lines)@) == strs_view(old(lines)@) + list_lines(prefix@, *o),
{
    let ghost start = strs_view(lines@);
    match o {
        Some(v) => {
            let ghost all = strs_view(v@).map_values(|x: Seq<char>| prefix@ + kdl_string(x));
            let mut i: usize = 0;
            while i < v.len()
                invariant
                    i <= v.len(),
                    all == strs_view(v@).map_values(|x: Seq<char>| prefix@ + kdl_string(x)),
                    strs_view(lines@) == start + all.take(i as int),
                decreases v.len() - i,
            {
                push_line(lines, concat2(prefix, kdl_escape(v[i].as_str()).as_str()));
                proof {
                    assert(strs_view(lines@) =~= start + all.take(i + 1));
                }
                i = i + 1;
            }
            proof {
                assert(all.take(v.len() as int) =~= all);
            }
        },
        None => {
            proof {
                assert(strs_view(lines@) =~= start + Seq::<Seq<char>>::empty());
            }
        },
    }
}

#[verifier::spinoff_prover]
#[verifier::rlimit(40)]
fn push_map_block(lines: &mut Vec<String>, head: &str, indent: &str, close: &str, o: &Option<Vec<(String, String)>>, sorted: bool)
    ensures
        strs_view(final(lines)@) == strs_view(old(lines)@) + map_block(head@, indent@, close@, *o, sorted),
{
    let ghost start = strs_view(lines@);
    match o {
        Some(v) => {
            if v.len() == 0 {
                proof {
                    assert(strs_view(lines@) =~= start + Seq::<Seq<char>>::empty());
                }
                return;
            }
            let entries = if sorted {
                sorted_by_key(v)
            } else {
                let mut c: Vec<(String, String)> = Vec::new();
                let mut k: usize = 0;
                while k < v.len()
                    invariant
                        k <= v.len(),
                        pairs_of(c@) == pairs_of(v@).take(k as int),
                    decreases v.len() - k,
                {
                    let e = (copy_string(&v[k].0), copy_string(&v[k].1));
                    let ghost prev = c@;
                    c.push(e);
                    proof {
                        assert(c@ == prev.push(e));
                        assert(pairs_of(c@) =~= pairs_of(prev).push((e.0@, e.1@)));
                        assert(pairs_of(c@) =~= pairs_of(v@).take(k + 1));
                    }
                    k = k + 1;
                }
                proof {
                    assert(pairs_of(v@).take(v.len() as int) =~= pairs_of(v@));
                }
                c
            };
            let ghost ev = pairs_of(entries@);
            let ghost body = ev.map_values(|e: (Seq<char>, Seq<char>)| indent@ + e.0 + " "@ + kdl_string(e.1));
            push_line(lines, copy_string(&crate::text::lit(head)));
            let ghost after_head = strs_view(lines@);
            let mut i: usize = 0;
            while i < entries.len()
                invariant
                    i <= entries.len(),
                    ev == pairs_of(entries@),
                    body == ev.map_values(|e: (Seq<char>, Seq<char>)| indent@ + e.0 + " "@ + kdl_string(e.1)),
                    strs_view(lines@) == after_head + body.take(i as int),
                decreases entries.len() - i,
            {
                let line = concat3(concat2(indent, entries[i].0.as_str()).as_str(), " ", kdl_escape(entries[i].1.as_str()).as_str());
                push_line(lines, line);
                proof {
                    assert(body[i as int] == indent@ + ev[i as int].0 + " "@ + kdl_string(ev[i as int].1));
                    assert(strs_view(lines@) =~= after_head + body.take(i + 1));
                }
                i = i + 1;
            }
            push_line(lines, crate::text::lit(close));
            proof {
                assert(body.take(entries.len() as int) =~= body);
                assert(strs_view(lines@) =~= start + map_block(head@, indent@, close@, *o, sorted));
            }
        },
        None => {
            proof {
                assert(strs_view(lines@) =~= start + Seq::<Seq<char>>::empty());
            }
        },
    }
}

// ---------------------------------------------------------------------------
// Records
// ---------------------------------------------------------------------------

pub open spec fn stdio_mode_name(m: StdioMode) -> Seq<char> {
    match m {
        StdioMode::Separate => "separate"@,
        StdioMode::Combined => "combined"@,
        StdioMode::NoStdout => "no_stdout"@,
        StdioMode::NoStderr => "no_stderr"@,
        StdioMode::NoCapture => "none"@,
    }
}

pub open spec fn stdio_lines(indent: Seq<char>, c: StdioConfig) -> Seq<Seq<char>> {
    seq![indent + "stdio {"@, indent + "    mode \""@ + stdio_mode_name(c.mode) + "\""@] + bool_lines(
        indent + "    delete_on_success "@,
        c.delete_on_success,
    ) + seq![indent + "}"@]
}

fn stdio_mode_text(m: StdioMode) -> (r: &'static str)
    ensures
        r@ == stdio_mode_name(m),
{
    match m {
        StdioMode::Separate => "separate",
        StdioMode::Combined => "combined",
        StdioMode::NoStdout => "no_stdout",
        StdioMode::NoStderr => "no_stderr",
        StdioMode::NoCapture => "none",
    }
}

fn push_stdio(lines: &mut Vec<String>, indent: &str, c: &StdioConfig)
    ensures
        strs_view(final(lines)@) == strs_view(old(lines)@) + stdio_lines(indent@, *c),
{
    let ghost start = strs_view(lines@);
    push_line(lines, concat2(indent, "stdio {"));
    push_line(lines, concat3(concat2(indent, "    mode \"").as_str(), stdio_mode_text(c.mode), "\""));
    push_bool_line(lines, concat2(indent, "    delete_on_success ").as_str(), c.delete_on_success);
    push_line(lines, concat2(indent, "}"));
    proof {
        assert(strs_view(lines@) =~= start + stdio_lines(indent@, *c));
    }
}

pub open spec fn map_has_entries(o: Option<Vec<(String, String)>>) -> bool {
    o matches Some(v) && v.len() > 0
}

pub open spec fn file_lines(f: FileSpec) -> Seq<Seq<char>> {
    if !map_has_entries(f.parameters) && f.parameter_mode is None && f.use_parameters is None && f.identifier is None {
        seq!["file "@ + kdl_string(f.name@) + " path="@ + kdl_string(f.path@)]
    } else {
        seq!["file "@ + kdl_string(f.name@) + " {"@, "    path "@ + kdl_string(f.path@)] + string_lines(
            "    identifier "@,
            f.identifier,
        ) + map_block("    parameters {"@, "        "@, "    }"@, f.parameters, false) + string_lines(
            "    parameter_mode "@,
            f.parameter_mode,
        ) + list_lines("    use_parameter "@, f.use_parameters) + seq!["}"@]
    }
}

#[verifier::spinoff_prover]
#[verifier::rlimit(40)]
fn push_file(lines: &mut Vec<String>, f: &FileSpec)
    ensures
        strs_view(final(lines)@) == strs_view(old(lines)@) + file_lines(*f),
{
    let ghost start = strs_view(lines@);
    let has_params = match &f.parameters {
        Some(p) => p.len() > 0,
        None => false,
    };
    let name = kdl_escape(f.name.as_str());
    let path = kdl_escape(f.path.as_str());
    if !has_params && f.parameter_mode.is_none() && f.use_parameters.is_none() && f.identifier.is_none() {
        push_line(lines, concat3(concat2("file ", name.as_str()).as_str(), " path=", path.as_str()));
    } else {
        push_line(lines, concat3("file ", name.as_str(), " {"));
        push_line(lines, concat2("    path ", path.as_str()));
        push_string_line(lines, "    identifier ", &f.identifier);
        push_map_block(lines, "    parameters {", "        ", "    }", &f.parameters, false);
        push_string_line(lines, "    parameter_mode ", &f.parameter_mode);
        push_list_lines(lines, "    use_parameter ", &f.use_parameters);
        push_line(lines, crate::text::lit("}"));
    }
    proof {
        assert(strs_view(lines@) =~= start + file_lines(*f));
    }
}

pub open spec fn user_data_lines(u: UserDataSpec) -> Seq<Seq<char>> {
    let name = match u.name {
        Some(n) => n@,
        None => "unnamed"@,
    };
    seq!["user_data "@ + kdl_string(name) + " {"@] + (if u.is_ephemeral == Some(true) {
        seq!["    is_ephemeral #true"@]
    } else {
        Seq::empty()
    }) + match u.data {
        Some(d) => seq!["    data "@ + kdl_string(json_text(d))],
        None => Seq::empty(),
    } + seq!["}"@]
}

#[verifier::spinoff_prover]
#[verifier::rlimit(40)]
fn push_user_data(lines: &mut Vec<String>, u: &UserDataSpec)
    ensures
        strs_view(final(lines)@) == strs_view(old(lines)@) + user_data_lines(*u),
{
    let ghost start = strs_view(lines@);
    let name = match &u.name {
        Some(n) => copy_string(n),
        None => crate::text::lit("unnamed"),
    };
    push_line(lines, concat3("user_data ", kdl_escape(name.as_str()).as_str(), " {"));
    let ghost mid = strs_view(lines@);
    let ephemeral = match u.is_ephemeral {
        Some(b) => b,
        None => false,
    };
    if ephemeral {
        push_line(lines, crate::text::lit("    is_ephemeral #true"));
    } else {
        proof {
            assert(strs_view(lines@) =~= mid + Seq::<Seq<char>>::empty());
        }
    }
    let ghost mid2 = strs_view(lines@);
    match &u.data {
        Some(d) => {
            let text = to_json_text(d);
            push_line(lines, concat2("    data ", kdl_escape(text.as_str()).as_str()));
        },
        None => {
            proof {
                assert(strs_view(lines@) =~= mid2 + Seq::<Seq<char>>::empty());
            }
        },
    }
    push_line(lines, crate::text::lit("}"));
    proof {
        assert(strs_view(lines@) =~= start + user_data_lines(*u));
    }
}

pub open spec fn requirements_lines(r: ResourceRequirementsSpec) -> Seq<Seq<char>> {
    seq![
        "resource_requirements "@ + kdl_string(r.name@) + " {"@,
        "    num_cpus "@ + int_text(r.num_cpus as int),
        "    num_gpus "@ + int_text(r.num_gpus as int),
        "    num_nodes "@ + int_text(r.num_nodes as int),
        "    memory "@ + kdl_string(r.memory@),
        "    runtime "@ + kdl_string(r.runtime@),
        "}"@,
    ]
}

#[verifier::spinoff_prover]
#[verifier::rlimit(40)]
fn push_requirements(lines: &mut Vec<String>, r: &ResourceRequirementsSpec)
    ensures
        strs_view(final(lines)@) == strs_view(old(lines)@) + requirements_lines(*r),
{
    let ghost start = strs_view(lines@);
    push_line(lines, concat3("resource_requirements ", kdl_escape(r.name.as_str()).as_str(), " {"));
    push_line(lines, concat2("    num_cpus ", i64_to_string(r.num_cpus).as_str()));
    push_line(lines, concat2("    num_gpus ", i64_to_string(r.num_gpus).as_str()));
    push_line(lines, concat2("    num_nodes ", i64_to_string(r.num_nodes).as_str()));
    push_line(lines, concat2("    memory ", kdl_escape(r.memory.as_str()).as_str()));
    push_line(lines, concat2("    runtime ", kdl_escape(r.runtime.as_str()).as_str()));
    push_line(lines, crate::text::lit("}"));
    proof {
        assert(strs_view(lines@) =~= start + requirements_lines(*r));
    }
}

pub open spec fn scheduler_lines(sc: SlurmSchedulerSpec) -> Seq<Seq<char>> {
    seq![
        match sc.name {
            Some(n) => "slurm_scheduler "@ + kdl_string(n@) + " {"@,
            None => "slurm_scheduler {"@,
        },
        "    account "@ + kdl_string(sc.account@),
    ] + string_lines("    gres "@, sc.gres) + string_lines("    mem "@, sc.mem) + seq![
        "    nodes "@ + int_text(sc.nodes as int),
    ] + int_lines("    ntasks_per_node "@, wide(sc.ntasks_per_node)) + string_lines(
        "    partition "@,
        sc.partition,
    ) + string_lines("    qos "@, sc.qos) + string_lines("    tmp "@, sc.tmp) + seq![
        "    walltime "@ + kdl_string(sc.walltime@),
    ] + string_lines("    extra "@, sc.extra) + bool_lines("    serialize_allocations "@, sc.serialize_allocations)
        + seq!["}"@]
}

#[verifier::spinoff_prover]
#[verifier::rlimit(40)]
fn push_scheduler(lines: &mut Vec<String>, sc: &SlurmSchedulerSpec)
    ensures
        strs_view(final(lines)@) == strs_view(old(lines)@) + scheduler_lines(*sc),
{
    let ghost start = strs_view(lines@);
    match &sc.name {
        Some(n) => push_line(lines, concat3("slurm_scheduler ", kdl_escape(n.as_str()).as_str(), " {")),
        None => push_line(lines, crate::text::lit("slurm_scheduler {")),
    }
    push_line(lines, concat2("    account ", kdl_escape(sc.account.as_str()).as_str()));
    push_string_line(lines, "    gres ", &sc.gres);
    push_string_line(lines, "    mem ", &sc.mem);
    push_line(lines, concat2("    nodes ", i64_to_string(sc.nodes).as_str()));
    push_int_line(lines, "    ntasks_per_node ", sc.ntasks_per_node);
    push_string_line(lines, "    partition ", &sc.partition);
    push_string_line(lines, "    qos ", &sc.qos);
    push_string_line(lines, "    tmp ", &sc.tmp);
    push_line(lines, concat2("    walltime ", kdl_escape(sc.walltime.as_str()).as_str()));
    push_string_line(lines, "    extra ", &sc.extra);
    push_bool_line(lines, "    serialize_allocations ", sc.serialize_allocations);
    push_line(lines, crate::text::lit("}"));
    proof {
        assert(strs_view(lines@) =~= start + scheduler_lines(*sc));
    }
}

pub open spec fn action_head_lines(a: WorkflowActionSpec) -> Seq<Seq<char>> {
    seq![
        "action {"@,
        "    trigger_type "@ + kdl_string(a.trigger_type@),
        "    action_type "@ + kdl_string(a.action_type@),
    ] + list_lines("    job "@, a.jobs) + list_lines("    job_name_regexes "@, a.job_name_regexes) + list_lines(
        "    command "@,
        a.commands,
    )
}

pub open spec fn action_tail_lines(a: WorkflowActionSpec) -> Seq<Seq<char>> {
    string_lines("    scheduler "@, a.scheduler) + string_lines("    scheduler_type "@, a.scheduler_type) + int_lines(
        "    num_allocations "@,
        wide(a.num_allocations),
    ) + bool_lines("    start_one_worker_per_node "@, a.start_one_worker_per_node) + int_lines(
        "    max_parallel_jobs "@,
        wide32(a.max_parallel_jobs),
    ) + bool_lines("    persistent "@, a.persistent) + seq!["}"@]
}

pub open spec fn action_lines(a: WorkflowActionSpec) -> Seq<Seq<char>> {
    action_head_lines(a) + action_tail_lines(a)
}

fn push_action_head(lines: &mut Vec<String>, a: &WorkflowActionSpec)
    ensures
        strs_view(final(lines)@) == strs_view(old(lines)@) + action_head_lines(*a),
{
    let ghost start = strs_view(lines@);
    push_line(lines, crate::text::lit("action {"));
    push_line(lines, concat2("    trigger_type ", kdl_escape(a.trigger_type.as_str()).as_str()));
    push_line(lines, concat2("    action_type ", kdl_escape(a.action_type.as_str()).as_str()));
    push_list_lines(lines, "    job ", &a.jobs);
    push_list_lines(lines, "    job_name_regexes ", &a.job_name_regexes);
    push_list_lines(lines, "    command ", &a.commands);
    proof {
        assert(strs_view(lines@) =~= start + action_head_lines(*a));
    }
}

fn push_action_tail(lines: &mut Vec<String>, a: &WorkflowActionSpec)
    ensures
        strs_view(final(lines)@) == strs_view(old(lines)@) + action_tail_lines(*a),
{
    let ghost start = strs_view(lines@);
    push_string_line(lines, "    scheduler ", &a.scheduler);
    push_string_line(lines, "    scheduler_type ", &a.scheduler_type);
    push_int_line(lines, "    num_allocations ", a.num_allocations);
    push_bool_line(lines, "    start_one_worker_per_node ", a.start_one_worker_per_node);
    push_int32_line(lines, "    max_parallel_jobs ", a.max_parallel_jobs);
    push_bool_line(lines, "    persistent ", a.persistent);
    push_line(lines, crate::text::lit("}"));
    proof {
        assert(strs_view(lines@) =~= start + action_tail_lines(*a));
    }
}

fn push_action(lines: &mut Vec<String>, a: &WorkflowActionSpec)
    ensures
        strs_view(final(lines)@) == strs_view(old(lines)@) + action_lines(*a),
{
    let ghost start = strs_view(lines@);
    push_action_head(lines, a);
    push_action_tail(lines, a);
    proof {
        assert(strs_view(lines@) =~= start + action_lines(*a));
    }
}

pub open spec fn job_head_lines(j: JobSpec) -> Seq<Seq<char>> {
    seq!["job "@ + kdl_string(j.name@) + " {"@, "    command "@ + kdl_string(j.command@)] + string_lines(
        "    invocation_script "@,
        j.invocation_script,
    ) + map_block("    env {"@, "        "@, "    }"@, j.env, true) + bool_lines(
        "    cancel_on_blocking_job_failure "@,
        j.cancel_on_blocking_job_failure,
    ) + bool_lines("    supports_termination "@, j.supports_termination) + string_lines(
        "    resource_requirements "@,
        j.resource_requirements,
    )
}

pub open spec fn job_links_lines(j: JobSpec) -> Seq<Seq<char>> {
    list_lines("    depends_on "@, j.depends_on) + list_lines("    depends_on_regexes "@, j.depends_on_regexes)
        + list_lines("    input_file "@, j.input_files) + list_lines("    output_file "@, j.output_files) + list_lines(
        "    input_user_data "@,
        j.input_user_data,
    ) + list_lines("    output_user_data "@, j.output_user_data)
}

pub open spec fn job_tail_lines(j: JobSpec) -> Seq<Seq<char>> {
    string_lines("    scheduler "@, j.scheduler) + map_block("    parameters {"@, "        "@, "    }"@, j.parameters, false)
        + match j.stdio {
        Some(c) => stdio_lines("    "@, c),
        None => Seq::empty(),
    } + seq!["}"@]
}

pub open spec fn job_lines(j: JobSpec) -> Seq<Seq<char>> {
    job_head_lines(j) + job_links_lines(j) + job_tail_lines(j)
}

fn push_job_head(lines: &mut Vec<String>, j: &JobSpec)
    ensures
        strs_view(final(lines)@) == strs_view(old(lines)@) + job_head_lines(*j),
{
    let ghost start = strs_view(lines@);
    push_line(lines, concat3("job ", kdl_escape(j.name.as_str()).as_str(), " {"));
    push_line(lines, concat2("    command ", kdl_escape(j.command.as_str()).as_str()));
    push_string_line(lines, "    invocation_script ", &j.invocation_script);
    push_map_block(lines, "    env {", "        ", "    }", &j.env, true);
    push_bool_line(lines, "    cancel_on_blocking_job_failure ", j.cancel_on_blocking_job_failure);
    push_bool_line(lines, "    supports_termination ", j.supports_termination);
    push_string_line(lines, "    resource_requirements ", &j.resource_requirements);
    proof {
        assert(strs_view(lines@) =~= start + job_head_lines(*j));
    }
}

fn push_job_links(lines: &mut Vec<String>, j: &JobSpec)
    ensures
        strs_view(final(lines)@) == strs_view(old(lines)@) + job_links_lines(*j),
{
    let ghost start = strs_view(lines@);
    push_list_lines(lines, "    depends_on ", &j.depends_on);
    push_list_lines(lines, "    depends_on_regexes ", &j.depends_on_regexes);
    push_list_lines(lines, "    input_file ", &j.input_files);
    push_list_lines(lines, "    output_file ", &j.output_files);
    push_list_lines(lines, "    input_user_data ", &j.input_user_data);
    push_list_lines(lines, "    output_user_data ", &j.output_user_data);
    proof {
        assert(strs_view(lines@) =~= start + job_links_lines(*j));
    }
}

fn push_job_tail(lines: &mut Vec<String>, j: &JobSpec)
    ensures
        strs_view(final(lines)@) == strs_view(old(lines)@) + job_tail_lines(*j),
{
    let ghost start = strs_view(lines@);
    push_string_line(lines, "    scheduler ", &j.scheduler);
    push_map_block(lines, "    parameters {", "        ", "    }", &j.parameters, false);
    let ghost mid = strs_view(lines@);
    match &j.stdio {
        Some(c) => push_stdio(lines, "    ", c),
        None => {
            proof {
                assert(strs_view(lines@) =~= mid + Seq::<Seq<char>>::empty());
            }
        },
    }
    push_line(lines, crate::text::lit("}"));
    proof {
        assert(strs_view(lines@) =~= start + job_tail_lines(*j));
    }
}

fn push_job(lines: &mut Vec<String>, j: &JobSpec)
    ensures
        strs_view(final(lines)@) == strs_view(old(lines)@) + job_lines(*j),
{
    let ghost start = strs_view(lines@);
    push_job_head(lines, j);
    push_job_links(lines, j);
    push_job_tail(lines, j);
    proof {
        assert(strs_view(lines@) =~= start + job_lines(*j));
    }
}

pub open spec fn all_file_lines(items: Seq<FileSpec>) -> Seq<Seq<char>>
    decreases items.len(),
{
    if items.len() == 0 {
        Seq::empty()
    } else {
        all_file_lines(items.drop_last()) + file_lines(items.last())
    }
}

fn push_file_all(lines: &mut Vec<String>, items: &Vec<FileSpec>)
    ensures
        strs_view(final(lines)@) == strs_view(old(lines)@) + all_file_lines(items@),
{
    let ghost start = strs_view(lines@);
    let mut i: usize = 0;
    proof {
        assert(strs_view(lines@) =~= start + all_file_lines(items@.take(0)));
    }
    while i < items.len()
        invariant
            i <= items.len(),
            strs_view(lines@) == start + all_file_lines(items@.take(i as int)),
        decreases items.len() - i,
    {
        proof {
            assert(items@.take(i + 1).drop_last() =~= items@.take(i as int));
            assert(items@.take(i + 1).last() == items@[i as int]);
        }
        push_file(lines, &items[i]);
        proof {
            assert(strs_view(lines@) =~= start + all_file_lines(items@.take(i + 1)));
        }
        i = i + 1;
    }
    proof {
        assert(items@.take(items.len() as int) =~= items@);
    }
}

pub open spec fn all_user_data_lines(items: Seq<UserDataSpec>) -> Seq<Seq<char>>
    decreases items.len(),
{
    if items.len() == 0 {
        Seq::empty()
    } else {
        all_user_data_lines(items.drop_last()) + user_data_lines(items.last())
    }
}

fn push_user_data_all(lines: &mut Vec<String>, items: &Vec<UserDataSpec>)
    ensures
        strs_view(final(lines)@) == strs_view(old(lines)@) + all_user_data_lines(items@),
{
    let ghost start = strs_view(lines@);
    let mut i: usize = 0;
    proof {
        assert(strs_view(lines@) =~= start + all_user_data_lines(items@.take(0)));
    }
    while i < items.len()
        invariant
            i <= items.len(),
            strs_view(lines@) == start + all_user_data_lines(items@.take(i as int)),
        decreases items.len() - i,
    {
        proof {
            assert(items@.take(i + 1).drop_last() =~= items@.take(i as int));
            assert(items@.take(i + 1).last() == items@[i as int]);
        }
        push_user_data(lines, &items[i]);
        proof {
            assert(strs_view(lines@) =~= start + all_user_data_lines(items@.take(i + 1)));
        }
        i = i + 1;
    }
    proof {
        assert(items@.take(items.len() as int) =~= items@);
    }
}

pub open spec fn all_requirements_lines(items: Seq<ResourceRequirementsSpec>) -> Seq<Seq<char>>
    decreases items.len(),
{
    if items.len() == 0 {
        Seq::empty()
    } else {
        all_requirements_lines(items.drop_last()) + requirements_lines(items.last())
    }
}

fn push_requirements_all(lines: &mut Vec<String>, items: &Vec<ResourceRequirementsSpec>)
    ensures
        strs_view(final(lines)@) == strs_view(old(lines)@) + all_requirements_lines(items@),
{
    let ghost start = strs_view(lines@);
    let mut i: usize = 0;
    proof {
        assert(strs_view(lines@) =~= start + all_requirements_lines(items@.take(0)));
    }
    while i < items.len()
        invariant
            i <= items.len(),
            strs_view(lines@) == start + all_requirements_lines(items@.take(i as int)),
        decreases items.len() - i,
    {
        proof {
            assert(items@.take(i + 1).drop_last() =~= items@.take(i as int));
            assert(items@.take(i + 1).last() == items@[i as int]);
        }
        push_requirements(lines, &items[i]);
        proof {
            assert(strs_view(lines@) =~= start + all_requirements_lines(items@.take(i + 1)));
        }
        i = i + 1;
    }
    proof {
        assert(items@.take(items.len() as int) =~= items@);
    }
}

pub open spec fn all_job_lines(items: Seq<JobSpec>) -> Seq<Seq<char>>
    decreases items.len(),
{
    if items.len() == 0 {
        Seq::empty()
    } else {
        all_job_lines(items.drop_last()) + job_lines(items.last())
    }
}

fn push_job_all(lines: &mut Vec<String>, items: &Vec<JobSpec>)
    ensures
        strs_view(final(lines)@) == strs_view(old(lines)@) + all_job_lines(items@),
{
    let ghost start = strs_view(lines@);
    let mut i: usize = 0;
    proof {
        assert(strs_view(lines@) =~= start + all_job_lines(items@.take(0)));
    }
    while i < items.len()
        invariant
            i <= items.len(),
            strs_view(lines@) == start + all_job_lines(items@.take(i as int)),
        decreases items.len() - i,
    {
        proof {
            assert(items@.take(i + 1).drop_last() =~= items@.take(i as int));
            assert(items@.take(i + 1).last() == items@[i as int]);
        }
        push_job(lines, &items[i]);
        proof {
            assert(strs_view(lines@) =~= start + all_job_lines(items@.take(i + 1)));
        }
        i = i + 1;
    }
    proof {
        assert(items@.take(items.len() as int) =~= items@);
    }
}

pub open spec fn all_scheduler_lines(items: Seq<SlurmSchedulerSpec>) -> Seq<Seq<char>>
    decreases items.len(),
{
    if items.len() == 0 {
        Seq::empty()
    } else {
        all_scheduler_lines(items.drop_last()) + scheduler_lines(items.last())
    }
}

fn push_scheduler_all(lines: &mut Vec<String>, items: &Vec<SlurmSchedulerSpec>)
    ensures
        strs_view(final(lines)@) == strs_view(old(lines)@) + all_scheduler_lines(items@),
{
    let ghost start = strs_view(lines@);
    let mut i: usize = 0;
    proof {
        assert(strs_view(lines@) =~= start + all_scheduler_lines(items@.take(0)));
    }
    while i < items.len()
        invariant
            i <= items.len(),
            strs_view(lines@) == start + all_scheduler_lines(items@.take(i as int)),
        decreases items.len() - i,
    {
        proof {
            assert(items@.take(i + 1).drop_last() =~= items@.take(i as int));
            assert(items@.take(i + 1).last() == items@[i as int]);
        }
        push_scheduler(lines, &items[i]);
        proof {
            assert(strs_view(lines@) =~= start + all_scheduler_lines(items@.take(i + 1)));
        }
        i = i + 1;
    }
    proof {
        assert(items@.take(items.len() as int) =~= items@);
    }
}

pub open spec fn all_action_lines(items: Seq<WorkflowActionSpec>) -> Seq<Seq<char>>
    decreases items.len(),
{
    if items.len() == 0 {
        Seq::empty()
    } else {
        all_action_lines(items.drop_last()) + action_lines(items.last())
    }
}

fn push_action_all(lines: &mut Vec<String>, items: &Vec<WorkflowActionSpec>)
    ensures
        strs_view(final(lines)@) == strs_view(old(lines)@) + all_action_lines(items@),
{
    let ghost start = strs_view(lines@);
    let mut i: usize = 0;
    proof {
        assert(strs_view(lines@) =~= start + all_action_lines(items@.take(0)));
    }
    while i < items.len()
        invariant
            i <= items.len(),
            strs_view(lines@) == start + all_action_lines(items@.take(i as int)),
        decreases items.len() - i,
    {
        proof {
            assert(items@.take(i + 1).drop_last() =~= items@.take(i as int));
            assert(items@.take(i + 1).last() == items@[i as int]);
        }
        push_action(lines, &items[i]);
        proof {
            assert(strs_view(lines@) =~= start + all_action_lines(items@.take(i + 1)));
        }
        i = i + 1;
    }
    proof {
        assert(items@.take(items.len() as int) =~= items@);
    }
}

// ---------------------------------------------------------------------------
// Monitoring and execution
// ---------------------------------------------------------------------------

pub open spec fn granularity_name(g: MonitorGranularity) -> Seq<char> {
    match g {
        MonitorGranularity::Summary => "summary"@,
        MonitorGranularity::TimeSeries => "time_series"@,
    }
}

fn granularity_text(g: MonitorGranularity) -> (r: &'static str)
    ensures
        r@ == granularity_name(g),
{
    match g {
        MonitorGranularity::Summary => "summary",
        MonitorGranularity::TimeSeries => "time_series",
    }
}

pub open spec fn monitor_lines(m: ResourceMonitorConfig) -> Seq<Seq<char>> {
    seq![
        "resource_monitor {"@,
        "    sample_interval_seconds "@ + int_text(m.sample_interval_seconds as int),
        "    flush_interval_seconds "@ + int_text(m.flush_interval_seconds as int),
        "    generate_plots "@ + kdl_bool(m.generate_plots),
    ] + (if m.jobs is Some || m.enabled {
        let j = spec_jobs_config(m);
        seq![
            "    jobs {"@,
            "        enabled "@ + kdl_bool(j.enabled),
            "        granularity \""@ + granularity_name(j.granularity) + "\""@,
            "    }"@,
        ]
    } else {
        Seq::empty()
    }) + match m.compute_node {
        Some(c) => seq![
            "    compute_node {"@,
            "        enabled "@ + kdl_bool(c.enabled),
            "        granularity \""@ + granularity_name(c.granularity) + "\""@,
            "        cpu "@ + kdl_bool(c.cpu),
            "        memory "@ + kdl_bool(c.memory),
            "    }"@,
        ],
        None => Seq::empty(),
    } + seq!["}"@, Seq::<char>::empty()]
}

#[verifier::spinoff_prover]
#[verifier::rlimit(40)]
fn push_monitor(lines: &mut Vec<String>, m: &ResourceMonitorConfig)
    ensures
        strs_view(final(lines)@) == strs_view(old(lines)@) + monitor_lines(*m),
{
    let ghost start = strs_view(lines@);
    push_line(lines, crate::text::lit("resource_monitor {"));
    push_line(lines, concat2("    sample_interval_seconds ", i64_to_string(m.sample_interval_seconds as i64).as_str()));
    push_line(lines, concat2("    flush_interval_seconds ", i64_to_string(m.flush_interval_seconds as i64).as_str()));
    push_line(lines, concat2("    generate_plots ", bool_text(m.generate_plots)));
    let ghost mid = strs_view(lines@);
    if m.jobs.is_some() || m.enabled {
        let j = m.jobs_config();
        push_line(lines, crate::text::lit("    jobs {"));
        push_line(lines, concat2("        enabled ", bool_text(j.enabled)));
        push_line(lines, concat3("        granularity \"", granularity_text(j.granularity), "\""));
        push_line(lines, crate::text::lit("    }"));
    } else {
        proof {
            assert(strs_view(lines@) =~= mid + Seq::<Seq<char>>::empty());
        }
    }
    let ghost mid2 = strs_view(lines@);
    match m.compute_node {
        Some(c) => {
            push_line(lines, crate::text::lit("    compute_node {"));
            push_line(lines, concat2("        enabled ", bool_text(c.enabled)));
            push_line(lines, concat3("        granularity \"", granularity_text(c.granularity), "\""));
            push_line(lines, concat2("        cpu ", bool_text(c.cpu)));
            push_line(lines, concat2("        memory ", bool_text(c.memory)));
            push_line(lines, crate::text::lit("    }"));
        },
        None => {
            proof {
                assert(strs_view(lines@) =~= mid2 + Seq::<Seq<char>>::empty());
            }
        },
    }
    push_line(lines, crate::text::lit("}"));
    push_line(lines, String::new());
    proof {
        assert(strs_view(lines@) =~= start + monitor_lines(*m));
    }
}

pub open spec fn mode_line(m: ExecutionMode) -> Seq<char> {
    match m {
        ExecutionMode::Direct => "    mode \"direct\""@,
        ExecutionMode::Slurm => "    mode \"slurm\""@,
        ExecutionMode::Auto => "    mode \"auto\""@,
    }
}

fn mode_line_text(m: ExecutionMode) -> (r: &'static str)
    ensures
        r@ == mode_line(m),
{
    match m {
        ExecutionMode::Direct => "    mode \"direct\"",
        ExecutionMode::Slurm => "    mode \"slurm\"",
        ExecutionMode::Auto => "    mode \"auto\"",
    }
}

pub open spec fn execution_head_lines(c: ExecutionConfig) -> Seq<Seq<char>> {
    seq!["execution_config {"@, mode_line(c.mode)] + bool_lines("    limit_resources "@, c.limit_resources)
        + string_lines("    termination_signal "@, c.termination_signal) + int_lines(
        "    sigterm_lead_seconds "@,
        wide(c.sigterm_lead_seconds),
    ) + int_lines("    sigkill_headroom_seconds "@, wide(c.sigkill_headroom_seconds)) + int_lines(
        "    timeout_exit_code "@,
        wide32(c.timeout_exit_code),
    ) + int_lines("    oom_exit_code "@, wide32(c.oom_exit_code))
}

pub open spec fn execution_tail_lines(c: ExecutionConfig) -> Seq<Seq<char>> {
    string_lines("    srun_termination_signal "@, c.srun_termination_signal) + string_lines("    srun_mpi "@, c.srun_mpi)
        + bool_lines("    enable_cpu_bind "@, c.enable_cpu_bind) + match c.stdio {
        Some(sc) => stdio_lines("    "@, sc),
        None => Seq::empty(),
    } + seq!["}"@, Seq::<char>::empty()]
}

pub open spec fn execution_lines(c: ExecutionConfig) -> Seq<Seq<char>> {
    execution_head_lines(c) + execution_tail_lines(c)
}

#[verifier::spinoff_prover]
#[verifier::rlimit(40)]
fn push_execution_head(lines: &mut Vec<String>, c: &ExecutionConfig)
    ensures
        strs_view(final(lines)@) == strs_view(old(lines)@) + execution_head_lines(*c),
{
    let ghost start = strs_view(lines@);
    push_line(lines, crate::text::lit("execution_config {"));
    push_line(lines, crate::text::lit(mode_line_text(c.mode)));
    push_bool_line(lines, "    limit_resources ", c.limit_resources);
    push_string_line(lines, "    termination_signal ", &c.termination_signal);
    push_int_line(lines, "    sigterm_lead_seconds ", c.sigterm_lead_seconds);
    push_int_line(lines, "    sigkill_headroom_seconds ", c.sigkill_headroom_seconds);
    push_int32_line(lines, "    timeout_exit_code ", c.timeout_exit_code);
    push_int32_line(lines, "    oom_exit_code ", c.oom_exit_code);
    proof {
        assert(strs_view(lines@) =~= start + execution_head_lines(*c));
    }
}

fn push_execution_tail(lines: &mut Vec<String>, c: &ExecutionConfig)
    ensures
        strs_view(final(lines)@) == strs_view(old(lines)@) + execution_tail_lines(*c),
{
    let ghost start = strs_view(lines@);
    push_string_line(lines, "    srun_termination_signal ", &c.srun_termination_signal);
    push_string_line(lines, "    srun_mpi ", &c.srun_mpi);
    push_bool_line(lines, "    enable_cpu_bind ", c.enable_cpu_bind);
    let ghost mid = strs_view(lines@);
    match &c.stdio {
        Some(sc) => push_stdio(lines, "    ", sc),
        None => {
            proof {
                assert(strs_view(lines@) =~= mid + Seq::<Seq<char>>::empty());
            }
        },
    }
    push_line(lines, crate::text::lit("}"));
    push_line(lines, String::new());
    proof {
        assert(strs_view(lines@) =~= start + execution_tail_lines(*c));
    }
}

fn push_execution(lines: &mut Vec<String>, c: &ExecutionConfig)
    ensures
        strs_view(final(lines)@) == strs_view(old(lines)@) + execution_lines(*c),
{
    let ghost start = strs_view(lines@);
    push_execution_head(lines, c);
    push_execution_tail(lines, c);
    proof {
        assert(strs_view(lines@) =~= start + execution_lines(*c));
    }
}

// ---------------------------------------------------------------------------
// The workflow
// ---------------------------------------------------------------------------

pub open spec fn blank_after(n: nat) -> Seq<Seq<char>> {
    if n > 0 {
        seq![Seq::<char>::empty()]
    } else {
        Seq::empty()
    }
}

pub open spec fn header_lines(w: WorkflowSpec) -> Seq<Seq<char>> {
    seq!["name "@ + kdl_string(w.name@)] + string_lines("user "@, w.user) + string_lines(
        "description "@,
        w.description,
    ) + int_lines("compute_node_expiration_buffer_seconds "@, wide(w.compute_node_expiration_buffer_seconds))
        + int_lines("compute_node_wait_for_new_jobs_seconds "@, wide(w.compute_node_wait_for_new_jobs_seconds))
        + bool_lines("compute_node_ignore_workflow_completion "@, w.compute_node_ignore_workflow_completion)
        + int_lines(
        "compute_node_wait_for_healthy_database_minutes "@,
        wide(w.compute_node_wait_for_healthy_database_minutes),
    ) + map_block("parameters {"@, "    "@, "}"@, w.parameters, false) + map_block(
        "variables {"@,
        "    "@,
        "}"@,
        w.variables,
        true,
    ) + map_block("env {"@, "    "@, "}"@, w.env, true) + seq![Seq::<char>::empty()]
}

/// The records before the jobs: files, user data, resource requirements,
/// monitoring and execution settings.
pub open spec fn files_section(w: WorkflowSpec) -> Seq<Seq<char>> {
    match w.files {
        Some(fs) => all_file_lines(fs@) + blank_after(fs.len() as nat),
        None => Seq::empty(),
    }
}

pub open spec fn user_data_section(w: WorkflowSpec) -> Seq<Seq<char>> {
    match w.user_data {
        Some(us) => all_user_data_lines(us@) + blank_after(us.len() as nat),
        None => Seq::empty(),
    }
}

pub open spec fn requirements_section(w: WorkflowSpec) -> Seq<Seq<char>> {
    match w.resource_requirements {
        Some(rs) => all_requirements_lines(rs@) + blank_after(rs.len() as nat),
        None => Seq::empty(),
    }
}

pub open spec fn settings_section(w: WorkflowSpec) -> Seq<Seq<char>> {
    let monitor = match w.resource_monitor {
        Some(m) => monitor_lines(m),
        None => Seq::empty(),
    };
    let execution = match w.execution_config {
        Some(c) => execution_lines(c),
        None => Seq::empty(),
    };
    monitor + execution
}

/// The records before the jobs: files, user data, resource requirements,
/// monitoring and execution settings.
pub open spec fn records_lines(w: WorkflowSpec) -> Seq<Seq<char>> {
    files_section(w) + user_data_section(w) + requirements_section(w) + settings_section(w)
}

/// The jobs, then the schedulers and the actions.
pub open spec fn jobs_and_after_lines(w: WorkflowSpec) -> Seq<Seq<char>> {
    let schedulers = match w.slurm_schedulers {
        Some(ss) => all_scheduler_lines(ss@) + blank_after(ss.len() as nat),
        None => Seq::empty(),
    };
    let actions = match w.actions {
        Some(acts) => all_action_lines(acts@),
        None => Seq::empty(),
    };
    all_job_lines(w.jobs@) + blank_after(w.jobs.len() as nat) + schedulers + actions
}

pub open spec fn kdl_lines(w: WorkflowSpec) -> Seq<Seq<char>> {
    header_lines(w) + records_lines(w) + jobs_and_after_lines(w)
}

/// A workflow as KDL text.
pub open spec fn kdl_text(w: WorkflowSpec) -> Seq<char> {
    join(kdl_lines(w), seq!['\n'])
}

fn push_blank_after(lines: &mut Vec<String>, n: usize)
    ensures
        strs_view(final(lines)@) == strs_view(old(lines)@) + blank_after(n as nat),
{
    if n > 0 {
        push_line(lines, String::new());
        proof {
            assert(strs_view(lines@) =~= strs_view(old(lines)@) + blank_after(n as nat));
        }
    } else {
        proof {
            assert(strs_view(lines@) =~= strs_view(lines@) + Seq::<Seq<char>>::empty());
        }
    }
}

#[verifier::spinoff_prover]
#[verifier::rlimit(40)]
fn push_header(lines: &mut Vec<String>, w: &WorkflowSpec)
    ensures
        strs_view(final(lines)@) == strs_view(old(lines)@) + header_lines(*w),
{
    let ghost start = strs_view(lines@);
    push_line(lines, concat2("name ", kdl_escape(w.name.as_str()).as_str()));
    push_string_line(lines, "user ", &w.user);
    push_string_line(lines, "description ", &w.description);
    push_int_line(lines, "compute_node_expiration_buffer_seconds ", w.compute_node_expiration_buffer_seconds);
    push_int_line(lines, "compute_node_wait_for_new_jobs_seconds ", w.compute_node_wait_for_new_jobs_seconds);
    push_bool_line(lines, "compute_node_ignore_workflow_completion ", w.compute_node_ignore_workflow_completion);
    push_int_line(lines, "compute_node_wait_for_healthy_database_minutes ", w.compute_node_wait_for_healthy_database_minutes);
    push_map_block(lines, "parameters {", "    ", "}", &w.parameters, false);
    push_map_block(lines, "variables {", "    ", "}", &w.variables, true);
    push_map_block(lines, "env {", "    ", "}", &w.env, true);
    push_line(lines, String::new());
    proof {
        assert(strs_view(lines@) =~= start + header_lines(*w));
    }
}

fn push_files_section(lines: &mut Vec<String>, w: &WorkflowSpec)
    ensures
        strs_view(final(lines)@) == strs_view(old(lines)@) + files_section(*w),
{
    match &w.files {
        Some(fs) => {
            let ghost start = strs_view(lines@);
            push_file_all(lines, fs);
            push_blank_after(lines, fs.len());
            proof {
                assert(strs_view(lines@) =~= start + files_section(*w));
            }
        },
        None => {
            proof {
                assert(strs_view(lines@) =~= strs_view(lines@) + Seq::<Seq<char>>::empty());
            }
        },
    }
}

fn push_user_data_section(lines: &mut Vec<String>, w: &WorkflowSpec)
    ensures
        strs_view(final(lines)@) == strs_view(old(lines)@) + user_data_section(*w),
{
    match &w.user_data {
        Some(us) => {
            let ghost start = strs_view(lines@);
            push_user_data_all(lines, us);
            push_blank_after(lines, us.len());
            proof {
                assert(strs_view(lines@) =~= start + user_data_section(*w));
            }
        },
        None => {
            proof {
                assert(strs_view(lines@) =~= strs_view(lines@) + Seq::<Seq<char>>::empty());
            }
        },
    }
}

fn push_requirements_section(lines: &mut Vec<String>, w: &WorkflowSpec)
    ensures
        strs_view(final(lines)@) == strs_view(old(lines)@) + requirements_section(*w),
{
    match &w.resource_requirements {
        Some(rs) => {
            let ghost start = strs_view(lines@);
            push_requirements_all(lines, rs);
            push_blank_after(lines, rs.len());
            proof {
                assert(strs_view(lines@) =~= start + requirements_section(*w));
            }
        },
        None => {
            proof {
                assert(strs_view(lines@) =~= strs_view(lines@) + Seq::<Seq<char>>::empty());
            }
        },
    }
}

fn push_settings_section(lines: &mut Vec<String>, w: &WorkflowSpec)
    ensures
        strs_view(final(lines)@) == strs_view(old(lines)@) + settings_section(*w),
{
    let ghost start = strs_view(lines@);
    match &w.resource_monitor {
        Some(m) => push_monitor(lines, m),
        None => {},
    }
    let ghost mid = strs_view(lines@);
    proof {
        assert(mid =~= start + match w.resource_monitor {
            Some(m) => monitor_lines(m),
            None => Seq::empty(),
        });
    }
    match &w.execution_config {
        Some(x) => push_execution(lines, x),
        None => {},
    }
    proof {
        assert(strs_view(lines@) =~= mid + match w.execution_config {
            Some(c) => execution_lines(c),
            None => Seq::empty(),
        });
        assert(strs_view(lines@) =~= start + settings_section(*w));
    }
}

fn push_records(lines: &mut Vec<String>, w: &WorkflowSpec)
    ensures
        strs_view(final(lines)@) == strs_view(old(lines)@) + records_lines(*w),
{
    let ghost start = strs_view(lines@);
    push_files_section(lines, w);
    push_user_data_section(lines, w);
    push_requirements_section(lines, w);
    push_settings_section(lines, w);
    proof {
        assert(strs_view(lines@) =~= start + records_lines(*w));
    }
}

fn push_jobs_and_after(lines: &mut Vec<String>, w: &WorkflowSpec)
    ensures
        strs_view(final(lines)@) == strs_view(old(lines)@) + jobs_and_after_lines(*w),
{
    let ghost start = strs_view(lines@);
    push_job_all(lines, &w.jobs);
    push_blank_after(lines, w.jobs.len());
    match &w.slurm_schedulers {
        Some(ss) => {
            push_scheduler_all(lines, ss);
            push_blank_after(lines, ss.len());
        },
        None => {},
    }
    match &w.actions {
        Some(acts) => push_action_all(lines, acts),
        None => {},
    }
    proof {
        assert(strs_view(lines@) =~= start + jobs_and_after_lines(*w));
    }
}

impl WorkflowSpec {
    /// The workflow as KDL text: its settings, shared parameters, variables
    /// and environment (the last two sorted by name), then its files, user
    /// data, resource requirements, monitoring and execution settings, jobs,
    /// Slurm schedulers and actions, each section closed by an empty line.
    pub fn to_kdl_str(&self) -> (r: String)
        ensures
            r@ == kdl_text(*self),
    {
        let mut lines: Vec<String> = Vec::new();
        push_header(&mut lines, self);
        push_records(&mut lines, self);
        push_jobs_and_after(&mut lines, self);
        proof {
            assert(strs_view(lines@) =~= kdl_lines(*self));
            assert(lines@.map_values(|s: String| s@) =~= strs_view(lines@));
        }
        let mut nl: Vec<char> = Vec::new();
        nl.push('\n');
        join_strings(&lines, string_of(&nl).as_str())
    }
}

} // verus!
