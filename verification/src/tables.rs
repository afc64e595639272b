//! Parameter tables read from text: CSV (a header row of column names,
//! then one row of values per line) or JSON (an array of objects).

use vstd::prelude::*;

use crate::combinations::{combos_view, combos_well_formed, Combo};
use crate::json::{json_get, json_text, opt_str, to_json_text, JsonValue};
use crate::parameters::{parse_scalar, scalar_value, ParamVal, ParameterValue};
use crate::spec_text::{json_text_parse, parse_json_text, result_view};
use crate::json_view::{jv, JsonView};
use crate::templates::{bindings_view, bindings_well_formed, substitute, substitute_workflow_variables_in_string, Bindings};
use crate::workflow_spec::strs_view;
use crate::text::{chars_of, copy_string, lit, string_eq, string_of, trim, trim_chars};

verus! {

/// The pieces of `s` between the separators `sep` (`str::split`).
pub open spec fn split_on(s: Seq<char>, sep: char) -> Seq<Seq<char>>
    decreases s.len(),
{
    if s.len() == 0 {
        seq![Seq::empty()]
    } else {
        let prev = split_on(s.drop_last(), sep);
        if s.last() == sep {
            prev.push(Seq::empty())
        } else {
            prev.update(prev.len() - 1, prev.last().push(s.last()))
        }
    }
}

proof fn lemma_split_on_nonempty(s: Seq<char>, sep: char)
    ensures
        split_on(s, sep).len() >= 1,
    decreases s.len(),
{
    if s.len() > 0 {
        lemma_split_on_nonempty(s.drop_last(), sep);
    }
}

/// The lines of `ls` that are not blank, in order.
pub open spec fn nonblank(ls: Seq<Seq<char>>) -> Seq<Seq<char>>
    decreases ls.len(),
{
    if ls.len() == 0 {
        Seq::empty()
    } else if trim(ls.last()).len() > 0 {
        nonblank(ls.drop_last()).push(ls.last())
    } else {
        nonblank(ls.drop_last())
    }
}

/// One row: each column name of `header` with the value of the cell in
/// its place, as far as both go.
pub open spec fn csv_row(header: Seq<Seq<char>>, line: Seq<char>) -> Combo {
    let cells = split_on(line, ',');
    Seq::new(
        if header.len() <= cells.len() { header.len() } else { cells.len() },
        |k: int| (header[k], scalar_value(trim(cells[k]))),
    )
}

/// The rows of a CSV table: the first line that is not blank names the
/// columns, each later one that is not blank is a row. Blank lines are
/// skipped; names and cells are trimmed.
pub open spec fn csv_table(text: Seq<char>) -> Seq<Combo> {
    let lines = nonblank(split_on(text, '\n'));
    if lines.len() == 0 {
        Seq::empty()
    } else {
        let header = split_on(lines[0], ',').map_values(|c: Seq<char>| trim(c));
        Seq::new((lines.len() - 1) as nat, |i: int| csv_row(header, lines[i + 1]))
    }
}

/// Splits `v` at the separator `sep`.
fn split_exec(v: &Vec<char>, sep: char) -> (r: Vec<Vec<char>>)
    ensures
        r@.map_values(|p: Vec<char>| p@) == split_on(v@, sep),
{
    let mut pieces: Vec<Vec<char>> = Vec::new();
    let mut cur: Vec<char> = Vec::new();
    let mut i: usize = 0;
    proof {
        assert(v@.take(0) =~= Seq::<char>::empty());
    }
    while i < v.len()
        invariant
            i <= v@.len(),
            pieces@.map_values(|p: Vec<char>| p@).push(cur@) == split_on(v@.take(i as int), sep),
        decreases v@.len() - i,
    {
        let ghost prev = pieces@.map_values(|p: Vec<char>| p@).push(cur@);
        proof {
            assert(v@.take(i + 1).drop_last() =~= v@.take(i as int));
            assert(v@.take(i + 1).last() == v@[i as int]);
        }
        if v[i] == sep {
            let done = cur;
            pieces.push(done);
            cur = Vec::new();
            proof {
                assert(pieces@.map_values(|p: Vec<char>| p@).push(cur@) =~= prev.push(Seq::empty()));
            }
        } else {
            cur.push(v[i]);
            proof {
                assert(pieces@.map_values(|p: Vec<char>| p@).push(cur@) =~= prev.update(
                    prev.len() - 1,
                    prev.last().push(v@[i as int]),
                ));
            }
        }
        i = i + 1;
    }
    proof {
        assert(v@.take(v@.len() as int) =~= v@);
    }
    let ghost before = pieces@.map_values(|p: Vec<char>| p@);
    pieces.push(cur);
    proof {
        assert(pieces@.map_values(|p: Vec<char>| p@) =~= before.push(pieces@.last()@));
    }
    pieces
}

fn cell_value(c: &Vec<char>) -> (r: ParameterValue)
    ensures
        r@ == scalar_value(trim(c@)),
        r.well_formed(),
{
    parse_scalar(&trim_chars(c))
}

/// Reads a CSV parameter table (see `csv_table`).
pub fn csv_parameter_table(text: &str) -> (r: Vec<Bindings>)
    ensures
        combos_view(r@) == csv_table(text@),
        combos_well_formed(r@),
{
    let all = split_exec(&chars_of(text), '\n');
    let ghost av = all@.map_values(|p: Vec<char>| p@);
    let mut lines: Vec<Vec<char>> = Vec::new();
    let mut i: usize = 0;
    proof {
        assert(av.take(0) =~= Seq::<Seq<char>>::empty());
        assert(lines@.map_values(|p: Vec<char>| p@) =~= nonblank(av.take(0)));
    }
    while i < all.len()
        invariant
            i <= all@.len(),
            av == all@.map_values(|p: Vec<char>| p@),
            lines@.map_values(|p: Vec<char>| p@) == nonblank(av.take(i as int)),
        decreases all@.len() - i,
    {
        proof {
            assert(av.take(i + 1).drop_last() =~= av.take(i as int));
            assert(av.take(i + 1).last() == all@[i as int]@);
        }
        let t = trim_chars(&all[i]);
        if t.len() > 0 {
            let ghost before = lines@.map_values(|p: Vec<char>| p@);
            let mut copy: Vec<char> = Vec::new();
            let line = &all[i];
            let mut k: usize = 0;
            while k < line.len()
                invariant
                    k <= line@.len(),
                    copy@ == line@.take(k as int),
                decreases line@.len() - k,
            {
                copy.push(line[k]);
                proof {
                    assert(copy@ =~= line@.take(k + 1));
                }
                k = k + 1;
            }
            proof {
                assert(copy@ =~= line@);
            }
            lines.push(copy);
            proof {
                assert(lines@.map_values(|p: Vec<char>| p@) =~= before.push(all@[i as int]@));
            }
        }
        i = i + 1;
    }
    proof {
        assert(av.take(all@.len() as int) =~= av);
    }
    let ghost lv = lines@.map_values(|p: Vec<char>| p@);
    let mut rows: Vec<Bindings> = Vec::new();
    if lines.len() == 0 {
        proof {
            assert(combos_view(rows@) =~= csv_table(text@));
        }
        return rows;
    }
    let raw_header = split_exec(&lines[0], ',');
    let mut header: Vec<String> = Vec::new();
    let ghost hv = raw_header@.map_values(|p: Vec<char>| p@).map_values(|c: Seq<char>| trim(c));
    let mut h: usize = 0;
    while h < raw_header.len()
        invariant
            h <= raw_header@.len(),
            hv == raw_header@.map_values(|p: Vec<char>| p@).map_values(|c: Seq<char>| trim(c)),
            header@.len() == h,
            forall|q: int| 0 <= q < h ==> (#[trigger] header@[q])@ == hv[q],
        decreases raw_header@.len() - h,
    {
        header.push(string_of(&trim_chars(&raw_header[h])));
        h = h + 1;
    }
    let mut i: usize = 1;
    while i < lines.len()
        invariant
            1 <= i <= lines@.len(),
            lv == lines@.map_values(|p: Vec<char>| p@),
            lv.len() > 0,
            header@.len() == hv.len(),
            forall|q: int| 0 <= q < hv.len() ==> (#[trigger] header@[q])@ == hv[q],
            hv == split_on(lv[0], ',').map_values(|c: Seq<char>| trim(c)),
            rows@.len() == i - 1,
            forall|q: int| 0 <= q < i - 1 ==> #[trigger] bindings_view(rows@[q]@) == csv_row(hv, lv[q + 1]),
            combos_well_formed(rows@),
        decreases lines@.len() - i,
    {
        let cells = split_exec(&lines[i], ',');
        let ghost cv = cells@.map_values(|p: Vec<char>| p@);
        let n = if header.len() <= cells.len() { header.len() } else { cells.len() };
        let mut row: Bindings = Vec::new();
        let mut k: usize = 0;
        while k < n
            invariant
                k <= n,
                n <= header@.len(),
                n <= cells@.len(),
                n == (if hv.len() <= cv.len() { hv.len() } else { cv.len() }),
                header@.len() == hv.len(),
                forall|q: int| 0 <= q < hv.len() ==> (#[trigger] header@[q])@ == hv[q],
                cv == cells@.map_values(|p: Vec<char>| p@),
                row@.len() == k,
                forall|q: int|
                    0 <= q < k ==> #[trigger] bindings_view(row@)[q] == (hv[q], scalar_value(trim(cv[q]))),
                bindings_well_formed(row@),
            decreases n - k,
        {
            let v = cell_value(&cells[k]);
            let ghost before = row@;
            row.push((copy_string(&header[k]), v));
            proof {
                assert forall|q: int| 0 <= q < k + 1 implies #[trigger] bindings_view(row@)[q] == (
                    hv[q],
                    scalar_value(trim(cv[q])),
                ) by {
                    assert(bindings_view(row@)[q] == (row@[q].0@, row@[q].1@));
                    if q < k {
                        assert(row@[q] == before[q]);
                        assert(bindings_view(before)[q] == (before[q].0@, before[q].1@));
                    } else {
                        assert(cv[q] == cells@[q]@);
                        assert(header@[q]@ == hv[q]);
                    }
                }
                assert forall|q: int| 0 <= q < row@.len() implies (#[trigger] row@[q]).1.well_formed() by {
                    if q < k {
                        assert(row@[q] == before[q]);
                    }
                }
            }
            k = k + 1;
        }
        proof {
            assert(bindings_view(row@) =~= csv_row(hv, lv[i as int]));
        }
        let ghost before_rows = rows@;
        rows.push(row);
        proof {
            assert forall|q: int| 0 <= q < i implies #[trigger] bindings_view(rows@[q]@) == csv_row(hv, lv[q + 1]) by {
                if q < i - 1 {
                    assert(rows@[q] == before_rows[q]);
                }
            }
            assert forall|q: int| 0 <= q < rows@.len() implies bindings_well_formed((#[trigger] rows@[q])@) by {
                if q < i - 1 {
                    assert(rows@[q] == before_rows[q]);
                }
            }
        }
        i = i + 1;
    }
    proof {
        assert(combos_view(rows@) =~= csv_table(text@));
    }
    rows
}

/// A JSON cell as a parameter value: a string as it is; any other value
/// read from its JSON text.
pub open spec fn json_cell(v: JsonValue) -> ParamVal {
    match v {
        JsonValue::String(s) => ParamVal::Str(s@),
        other => scalar_value(trim(json_text(other))),
    }
}

pub open spec fn json_row(m: Seq<(String, JsonValue)>) -> Combo {
    m.map_values(|e: (String, JsonValue)| (e.0@, json_cell(e.1)))
}

pub open spec fn is_object_value(v: JsonValue) -> bool {
    v matches JsonValue::Object(_)
}

/// The rows of a JSON table: an array of objects, one row per object with
/// its entries in order; `None` for any other value.
pub open spec fn json_table(j: JsonValue) -> Option<Seq<Combo>> {
    match j {
        JsonValue::Array(items) => if forall|i: int| 0 <= i < items@.len() ==> is_object_value(#[trigger] items@[i]) {
            Some(Seq::new(items@.len(), |i: int| json_row(items@[i]->Object_0@)))
        } else {
            None
        },
        _ => None,
    }
}

pub open spec fn not_a_table_message() -> Seq<char> {
    "a JSON parameter table must be an array of objects"@
}

fn json_cell_value(v: &JsonValue) -> (r: ParameterValue)
    ensures
        r@ == json_cell(*v),
        r.well_formed(),
{
    match v {
        JsonValue::String(s) => ParameterValue::String(copy_string(s)),
        other => {
            let t = to_json_text(other);
            parse_scalar(&trim_chars(&chars_of(t.as_str())))
        },
    }
}

fn json_rows(j: &JsonValue) -> (r: Result<Vec<Bindings>, String>)
    ensures
        match json_table(*j) {
            Some(rows) => r matches Ok(x) && combos_view(x@) == rows && combos_well_formed(x@),
            None => r matches Err(e) && e@ == not_a_table_message(),
        },
{
    match j {
        JsonValue::Array(items) => {
            let mut rows: Vec<Bindings> = Vec::new();
            let mut i: usize = 0;
            while i < items.len()
                invariant
                    i <= items@.len(),
                    *j == JsonValue::Array(*items),
                    forall|q: int| 0 <= q < i ==> is_object_value(#[trigger] items@[q]),
                    rows@.len() == i,
                    forall|q: int| 0 <= q < i ==> #[trigger] bindings_view(rows@[q]@) == json_row(items@[q]->Object_0@),
                    combos_well_formed(rows@),
                decreases items@.len() - i,
            {
                match &items[i] {
                    JsonValue::Object(m) => {
                        let mut row: Bindings = Vec::new();
                        let mut k: usize = 0;
                        while k < m.len()
                            invariant
                                k <= m@.len(),
                                row@.len() == k,
                                forall|q: int| 0 <= q < k ==> #[trigger] bindings_view(row@)[q] == (m@[q].0@, json_cell(m@[q].1)),
                                bindings_well_formed(row@),
                            decreases m@.len() - k,
                        {
                            let v = json_cell_value(&m[k].1);
                            let ghost before = row@;
                            row.push((copy_string(&m[k].0), v));
                            proof {
                                assert forall|q: int| 0 <= q < k + 1 implies #[trigger] bindings_view(row@)[q] == (
                                    m@[q].0@,
                                    json_cell(m@[q].1),
                                ) by {
                                    assert(bindings_view(row@)[q] == (row@[q].0@, row@[q].1@));
                                    if q < k {
                                        assert(row@[q] == before[q]);
                                        assert(bindings_view(before)[q] == (before[q].0@, before[q].1@));
                                    }
                                }
                                assert forall|q: int| 0 <= q < row@.len() implies (#[trigger] row@[q]).1.well_formed() by {
                                    if q < k {
                                        assert(row@[q] == before[q]);
                                    }
                                }
                            }
                            k = k + 1;
                        }
                        proof {
                            assert(bindings_view(row@) =~= json_row(m@));
                        }
                        let ghost before_rows = rows@;
                        rows.push(row);
                        proof {
                            assert forall|q: int| 0 <= q < i + 1 implies #[trigger] bindings_view(rows@[q]@) == json_row(items@[q]->Object_0@) by {
                                if q < i {
                                    assert(rows@[q] == before_rows[q]);
                                }
                            }
                            assert forall|q: int| 0 <= q < rows@.len() implies bindings_well_formed((#[trigger] rows@[q])@) by {
                                if q < i {
                                    assert(rows@[q] == before_rows[q]);
                                }
                            }
                        }
                    },
                    _ => {
                        return Err(lit("a JSON parameter table must be an array of objects"));
                    },
                }
                i = i + 1;
            }
            proof {
                assert(combos_view(rows@) =~= Seq::new(items@.len(), |q: int| json_row(items@[q]->Object_0@)));
            }
            Ok(rows)
        },
        _ => Err(lit("a JSON parameter table must be an array of objects")),
    }
}

/// Reads a JSON parameter table (see `json_table`): the parser's error for
/// text that is no JSON, an error for JSON that is no array of objects.
pub fn json_parameter_table(text: &str) -> (r: Result<Vec<Bindings>, String>)
    ensures
        json_text_parse(text@) matches Err(e) ==> (r matches Err(x) && x@ == e),
        json_text_parse(text@) is Ok ==> exists|j: JsonValue|
            Ok::<JsonView, Seq<char>>(jv(j)) == json_text_parse(text@) && match #[trigger] json_table(j) {
                Some(rows) => r matches Ok(x) && combos_view(x@) == rows && combos_well_formed(x@),
                None => r matches Err(e) && e@ == not_a_table_message(),
            },
{
    match parse_json_text(text) {
        Err(e) => Err(e),
        Ok(j) => {
            let r = json_rows(&j);
            proof {
                assert(json_table(j) == json_table(j));
            }
            r
        },
    }
}

// ---------------------------------------------------------------------------
// The tables a specification value names
// ---------------------------------------------------------------------------

pub open spec fn opt_seq(o: Option<Seq<char>>) -> Seq<Seq<char>> {
    match o {
        Some(p) => seq![p],
        None => Seq::empty(),
    }
}

/// The `parameters_file` of the first `k` items.
pub open spec fn items_table_paths(items: Seq<JsonValue>, k: nat) -> Seq<Seq<char>>
    decreases k,
{
    if k == 0 || k > items.len() {
        Seq::empty()
    } else {
        items_table_paths(items, (k - 1) as nat) + opt_seq(opt_str(json_get(items[k - 1], "parameters_file"@)))
    }
}

pub open spec fn field_table_paths(v: JsonValue, field: Seq<char>) -> Seq<Seq<char>> {
    match json_get(v, field) {
        Some(JsonValue::Array(items)) => items_table_paths(items@, items@.len()),
        _ => Seq::empty(),
    }
}

/// Every `parameters_file` a specification value names, as written: the
/// workflow's, then those of its jobs, files and user data.
pub open spec fn raw_table_paths(v: JsonValue) -> Seq<Seq<char>> {
    opt_seq(opt_str(json_get(v, "parameters_file"@))) + field_table_paths(v, "jobs"@) + field_table_paths(
        v,
        "files"@,
    ) + field_table_paths(v, "user_data"@)
}

/// The workflow variables of the first `k` entries that are text.
pub open spec fn text_variables(m: Seq<(String, JsonValue)>, k: nat) -> Seq<(Seq<char>, ParamVal)>
    decreases k,
{
    if k == 0 || k > m.len() {
        Seq::empty()
    } else {
        let prev = text_variables(m, (k - 1) as nat);
        match m[k - 1].1 {
            JsonValue::String(s) => prev.push((m[k - 1].0@, ParamVal::Str(s@))),
            _ => prev,
        }
    }
}

/// The workflow variables of a specification value that are text.
pub open spec fn value_variables(v: JsonValue) -> Seq<(Seq<char>, ParamVal)> {
    match json_get(v, "variables"@) {
        Some(JsonValue::Object(m)) => text_variables(m@, m@.len()),
        _ => Seq::empty(),
    }
}

/// The first `k` of `ps`, each once, in the order first met.
pub open spec fn first_once(ps: Seq<Seq<char>>, k: nat) -> Seq<Seq<char>>
    decreases k,
{
    if k == 0 || k > ps.len() {
        Seq::empty()
    } else {
        let prev = first_once(ps, (k - 1) as nat);
        if prev.contains(ps[k - 1]) {
            prev
        } else {
            prev.push(ps[k - 1])
        }
    }
}

/// The tables a specification value names: each `parameters_file` with the
/// workflow variables substituted, each path once, in order.
pub open spec fn table_paths(v: JsonValue) -> Seq<Seq<char>> {
    let resolved = raw_table_paths(v).map_values(|p: Seq<char>| substitute(p, value_variables(v), true));
    first_once(resolved, resolved.len())
}

fn push_opt_path(out: &mut Vec<String>, o: Option<&JsonValue>)
    ensures
        strs_view(final(out)@) == strs_view(old(out)@) + opt_seq(
            match o {
                Some(x) => opt_str(Some(*x)),
                None => None,
            },
        ),
{
    let ghost start = strs_view(out@);
    match o {
        Some(JsonValue::String(p)) => {
            out.push(copy_string(p));
            proof {
                assert(strs_view(out@) =~= start + seq![p@]);
            }
        },
        _ => {
            proof {
                assert(strs_view(out@) =~= start + Seq::<Seq<char>>::empty());
            }
        },
    }
}

fn push_field_paths(out: &mut Vec<String>, v: &JsonValue, field: &str)
    ensures
        strs_view(final(out)@) == strs_view(old(out)@) + field_table_paths(*v, field@),
{
    let ghost start = strs_view(out@);
    match v.get(field) {
        Some(JsonValue::Array(items)) => {
            let mut i: usize = 0;
            proof {
                assert(strs_view(out@) =~= start + items_table_paths(items@, 0));
            }
            while i < items.len()
                invariant
                    i <= items@.len(),
                    strs_view(out@) == start + items_table_paths(items@, i as nat),
                decreases items@.len() - i,
            {
                let ghost before = strs_view(out@);
                push_opt_path(out, items[i].get("parameters_file"));
                proof {
                    assert(strs_view(out@) =~= start + items_table_paths(items@, (i + 1) as nat));
                }
                i = i + 1;
            }
        },
        _ => {
            proof {
                assert(strs_view(out@) =~= start + Seq::<Seq<char>>::empty());
            }
        },
    }
}

fn value_variables_exec(v: &JsonValue) -> (r: Bindings)
    ensures
        bindings_view(r@) == value_variables(*v),
        bindings_well_formed(r@),
{
    let mut out: Bindings = Vec::new();
    match v.get("variables") {
        Some(JsonValue::Object(m)) => {
            let mut k: usize = 0;
            proof {
                assert(bindings_view(out@) =~= text_variables(m@, 0));
            }
            while k < m.len()
                invariant
                    k <= m@.len(),
                    bindings_view(out@) == text_variables(m@, k as nat),
                    bindings_well_formed(out@),
                decreases m@.len() - k,
            {
                match &m[k].1 {
                    JsonValue::String(s) => {
                        let ghost before = out@;
                        out.push((copy_string(&m[k].0), ParameterValue::String(copy_string(s))));
                        proof {
                            assert(bindings_view(out@) =~= bindings_view(before).push((m@[k as int].0@, ParamVal::Str(s@))));
                            assert forall|q: int| 0 <= q < out@.len() implies (#[trigger] out@[q]).1.well_formed() by {
                                if q < before.len() {
                                    assert(out@[q] == before[q]);
                                }
                            }
                        }
                    },
                    _ => {},
                }
                k = k + 1;
            }
        },
        _ => {
            proof {
                assert(bindings_view(out@) =~= Seq::<(Seq<char>, ParamVal)>::empty());
            }
        },
    }
    out
}

/// The tables a specification value names (see `table_paths`).
pub fn table_paths_of(v: &JsonValue) -> (r: Vec<String>)
    ensures
        strs_view(r@) == table_paths(*v),
{
    let mut raw: Vec<String> = Vec::new();
    push_opt_path(&mut raw, v.get("parameters_file"));
    push_field_paths(&mut raw, v, "jobs");
    push_field_paths(&mut raw, v, "files");
    push_field_paths(&mut raw, v, "user_data");
    let vars = value_variables_exec(v);
    let ghost rv = strs_view(raw@);
    let ghost resolved = rv.map_values(|p: Seq<char>| substitute(p, value_variables(*v), true));
    proof {
        assert(rv =~= raw_table_paths(*v));
    }
    let mut out: Vec<String> = Vec::new();
    let mut i: usize = 0;
    proof {
        assert(strs_view(out@) =~= first_once(resolved, 0));
    }
    while i < raw.len()
        invariant
            i <= raw@.len(),
            rv == strs_view(raw@),
            resolved == rv.map_values(|p: Seq<char>| substitute(p, value_variables(*v), true)),
            bindings_view(vars@) == value_variables(*v),
            bindings_well_formed(vars@),
            strs_view(out@) == first_once(resolved, i as nat),
        decreases raw@.len() - i,
    {
        let p = substitute_workflow_variables_in_string(raw[i].as_str(), &vars);
        proof {
            assert(p@ == resolved[i as int]);
        }
        let mut seen = false;
        let mut k: usize = 0;
        while k < out.len()
            invariant
                k <= out@.len(),
                seen == strs_view(out@).take(k as int).contains(p@),
            decreases out@.len() - k,
        {
            let same = string_eq(&out[k], &p);
            proof {
                let t = strs_view(out@).take(k as int);
                let x = out@[k as int]@;
                assert(strs_view(out@).take(k + 1) =~= t.push(x));
                if t.contains(p@) {
                    let j = choose|j: int| 0 <= j < t.len() && t[j] == p@;
                    assert(t.push(x)[j] == p@);
                }
                if x == p@ {
                    assert(t.push(x)[t.len() as int] == p@);
                }
                if t.push(x).contains(p@) {
                    let j = choose|j: int| 0 <= j < t.push(x).len() && t.push(x)[j] == p@;
                    if j < t.len() {
                        assert(t[j] == p@);
                    }
                }
            }
            if same {
                seen = true;
            }
            k = k + 1;
        }
        proof {
            assert(strs_view(out@).take(out@.len() as int) =~= strs_view(out@));
        }
        if !seen {
            let ghost before = strs_view(out@);
            out.push(p);
            proof {
                assert(strs_view(out@) =~= before.push(resolved[i as int]));
            }
        }
        i = i + 1;
    }
    out
}

} // verus!
