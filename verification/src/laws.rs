//! Properties that hold across the operations of the library.

use vstd::prelude::*;

use crate::combinations::{product, prod_outer, zip, Combo};
use crate::models::{
    page_has_more, spec_is_complete, spec_is_terminal, status_code, status_of_code, status_text,
    task_status_text, JobStatus, TaskStatus,
};
use crate::checks::{
    action_node_error, first_repeat_from, has_named_scheduler, job_names, job_node_count, mismatched_jobs, node_errors,
    node_verdict, rrs_of, runs_on, scheduler_nodes, schedulers_of, unique_names_verdict,
};
use crate::creation::{all_created, creation_levels, names_at, ready_jobs, recorded_dependencies};
use crate::dry_run::all_in;
use crate::references::{
    command_resolved, extract, extract_from, empty_extraction, job_resolved, last_lookup, lemma_reference_end, push_unique,
    reference_at, Extraction,
};
use crate::sorted::{lemma_sorted_unique, lemma_str_lt_irreflexive, lemma_str_lt_transitive, str_lt, strictly_sorted};
use crate::json::{entries_get, json_get, json_same, JsonValue};
use crate::kdl_write::{insert_by_key, sort_by_key};
use crate::kdl_read::{document_json, fold, init_acc, rule_of, step, Acc, KdlNodeData, NodeKind, Rule};
use crate::json_view::{find_key, obj_insert, JsonView};
use crate::submission::{name_index, record_fold, RecordKind};
use crate::resources::{fits_all, no_fit_message, parse_of, parsed_i64, parsed_u64, reasons_upto, req_warns, some_fit_upto, unreadable_warns, ResourceParses, SchedulerFit};
use crate::workflow_spec::{ResourceRequirementsSpec, SlurmSchedulerSpec, WorkflowActionSpec};
use crate::parity::{all_issues, check_issues, component_issues, emitted_operation_id, mismatch_message, schema_issues, spec_source_operation_id, CheckSpec};
use crate::workflow_variables::{entries_applied, entry_applied, vars_applied};
use crate::network::{PortSearch, MAX_PORT_ATTEMPTS};
use crate::workflow::WorkflowSpec;
use crate::workflow_spec::JobSpec;
use crate::parameters::{abs, decimal_fixed, fixed_text, lemma_pow10_mono, pad_text, pow10, range_count, range_seq, round_half_even, ParamVal};
use crate::templates::{close_index, lemma_close_index, starts_token, subst_from, substitute, lookup, replacement, name_and_format};
use crate::workflow::{expand_jobs, map_lookup, select_params, spec_resolve_parameters};
use crate::workflow_spec::{
    parameter_source_verdict, expand_one, spec_build_combinations, spec_expand, spec_expand_file, FileSpecView, JobSpecView,
};

verus! {

// ---------------------------------------------------------------------------
// Job statuses
// ---------------------------------------------------------------------------

/// Reading back the stored integer of a status gives the status.
pub proof fn law_status_code_round_trip(s: JobStatus)
    ensures
        status_of_code(status_code(s)) == Some(s),
{
}

/// The stored integers are 0 to 10, and each of them stores a status.
pub proof fn law_status_codes_are_dense(value: i32)
    ensures
        status_of_code(value) is Some <==> 0 <= value <= 10,
        status_of_code(value) matches Some(s) ==> status_code(s) == value,
{
}

/// Reading back the name of a status gives the status.
pub proof fn law_status_name_round_trip(s: JobStatus, t: JobStatus)
    ensures
        status_text(s) == status_text(t) <==> s == t,
{
    reveal_strlit("uninitialized");
    reveal_strlit("blocked");
    reveal_strlit("ready");
    reveal_strlit("pending");
    reveal_strlit("running");
    reveal_strlit("completed");
    reveal_strlit("failed");
    reveal_strlit("canceled");
    reveal_strlit("terminated");
    reveal_strlit("disabled");
    reveal_strlit("pending_failed");
    if s != t {
        assert(status_text(s) != status_text(t)) by {
            if status_text(s).len() == status_text(t).len() {
                assert(status_text(s)[0] != status_text(t)[0]);
            }
        }
    }
}

/// A complete job is terminal; the one terminal status that is not
/// complete is pending-failed.
pub proof fn law_complete_is_terminal(s: JobStatus)
    ensures
        spec_is_complete(s) ==> spec_is_terminal(s),
        spec_is_terminal(s) && !spec_is_complete(s) <==> s == JobStatus::PendingFailed,
{
}

/// Reading back the name of a task status gives the status.
pub proof fn law_task_status_name_round_trip(s: TaskStatus, t: TaskStatus)
    ensures
        task_status_text(s) == task_status_text(t) <==> s == t,
{
    reveal_strlit("queued");
    reveal_strlit("running");
    reveal_strlit("succeeded");
    reveal_strlit("failed");
    if s != t {
        assert(task_status_text(s) != task_status_text(t)) by {
            if task_status_text(s).len() == task_status_text(t).len() {
                assert(task_status_text(s)[0] != task_status_text(t)[0]);
            }
        }
    }
}

// ---------------------------------------------------------------------------
// Pages
// ---------------------------------------------------------------------------

/// A page says more items follow exactly when it ends before the total.
pub proof fn law_last_page_has_no_more(offset: int, len: int, total_count: int)
    ensures
        offset + len >= total_count ==> !page_has_more(offset, len, total_count),
        offset + len < total_count ==> page_has_more(offset, len, total_count),
{
}

// ---------------------------------------------------------------------------
// Substitution
// ---------------------------------------------------------------------------

proof fn lemma_subst_unbound(s: Seq<char>, i: int, protect_shell: bool)
    requires
        0 <= i <= s.len(),
    ensures
        subst_from(s, i, Seq::empty(), protect_shell) == s.skip(i),
    decreases s.len() - i,
{
    if i >= s.len() {
        assert(s.skip(i) =~= Seq::<char>::empty());
    } else if !starts_token(s, i, protect_shell) {
        lemma_subst_unbound(s, i + 1, protect_shell);
        assert(s.skip(i) =~= seq![s[i]] + s.skip(i + 1));
    } else {
        let e = close_index(s, i + 1);
        lemma_close_index(s, i + 1);
        if e >= s.len() || e < i + 1 {
            lemma_subst_unbound(s, i + 1, protect_shell);
            assert(s.skip(i) =~= seq![s[i]] + s.skip(i + 1));
        } else {
            let inner = s.subrange(i + 1, e);
            assert(lookup(Seq::<(Seq<char>, ParamVal)>::empty(), name_and_format(inner).0) is None);
            assert(replacement(Seq::empty(), inner) is None);
            lemma_subst_unbound(s, e + 1, protect_shell);
            assert(s.skip(i) =~= s.subrange(i, e + 1) + s.skip(e + 1));
        }
    }
}

/// With nothing bound, substitution leaves every text as it is.
pub proof fn law_substitution_without_bindings_is_identity(s: Seq<char>, protect_shell: bool)
    ensures
        substitute(s, Seq::empty(), protect_shell) == s,
{
    lemma_subst_unbound(s, 0, protect_shell);
    assert(s.skip(0) =~= s);
}

proof fn lemma_subst_shell_only(s: Seq<char>, i: int, b: Seq<(Seq<char>, ParamVal)>)
    requires
        0 <= i <= s.len(),
        forall|k: int| 0 <= k < s.len() && #[trigger] s[k] == '{' ==> k > 0 && s[k - 1] == '$',
    ensures
        subst_from(s, i, b, true) == s.skip(i),
    decreases s.len() - i,
{
    if i >= s.len() {
        assert(s.skip(i) =~= Seq::<char>::empty());
    } else {
        assert(!starts_token(s, i, true));
        lemma_subst_shell_only(s, i + 1, b);
        assert(s.skip(i) =~= seq![s[i]] + s.skip(i + 1));
    }
}

/// Workflow variables never rewrite shell syntax: a text whose every `{`
/// follows a `$` (such as `${HOME}/${TORC_JOB_ID}`) is kept verbatim,
/// whatever the variables.
pub proof fn law_variables_keep_shell_expansions(s: Seq<char>, b: Seq<(Seq<char>, ParamVal)>)
    requires
        forall|k: int| 0 <= k < s.len() && #[trigger] s[k] == '{' ==> k > 0 && s[k - 1] == '$',
    ensures
        substitute(s, b, true) == s,
{
    lemma_subst_shell_only(s, 0, b);
    assert(s.skip(0) =~= s);
}

// ---------------------------------------------------------------------------
// Formats
// ---------------------------------------------------------------------------

/// A padded text is at least as wide as the width asked for, and keeps a
/// text that is wide enough already.
pub proof fn law_padding_width(t: Seq<char>, w: nat, zero: bool)
    ensures
        pad_text(t, w, zero).len() == if t.len() >= w {
            t.len()
        } else {
            w
        },
        t.len() >= w ==> pad_text(t, w, zero) == t,
{
}

// ---------------------------------------------------------------------------
// Combinations
// ---------------------------------------------------------------------------

/// The number of values of each parameter multiplied together.
pub open spec fn count_product(ps: Seq<(Seq<char>, Seq<ParamVal>)>) -> nat
    decreases ps.len(),
{
    if ps.len() == 0 {
        1
    } else {
        ps[0].1.len() * count_product(ps.drop_first())
    }
}

proof fn lemma_prod_outer_len(name: Seq<char>, vals: Seq<ParamVal>, rest: Seq<Combo>, j: int)
    requires
        j >= 0,
    ensures
        prod_outer(name, vals, rest, j).len() == j * rest.len(),
    decreases j,
{
    if j > 0 {
        lemma_prod_outer_len(name, vals, rest, j - 1);
        let added = rest.map_values(|c: Combo| seq![(name, vals[j - 1])] + c);
        assert(added.len() == rest.len());
        assert(prod_outer(name, vals, rest, j) == prod_outer(name, vals, rest, j - 1) + added);
        assert(j * rest.len() == (j - 1) * rest.len() + rest.len()) by (nonlinear_arith);
    } else {
        assert(j * rest.len() == 0) by (nonlinear_arith)
            requires
                j == 0,
        ;
    }
}

/// The product mode generates as many combinations as the product of the
/// parameters' numbers of values.
pub proof fn law_product_count(ps: Seq<(Seq<char>, Seq<ParamVal>)>)
    ensures
        product(ps).len() == count_product(ps),
    decreases ps.len(),
{
    if ps.len() > 0 {
        law_product_count(ps.drop_first());
        lemma_prod_outer_len(ps[0].0, ps[0].1, product(ps.drop_first()), ps[0].1.len() as int);
    }
}

/// The zip mode generates one combination per value when all parameters
/// have as many values, and nothing otherwise; the k-th combination holds
/// the k-th value of each parameter.
pub proof fn law_zip_pairs_values(ps: Seq<(Seq<char>, Seq<ParamVal>)>)
    requires
        ps.len() > 0,
    ensures
        (forall|j: int| 0 <= j < ps.len() ==> (#[trigger] ps[j]).1.len() == ps[0].1.len())
            <==> zip(ps) is Some,
        zip(ps) matches Some(cs) ==> cs.len() == ps[0].1.len() && forall|k: int, j: int|
            0 <= k < cs.len() && 0 <= j < ps.len() ==> #[trigger] cs[k][j] == (ps[j].0, ps[j].1[k]),
{
}

// ---------------------------------------------------------------------------
// Expansion
// ---------------------------------------------------------------------------

/// A job without parameters and without a table expands to itself alone.
pub proof fn law_unparameterized_job_expands_to_itself(j: JobSpecView, table: Option<Seq<Combo>>)
    requires
        j.parameters is None,
        j.parameters_file is None,
    ensures
        spec_expand(j, table) == Ok::<_, Seq<char>>(seq![j]),
{
}

/// A file without parameters and without a table expands to itself alone.
pub proof fn law_unparameterized_file_expands_to_itself(f: FileSpecView, table: Option<Seq<Combo>>)
    requires
        f.parameters is None,
        f.parameters_file is None,
    ensures
        spec_expand_file(f, table) == Ok::<_, Seq<char>>(seq![f]),
{
}

/// A parameterized job expands to one job per combination, each without
/// parameters, mode or table of its own.
pub proof fn law_expansion_is_one_job_per_combination(j: JobSpecView, table: Option<Seq<Combo>>)
    requires
        spec_build_combinations(
            j.parameters,
            j.parameter_mode,
            j.use_parameters is Some,
            j.parameters_file,
            table,
        ) is Ok,
    ensures
        match spec_build_combinations(
            j.parameters,
            j.parameter_mode,
            j.use_parameters is Some,
            j.parameters_file,
            table,
        ) {
            Ok(Some(cs)) => (spec_expand(j, table) matches Ok(v) && v.len() == cs.len() && forall|
                k: int,
            |
                0 <= k < v.len() ==> (#[trigger] v[k]).parameters is None && v[k].parameter_mode is None
                    && v[k].parameters_file is None),
            _ => spec_expand(j, table) == Ok::<_, Seq<char>>(seq![j]),
        },
{
}

/// Expanding an already expanded job changes nothing: the generated jobs
/// have no parameters left (a job that inherits nothing keeps its
/// `use_parameters`, which inline expansion ignores).
pub proof fn law_expansion_is_idempotent(j: JobSpecView, c: Combo, table: Option<Seq<Combo>>)
    ensures
        spec_expand(expand_one(j, c), table) == Ok::<_, Seq<char>>(seq![expand_one(j, c)]),
{
}

/// A record's own parameters win over the workflow's.
pub proof fn law_local_parameters_win(
    local: Seq<(Seq<char>, Seq<char>)>,
    use_params: Option<Seq<Seq<char>>>,
    wf: Option<Seq<(Seq<char>, Seq<char>)>>,
)
    ensures
        spec_resolve_parameters(Some(local), use_params, wf) == Some(local),
{
}

/// A record inherits nothing unless it names workflow parameters.
pub proof fn law_no_inheritance_without_use_parameters(wf: Option<Seq<(Seq<char>, Seq<char>)>>)
    ensures
        spec_resolve_parameters(None, None, wf) is None,
{
}

/// What a record inherits through `use_parameters` are workflow parameters
/// it names, with the workflow's values.
pub proof fn law_inherited_parameters_are_named(names: Seq<Seq<char>>, wf: Seq<(Seq<char>, Seq<char>)>)
    ensures
        forall|i: int|
            0 <= i < select_params(names, wf).len() ==> names.contains(
                (#[trigger] select_params(names, wf)[i]).0,
            ) && map_lookup(wf, select_params(names, wf)[i].0) == Some(
                select_params(names, wf)[i].1,
            ),
    decreases names.len(),
{
    if names.len() > 0 {
        law_inherited_parameters_are_named(names.drop_last(), wf);
        let prev = select_params(names.drop_last(), wf);
        assert forall|i: int| 0 <= i < prev.len() implies names.contains((#[trigger] prev[i]).0) by {
            assert(names.drop_last().contains(prev[i].0));
            let k = choose|k: int| 0 <= k < names.drop_last().len() && names.drop_last()[k] == prev[i].0;
            assert(names[k] == prev[i].0);
        }
        assert(names[names.len() - 1] == names.last());
    }
}

/// A workflow whose jobs have neither parameters, tables nor inheritance
/// settings keeps its jobs through expansion.
pub proof fn law_unparameterized_jobs_are_kept(
    js: Seq<JobSpecView>,
    wfp: Option<Seq<(Seq<char>, Seq<char>)>>,
    wff: Option<Seq<char>>,
    tables: Seq<(Seq<char>, Seq<Combo>)>,
)
    requires
        forall|i: int|
            0 <= i < js.len() ==> (#[trigger] js[i]).parameters is None && js[i].parameter_mode is None
                && js[i].use_parameters is None && js[i].parameters_file is None
                && js[i].use_parameters_file is None,
    ensures
        expand_jobs(js, wfp, wff, tables) == Ok::<_, Seq<char>>(js),
    decreases js.len(),
{
    if js.len() > 0 {
        let init = js.drop_last();
        assert forall|i: int| 0 <= i < init.len() implies (#[trigger] init[i]).parameters is None
            && init[i].parameter_mode is None && init[i].use_parameters is None
            && init[i].parameters_file is None && init[i].use_parameters_file is None by {
            assert(init[i] == js[i]);
        }
        law_unparameterized_jobs_are_kept(init, wfp, wff, tables);
        let j = js.last();
        assert(js[js.len() - 1] == j);
        let rj = crate::workflow::resolve_job(j, wfp, wff);
        assert(rj == j);
        assert(parameter_source_verdict(
            crate::workflow::quoted_label("Job '"@, j.name),
            false,
            false,
            false,
            false,
            None,
            wff is Some,
        ) == Ok::<(), Seq<char>>(()));
        assert(spec_expand(rj, crate::workflow::table_for(tables, rj.parameters_file)) == Ok::<_, Seq<char>>(seq![j]));
        assert(init + seq![j] =~= js);
    } else {
        assert(js =~= Seq::<JobSpecView>::empty());
    }
}

// ---------------------------------------------------------------------------
// Port search
// ---------------------------------------------------------------------------

/// A port search tries consecutive ports from the one it started at, and
/// never more than the maximum number of them.
pub proof fn law_port_search_bounds(s: PortSearch)
    requires
        s.well_formed(),
    ensures
        s.start_port <= s.port < s.start_port + MAX_PORT_ATTEMPTS,
{
}

// ---------------------------------------------------------------------------
// Unique names
// ---------------------------------------------------------------------------

proof fn lemma_no_repeat_from(names: Seq<Seq<char>>, i: int, k: int)
    requires
        0 <= i <= k < names.len(),
        first_repeat_from(names, i) is None,
    ensures
        !names.take(k).contains(names[k]),
    decreases k - i,
{
    if i < k {
        lemma_no_repeat_from(names, i + 1, k);
    }
}

proof fn lemma_no_repeat_distinct(names: Seq<Seq<char>>)
    requires
        first_repeat_from(names, 0) is None,
    ensures
        forall|i: int, j: int| 0 <= i < j < names.len() ==> names[i] != names[j],
{
    assert forall|i: int, j: int| 0 <= i < j < names.len() implies names[i] != names[j] by {
        lemma_no_repeat_from(names, 0, j);
        if names[i] == names[j] {
            assert(names.take(j)[i] == names[j]);
        }
    }
}

/// A workflow that passes the check of unique names has no two jobs of the
/// same name.
pub proof fn law_unique_names_are_distinct(w: WorkflowSpec)
    requires
        unique_names_verdict(w) is Ok,
    ensures
        forall|i: int, j: int|
            0 <= i < j < w.jobs.len() ==> (#[trigger] w.jobs@[i]).name@ != (#[trigger] w.jobs@[j]).name@,
{
    lemma_no_repeat_distinct(job_names(w.jobs@));
    assert forall|i: int, j: int| 0 <= i < j < w.jobs.len() implies (#[trigger] w.jobs@[i]).name@ != (
    #[trigger] w.jobs@[j]).name@ by {
        assert(job_names(w.jobs@)[i] == w.jobs@[i].name@);
        assert(job_names(w.jobs@)[j] == w.jobs@[j].name@);
    }
}

// ---------------------------------------------------------------------------
// Order of creation
// ---------------------------------------------------------------------------

proof fn lemma_ready_jobs_are_ready(js: Seq<JobSpec>, g: Seq<Seq<Seq<char>>>, created: Seq<Seq<char>>, k: int, q: int)
    requires
        0 <= q < ready_jobs(js, g, created, k).len(),
    ensures
        0 <= ready_jobs(js, g, created, k)[q] < k,
        k <= js.len(),
        all_in(recorded_dependencies(js, g, js[ready_jobs(js, g, created, k)[q]].name@), created),
    decreases k,
{
    if k <= 0 || k > js.len() {
    } else if !created.contains(js[k - 1].name@) && all_in(recorded_dependencies(js, g, js[k - 1].name@), created) {
        if q < ready_jobs(js, g, created, k - 1).len() {
            lemma_ready_jobs_are_ready(js, g, created, k - 1, q);
        }
    } else {
        lemma_ready_jobs_are_ready(js, g, created, k - 1, q);
    }
}

/// Jobs are created in dependency order: every dependency of a job in a
/// level of creation was created before, or is a job of an earlier level.
pub proof fn law_creation_follows_dependencies(
    js: Seq<JobSpec>,
    g: Seq<Seq<Seq<char>>>,
    created: Seq<Seq<char>>,
    rounds: nat,
    levels: Seq<Seq<int>>,
    lv: int,
    q: int,
    d: Seq<char>,
)
    requires
        creation_levels(js, g, created, rounds) == Ok::<Seq<Seq<int>>, Seq<char>>(levels),
        0 <= lv < levels.len(),
        0 <= q < levels[lv].len(),
        recorded_dependencies(js, g, js[levels[lv][q]].name@).contains(d),
    ensures
        0 <= levels[lv][q] < js.len(),
        created.contains(d) || exists|l2: int, q2: int|
            0 <= l2 < lv && 0 <= q2 < levels[l2].len() && js[#[trigger] levels[l2][q2]].name@ == d,
    decreases rounds,
{
    if rounds == 0 || all_created(js, created) {
    } else {
        let level = ready_jobs(js, g, created, js.len() as int);
        let next = created + names_at(js, level);
        if level.len() > 0 {
            let rest = creation_levels(js, g, next, (rounds - 1) as nat);
            if let Ok(r) = rest {
                assert(levels == seq![level] + r);
                if lv == 0 {
                    assert(levels[0] == level);
                    lemma_ready_jobs_are_ready(js, g, created, js.len() as int, q);
                    let deps = recorded_dependencies(js, g, js[level[q]].name@);
                    let p = choose|p: int| 0 <= p < deps.len() && deps[p] == d;
                    assert(created.contains(deps[p]));
                } else {
                    assert(levels[lv] == r[lv - 1]);
                    law_creation_follows_dependencies(js, g, next, (rounds - 1) as nat, r, lv - 1, q, d);
                    if next.contains(d) {
                        let p = choose|p: int| 0 <= p < next.len() && next[p] == d;
                        if p >= created.len() {
                            let q2 = p - created.len();
                            assert(names_at(js, level)[q2] == d);
                            assert(levels[0][q2] == level[q2]);
                            assert(js[levels[0][q2]].name@ == d);
                        } else {
                            assert(created[p] == d);
                        }
                    } else {
                        let (l3, q3) = choose|l3: int, q3: int|
                            0 <= l3 < lv - 1 && 0 <= q3 < r[l3].len() && js[#[trigger] r[l3][q3]].name@ == d;
                        assert(levels[l3 + 1] == r[l3]);
                        assert(js[levels[l3 + 1][q3]].name@ == d);
                    }
                }
            }
        }
    }
}

// ---------------------------------------------------------------------------
// References to files and user data
// ---------------------------------------------------------------------------

proof fn lemma_text_kept_from(s: Seq<char>, i: int, acc: Extraction)
    requires
        0 <= i <= s.len(),
        acc.text == s.take(i),
    ensures
        extract_from(s, i, Seq::empty(), Seq::empty(), acc).text == s,
    decreases s.len() - i,
{
    if i >= s.len() {
        assert(s.take(i) =~= s);
    } else {
        lemma_reference_end(s, i);
        match reference_at(s, i) {
            None => {
                assert(acc.text.push(s[i]) =~= s.take(i + 1));
                lemma_text_kept_from(s, i + 1, Extraction { text: acc.text.push(s[i]), ..acc });
            },
            Some(r) => {
                let raw = s.subrange(i, r.end);
                assert(acc.text + raw =~= s.take(r.end));
                lemma_text_kept_from(s, r.end, Extraction { text: acc.text + raw, ..acc });
            },
        }
    }
}

/// References to names that no file or user data has are left as written:
/// with none at all, the text comes back unchanged.
pub proof fn law_unknown_references_are_kept(s: Seq<char>)
    ensures
        extract(s, Seq::empty(), Seq::empty()).text == s,
{
    assert(empty_extraction().text =~= s.take(0));
    lemma_text_kept_from(s, 0, empty_extraction());
}

pub open spec fn no_repeats(v: Seq<Seq<char>>) -> bool {
    forall|i: int, j: int| 0 <= i < j < v.len() ==> v[i] != v[j]
}

pub open spec fn lists_without_repeats(e: Extraction) -> bool {
    &&& no_repeats(e.input_files)
    &&& no_repeats(e.output_files)
    &&& no_repeats(e.input_user_data)
    &&& no_repeats(e.output_user_data)
}

proof fn lemma_push_unique_no_repeats(v: Seq<Seq<char>>, n: Seq<char>)
    requires
        no_repeats(v),
    ensures
        no_repeats(push_unique(v, n)),
{
    if !v.contains(n) {
        let w = v.push(n);
        assert forall|i: int, j: int| 0 <= i < j < w.len() implies w[i] != w[j] by {
            if j == v.len() {
                assert(w[i] == v[i]);
            }
        }
    }
}

proof fn lemma_lists_stay_without_repeats(
    s: Seq<char>,
    i: int,
    files: Seq<(Seq<char>, Seq<char>)>,
    data: Seq<(Seq<char>, Seq<char>)>,
    acc: Extraction,
)
    requires
        lists_without_repeats(acc),
    ensures
        lists_without_repeats(extract_from(s, i, files, data, acc)),
    decreases s.len() - i,
{
    if i < 0 || i >= s.len() {
    } else {
        match reference_at(s, i) {
            None => {
                lemma_lists_stay_without_repeats(s, i + 1, files, data, Extraction { text: acc.text.push(s[i]), ..acc });
            },
            Some(r) => if r.end > i {
                let raw = s.subrange(i, r.end);
                lemma_push_unique_no_repeats(acc.input_files, r.name);
                lemma_push_unique_no_repeats(acc.output_files, r.name);
                lemma_push_unique_no_repeats(acc.input_user_data, r.name);
                lemma_push_unique_no_repeats(acc.output_user_data, r.name);
                if r.is_file {
                    match last_lookup(files, r.name) {
                        Some(path) => if r.is_input {
                            lemma_lists_stay_without_repeats(s, r.end, files, data, Extraction {
                                text: acc.text + path,
                                input_files: push_unique(acc.input_files, r.name),
                                ..acc
                            });
                        } else {
                            lemma_lists_stay_without_repeats(s, r.end, files, data, Extraction {
                                text: acc.text + path,
                                output_files: push_unique(acc.output_files, r.name),
                                ..acc
                            });
                        },
                        None => {
                            lemma_lists_stay_without_repeats(s, r.end, files, data, Extraction { text: acc.text + raw, ..acc });
                        },
                    }
                } else {
                    match last_lookup(data, r.name) {
                        Some(t) => if r.is_input {
                            lemma_lists_stay_without_repeats(s, r.end, files, data, Extraction {
                                text: acc.text + t,
                                input_user_data: push_unique(acc.input_user_data, r.name),
                                ..acc
                            });
                        } else {
                            lemma_lists_stay_without_repeats(s, r.end, files, data, Extraction {
                                text: acc.text + t,
                                output_user_data: push_unique(acc.output_user_data, r.name),
                                ..acc
                            });
                        },
                        None => {
                            lemma_lists_stay_without_repeats(s, r.end, files, data, Extraction { text: acc.text + raw, ..acc });
                        },
                    }
                }
            },
        }
    }
}

/// A name referenced several times is listed once: the names a text
/// references hold no repeats.
pub proof fn law_referenced_names_are_listed_once(
    s: Seq<char>,
    files: Seq<(Seq<char>, Seq<char>)>,
    data: Seq<(Seq<char>, Seq<char>)>,
)
    ensures
        lists_without_repeats(extract(s, files, data)),
{
    lemma_lists_stay_without_repeats(s, 0, files, data, empty_extraction());
}

/// The input files of a job whose invocation script references files are
/// sorted, each name once.
pub proof fn law_script_inputs_are_sorted(
    j: JobSpecView,
    files: Seq<(Seq<char>, Seq<char>)>,
    data: Seq<(Seq<char>, Seq<char>)>,
)
    requires
        j.invocation_script matches Some(sc) && extract(sc, files, data).input_files.len() > 0,
    ensures
        job_resolved(j, files, data).input_files matches Some(l) && strictly_sorted(l),
{
    let sc = j.invocation_script->Some_0;
    let a = command_resolved(j, files, data);
    let base = match a.input_files {
        Some(e) => e,
        None => Seq::empty(),
    };
    lemma_sorted_unique(base + extract(sc, files, data).input_files);
}

// ---------------------------------------------------------------------------
// Workflow variables
// ---------------------------------------------------------------------------

proof fn lemma_variables_member_kept(v: Seq<(String, JsonValue)>, w: Seq<(String, JsonValue)>, vars: Combo)
    requires
        w.len() == v.len(),
        forall|i: int|
            0 <= i < v.len() ==> (#[trigger] v[i]).0@ == w[i].0@ && entry_applied(v[i].0@, v[i].1, w[i].1, vars),
    ensures
        entries_get(v, "variables"@) matches Some(x) ==> (entries_get(w, "variables"@) matches Some(y) && json_same(x, y)),
    decreases v.len(),
{
    if v.len() > 0 {
        assert(v[0].0@ == w[0].0@ && entry_applied(v[0].0@, v[0].1, w[0].1, vars));
        if v[0].0@ != "variables"@ {
            assert forall|i: int|
                0 <= i < v.drop_first().len() implies (#[trigger] v.drop_first()[i]).0@ == w.drop_first()[i].0@
                && entry_applied(v.drop_first()[i].0@, v.drop_first()[i].1, w.drop_first()[i].1, vars) by {
                assert(v.drop_first()[i] == v[i + 1]);
                assert(w.drop_first()[i] == w[i + 1]);
            }
            lemma_variables_member_kept(v.drop_first(), w.drop_first(), vars);
        }
    }
}

/// Applying workflow variables keeps the `variables` member as it was, for
/// the specification to be written back with it.
pub proof fn law_variables_member_is_kept(a: JsonValue, b: JsonValue, vars: Combo)
    requires
        vars_applied(a, b, vars),
    ensures
        json_get(a, "variables"@) matches Some(x) ==> (json_get(b, "variables"@) matches Some(y) && json_same(x, y)),
{
    if let JsonValue::Object(v) = a {
        assert(entries_applied(a, b, vars, false));
        if let JsonValue::Object(w) = b {
            assert forall|i: int|
                0 <= i < v@.len() implies (#[trigger] v@[i]).0@ == w@[i].0@ && entry_applied(v@[i].0@, v@[i].1, w@[i].1, vars) by {
            }
            lemma_variables_member_kept(v@, w@, vars);
        }
    }
}

// ---------------------------------------------------------------------------
// KDL text
// ---------------------------------------------------------------------------

pub open spec fn keys_in_order(v: Seq<(Seq<char>, Seq<char>)>) -> bool {
    forall|i: int, j: int| 0 <= i < j < v.len() ==> !str_lt(#[trigger] v[j].0, #[trigger] v[i].0)
}

proof fn lemma_insert_by_key(u: Seq<(Seq<char>, Seq<char>)>, x: (Seq<char>, Seq<char>))
    requires
        keys_in_order(u),
    ensures
        keys_in_order(insert_by_key(u, x)),
        insert_by_key(u, x).len() == u.len() + 1,
        forall|k: int|
            0 <= k < insert_by_key(u, x).len() ==> #[trigger] insert_by_key(u, x)[k] == x || u.contains(
                insert_by_key(u, x)[k],
            ),
    decreases u.len(),
{
    let r = insert_by_key(u, x);
    if u.len() == 0 {
    } else if str_lt(x.0, u[0].0) {
        assert(r == seq![x] + u);
        assert forall|i: int, j: int| 0 <= i < j < r.len() implies !str_lt(#[trigger] r[j].0, #[trigger] r[i].0) by {
            if i == 0 {
                assert(r[j] == u[j - 1]);
                if str_lt(u[j - 1].0, x.0) {
                    lemma_str_lt_transitive(u[j - 1].0, x.0, u[0].0);
                    if j - 1 == 0 {
                        lemma_str_lt_irreflexive(u[0].0);
                    } else {
                        assert(!str_lt(u[j - 1].0, u[0].0));
                    }
                }
            } else {
                assert(r[i] == u[i - 1] && r[j] == u[j - 1]);
            }
        }
        assert forall|k: int| 0 <= k < r.len() implies #[trigger] r[k] == x || u.contains(r[k]) by {
            if k > 0 {
                assert(r[k] == u[k - 1]);
            }
        }
    } else {
        let t = u.drop_first();
        assert forall|i: int, j: int| 0 <= i < j < t.len() implies !str_lt(#[trigger] t[j].0, #[trigger] t[i].0) by {
            assert(t[i] == u[i + 1] && t[j] == u[j + 1]);
        }
        lemma_insert_by_key(t, x);
        let rest = insert_by_key(t, x);
        assert(r == seq![u[0]] + rest);
        assert forall|i: int, j: int| 0 <= i < j < r.len() implies !str_lt(#[trigger] r[j].0, #[trigger] r[i].0) by {
            if i == 0 {
                assert(r[j] == rest[j - 1]);
                if rest[j - 1] == x {
                } else {
                    assert(t.contains(rest[j - 1]));
                    let p = choose|p: int| 0 <= p < t.len() && t[p] == rest[j - 1];
                    assert(t[p] == u[p + 1]);
                    assert(!str_lt(u[p + 1].0, u[0].0));
                }
            } else {
                assert(r[i] == rest[i - 1] && r[j] == rest[j - 1]);
            }
        }
        assert forall|k: int| 0 <= k < r.len() implies #[trigger] r[k] == x || u.contains(r[k]) by {
            if k == 0 {
                assert(u[0] == r[0]);
            } else {
                assert(r[k] == rest[k - 1]);
                if rest[k - 1] != x {
                    let p = choose|p: int| 0 <= p < t.len() && t[p] == rest[k - 1];
                    assert(u[p + 1] == r[k]);
                }
            }
        }
    }
}

/// Workflow variables and environments are written in the order of their
/// names: sorting entries by key leaves no entry before one of a smaller
/// key, and keeps every entry.
pub proof fn law_sorted_entries_are_in_key_order(v: Seq<(Seq<char>, Seq<char>)>)
    ensures
        keys_in_order(sort_by_key(v)),
        sort_by_key(v).len() == v.len(),
    decreases v.len(),
{
    if v.len() > 0 {
        law_sorted_entries_are_in_key_order(v.drop_last());
        lemma_insert_by_key(sort_by_key(v.drop_last()), v.last());
    }
}

// ---------------------------------------------------------------------------
// Building JSON objects, and reading KDL
// ---------------------------------------------------------------------------

proof fn lemma_find_key_first(m: Seq<(Seq<char>, JsonView)>, k: Seq<char>, i: nat)
    ensures
        match find_key(m, k, i) {
            Some(j) => i <= j < m.len() && m[j as int].0 == k && forall|t: int| i <= t < j ==> m[t].0 != k,
            None => forall|t: int| i <= t < m.len() ==> m[t].0 != k,
        },
    decreases m.len() - i,
{
    if i < m.len() && m[i as int].0 != k {
        lemma_find_key_first(m, k, i + 1);
    }
}

proof fn lemma_find_key_at(m: Seq<(Seq<char>, JsonView)>, k: Seq<char>, i: nat, j: nat)
    requires
        i <= j < m.len(),
        m[j as int].0 == k,
        forall|t: int| i <= t < j ==> m[t].0 != k,
    ensures
        find_key(m, k, i) == Some(j),
    decreases j - i,
{
    if i < j {
        lemma_find_key_at(m, k, i + 1, j);
    }
}

proof fn lemma_find_key_absent(m: Seq<(Seq<char>, JsonView)>, k: Seq<char>, i: nat)
    requires
        forall|t: int| i <= t < m.len() ==> m[t].0 != k,
    ensures
        find_key(m, k, i) is None,
    decreases m.len() - i,
{
    if i < m.len() {
        lemma_find_key_absent(m, k, i + 1);
    }
}

/// The value of the entry of key `k`, if any.
pub open spec fn entry_value(m: Seq<(Seq<char>, JsonView)>, k: Seq<char>) -> Option<JsonView> {
    match find_key(m, k, 0) {
        Some(i) => Some(m[i as int].1),
        None => None,
    }
}

/// Setting a key of an object: the key then has the new value, and every
/// other key keeps its value (a later setting replaces an earlier one).
pub proof fn law_object_insert_then_lookup(
    m: Seq<(Seq<char>, JsonView)>,
    k: Seq<char>,
    v: JsonView,
    other: Seq<char>,
)
    ensures
        entry_value(obj_insert(m, k, v), k) == Some(v),
        other != k ==> entry_value(obj_insert(m, k, v), other) == entry_value(m, other),
{
    let n = obj_insert(m, k, v);
    lemma_find_key_first(m, k, 0);
    lemma_find_key_first(m, other, 0);
    match find_key(m, k, 0) {
        Some(i) => {
            assert(n == m.update(i as int, (k, v)));
            lemma_find_key_at(n, k, 0, i);
            if other != k {
                match find_key(m, other, 0) {
                    Some(j) => {
                        lemma_find_key_at(n, other, 0, j);
                    },
                    None => {
                        lemma_find_key_absent(n, other, 0);
                    },
                }
            }
        },
        None => {
            assert(n == m.push((k, v)));
            lemma_find_key_at(n, k, 0, m.len());
            if other != k {
                match find_key(m, other, 0) {
                    Some(j) => {
                        lemma_find_key_at(n, other, 0, j);
                    },
                    None => {
                        lemma_find_key_absent(n, other, 0);
                    },
                }
            }
        },
    }
}

proof fn lemma_fold_prefix(k: NodeKind, init: Acc, a: Seq<KdlNodeData>, b: Seq<KdlNodeData>, i: nat)
    requires
        i <= a.len(),
        i <= b.len(),
        a.take(i as int) == b.take(i as int),
    ensures
        fold(k, init, a, i) == fold(k, init, b, i),
    decreases i,
{
    if i > 0 {
        assert(a.take(i - 1) =~= a.take(i as int).take(i - 1));
        assert(b.take(i - 1) =~= b.take(i as int).take(i - 1));
        lemma_fold_prefix(k, init, a, b, (i - 1) as nat);
        assert(a[i - 1] == a.take(i as int)[i - 1]);
        assert(b[i - 1] == b.take(i as int)[i - 1]);
    }
}

/// A node that the format gives no meaning to at the top level of a
/// document is ignored: the document reads as it does without it.
pub proof fn law_kdl_unknown_top_level_node_is_ignored(nodes: Seq<KdlNodeData>, extra: KdlNodeData)
    requires
        rule_of(NodeKind::Document, extra.name@) == Rule::Skip,
    ensures
        document_json(nodes.push(extra)) == document_json(nodes),
{
    let all = nodes.push(extra);
    let init = init_acc(NodeKind::Document, Seq::empty());
    assert(all.take(nodes.len() as int) =~= nodes.take(nodes.len() as int));
    lemma_fold_prefix(NodeKind::Document, init, all, nodes, nodes.len());
    assert(all[nodes.len() as int] == extra);
    let a = fold(NodeKind::Document, init, nodes, nodes.len());
    if a.error is None {
        assert(step(NodeKind::Document, a, extra) == a);
    }
    assert(fold(NodeKind::Document, init, all, all.len()) == a);
}

// ---------------------------------------------------------------------------
// The ids the server assigns
// ---------------------------------------------------------------------------

proof fn lemma_name_index_same_keys(m: Seq<(Seq<char>, i64)>, n: Seq<(Seq<char>, i64)>, name: Seq<char>, i: nat)
    requires
        m.len() == n.len(),
        forall|t: int| 0 <= t < m.len() ==> (#[trigger] m[t]).0 == n[t].0,
    ensures
        name_index(m, name, i) == name_index(n, name, i),
    decreases m.len() - i,
{
    if i < m.len() {
        lemma_name_index_same_keys(m, n, name, i + 1);
    }
}

proof fn lemma_name_index_found(m: Seq<(Seq<char>, i64)>, name: Seq<char>, i: nat)
    ensures
        name_index(m, name, i) matches Some(j) ==> i <= j < m.len() && m[j as int].0 == name,
    decreases m.len() - i,
{
    if i < m.len() && m[i as int].0 != name {
        lemma_name_index_found(m, name, i + 1);
    }
}

/// Two records the server created, with distinct names that were asked
/// for and with ids, are taken in to the same ids in either order: the
/// order of the server's answer does not matter.
pub proof fn law_created_ids_ignore_order(
    m: Seq<(Seq<char>, i64)>,
    a: (Option<i64>, Seq<char>),
    b: (Option<i64>, Seq<char>),
    kind: RecordKind,
)
    requires
        a.1 != b.1,
        a.0 is Some,
        b.0 is Some,
        name_index(m, a.1, 0) is Some,
        name_index(m, b.1, 0) is Some,
    ensures
        record_fold(m, seq![a, b], kind, 2) == record_fold(m, seq![b, a], kind, 2),
        record_fold(m, seq![a, b], kind, 2).1 is None,
{
    let i = name_index(m, a.1, 0)->0;
    let j = name_index(m, b.1, 0)->0;
    lemma_name_index_found(m, a.1, 0);
    lemma_name_index_found(m, b.1, 0);
    let ma = m.update(i as int, (a.1, a.0->0));
    let mb = m.update(j as int, (b.1, b.0->0));
    lemma_name_index_same_keys(m, ma, b.1, 0);
    lemma_name_index_same_keys(m, mb, a.1, 0);
    let ab = seq![a, b];
    let ba = seq![b, a];
    assert(ab[0] == a && ab[1] == b);
    assert(ba[0] == b && ba[1] == a);
    assert(record_fold(m, ab, kind, 0) == (m, None::<Seq<char>>));
    assert(record_fold(m, ba, kind, 0) == (m, None::<Seq<char>>));
    assert(record_fold(m, ab, kind, 1) == (ma, None::<Seq<char>>));
    assert(record_fold(m, ba, kind, 1) == (mb, None::<Seq<char>>));
    assert(ma.update(j as int, (b.1, b.0->0)) =~= mb.update(i as int, (a.1, a.0->0)));
    assert(record_fold(m, ab, kind, 2) == (ma.update(j as int, (b.1, b.0->0)), None::<Seq<char>>));
    assert(record_fold(m, ba, kind, 2) == (mb.update(i as int, (a.1, a.0->0)), None::<Seq<char>>));
}

proof fn lemma_some_fit_exists(fits: Seq<SchedulerFit>, rt: Option<u64>, jm: Option<i64>, g: i64, k: nat)
    requires
        k <= fits.len(),
    ensures
        some_fit_upto(fits, rt, jm, g, k) <==> exists|i: int| 0 <= i < k && #[trigger] fits_all(rt, jm, g, fits[i]),
    decreases k,
{
    if k > 0 {
        lemma_some_fit_exists(fits, rt, jm, g, (k - 1) as nat);
        if fits_all(rt, jm, g, fits[k - 1]) {
            assert(fits_all(rt, jm, g, fits[k - 1]));
        }
    }
}

/// A job that names no scheduler is warned of exactly when no scheduler
/// fits it in runtime, memory and GPUs together; besides that warning it
/// gets only those of its texts that could not be read.
pub proof fn law_unscheduled_job_must_fit_one_scheduler(
    j: JobSpec,
    rr: ResourceRequirementsSpec,
    fits: Seq<SchedulerFit>,
    p: ResourceParses,
)
    requires
        j.scheduler is None,
        rr.num_gpus >= 0,
    ensures
        ({
            let rt = parsed_u64(parse_of(p.durations@, rr.runtime@));
            let jm = parsed_i64(parse_of(p.memories@, rr.memory@));
            &&& (exists|i: int| 0 <= i < fits.len() && #[trigger] fits_all(rt, jm, rr.num_gpus, fits[i]))
                ==> req_warns(j, rr, fits, p) == unreadable_warns(j, rr, p)
            &&& !(exists|i: int| 0 <= i < fits.len() && #[trigger] fits_all(rt, jm, rr.num_gpus, fits[i]))
                ==> req_warns(j, rr, fits, p) == unreadable_warns(j, rr, p).push(
                no_fit_message(j.name@, reasons_upto(fits, rr, rt, jm, fits.len())),
            )
        }),
{
    let rt = parsed_u64(parse_of(p.durations@, rr.runtime@));
    let jm = parsed_i64(parse_of(p.memories@, rr.memory@));
    lemma_some_fit_exists(fits, rt, jm, rr.num_gpus, fits.len());
}

/// Whether the emitted document passes check `c` on its own side: it gives
/// the expected operation id, or has every property the check names.
pub open spec fn emitted_agrees(emitted: JsonValue, c: CheckSpec) -> bool {
    match c {
        CheckSpec::Operation(p, m, e) => emitted_operation_id(emitted, p, m) == Some(e),
        CheckSpec::ResponseSchema(p, m, props) => schema_issues(emitted, p, m, props).len() == 0,
        CheckSpec::Component(n, props) => component_issues(emitted, n, props).len() == 0,
    }
}

/// The source-side operation-id mismatches of a list of checks, in order.
pub open spec fn source_mismatches(source: Seq<char>, cs: Seq<CheckSpec>) -> Seq<Seq<char>>
    decreases cs.len(),
{
    if cs.len() == 0 {
        Seq::empty()
    } else {
        source_mismatches(source, cs.drop_last()) + match cs.last() {
            CheckSpec::Operation(p, m, e) => if spec_source_operation_id(source, p, m) != Some(e) {
                seq![mismatch_message("source"@, m, p, e, spec_source_operation_id(source, p, m))]
            } else {
                Seq::empty()
            },
            _ => Seq::empty(),
        }
    }
}

/// When the emitted document passes every check on its side, the report
/// holds exactly one issue for each operation check that the source fails,
/// in the order of the checks, and nothing else.
pub proof fn law_parity_report_is_source_mismatches(source: Seq<char>, emitted: JsonValue, cs: Seq<CheckSpec>)
    requires
        forall|i: int| 0 <= i < cs.len() ==> emitted_agrees(emitted, #[trigger] cs[i]),
    ensures
        all_issues(source, emitted, cs) == source_mismatches(source, cs),
    decreases cs.len(),
{
    if cs.len() > 0 {
        let init = cs.drop_last();
        assert forall|i: int| 0 <= i < init.len() implies emitted_agrees(emitted, #[trigger] init[i]) by {
            assert(init[i] == cs[i]);
        }
        law_parity_report_is_source_mismatches(source, emitted, init);
        assert(emitted_agrees(emitted, cs[cs.len() - 1]));
        match cs.last() {
            CheckSpec::Operation(p, m, e) => {
                assert(check_issues(source, emitted, cs.last()) =~= (if spec_source_operation_id(source, p, m) != Some(e) {
                    seq![mismatch_message("source"@, m, p, e, spec_source_operation_id(source, p, m))]
                } else {
                    Seq::<Seq<char>>::empty()
                }));
            },
            _ => {
                assert(check_issues(source, emitted, cs.last()) =~= Seq::<Seq<char>>::empty());
            },
        }
    }
}

// ---------------------------------------------------------------------------
// Rounding, node counts and ranges
// ---------------------------------------------------------------------------

/// Rounding `m / d` to an integer lands within half a unit of the exact
/// quotient, and an exact tie goes to the even neighbour: `.2f` on 0.126
/// gives 0.13, never the truncated 0.12.
pub proof fn law_rounding_is_to_nearest(m: int, d: nat)
    requires
        d >= 1,
    ensures
        2 * abs(round_half_even(m, d) * d - m) <= d,
        2 * abs(round_half_even(m, d) * d - m) == d ==> round_half_even(m, d) % 2 == 0,
{
    let a = abs(m) as int;
    let di = d as int;
    let q = a / di;
    let r = a % di;
    vstd::arithmetic::div_mod::lemma_fundamental_div_mod(a, di);
    assert(0 <= r < di);
    let up = 2 * r > di || (2 * r == di && q % 2 == 1);
    let qa: int = if up { q + 1 } else { q };
    assert(qa * di - a == if up { di - r } else { -r }) by (nonlinear_arith)
        requires
            a == di * q + r,
            qa == (if up { q + 1 } else { q }),
    ;
    assert(round_half_even(m, d) == if m < 0 { -qa } else { qa });
    if m < 0 {
        assert(round_half_even(m, d) * di - m == -(qa * di - a)) by (nonlinear_arith)
            requires
                round_half_even(m, d) == -qa,
                a == -m,
        ;
    } else {
        assert(a == m);
    }
    if 2 * abs(round_half_even(m, d) * d - m) == d {
        assert(2 * r == di);
        if up {
            assert(q % 2 == 1);
            assert((q + 1) % 2 == 0);
        } else {
            assert(q % 2 == 0);
        }
        if m < 0 {
            assert((-qa) % 2 == 0) by {
                assert(qa % 2 == 0);
                vstd::arithmetic::div_mod::lemma_fundamental_div_mod(qa, 2);
                vstd::arithmetic::div_mod::lemma_fundamental_div_mod(-qa, 2);
            }
        }
    }
}

/// `decimal_fixed` writes the value rounded as above: with `p` places of a
/// value held with more (`k`), the integer it writes is within half a unit
/// in the last place written.
pub proof fn law_fixed_places_round_to_nearest(m: int, k: nat, p: nat)
    requires
        p < k,
    ensures
        decimal_fixed(m, k, p) == fixed_text(round_half_even(m, pow10((k - p) as nat)), p),
        2 * abs(round_half_even(m, pow10((k - p) as nat)) * pow10((k - p) as nat) - m) <= pow10((k - p) as nat),
{
    lemma_pow10_mono(0, (k - p) as nat);
    law_rounding_is_to_nearest(m, pow10((k - p) as nat));
}

/// A job on a scheduler that asks for more than one node, and not the
/// scheduler's count (more or fewer), is listed as mismatched; and every
/// job listed is such a job.
pub proof fn law_mismatched_jobs_are_exactly_the_other_multi_node_jobs(
    js: Seq<JobSpec>,
    rrs: Seq<ResourceRequirementsSpec>,
    scheduler: Seq<char>,
    nodes: int,
)
    ensures
        forall|k: int|
            0 <= k < js.len() && runs_on(#[trigger] js[k], scheduler) && job_node_count(rrs, js[k]) > 1
                && job_node_count(rrs, js[k]) != nodes ==> mismatched_jobs(js, rrs, scheduler, nodes).contains(
                js[k].name@,
            ),
        forall|x: Seq<char>|
            #[trigger] mismatched_jobs(js, rrs, scheduler, nodes).contains(x) ==> exists|k: int|
                0 <= k < js.len() && js[k].name@ == x && runs_on(#[trigger] js[k], scheduler) && job_node_count(
                    rrs,
                    js[k],
                ) > 1 && job_node_count(rrs, js[k]) != nodes,
    decreases js.len(),
{
    if js.len() > 0 {
        let init = js.drop_last();
        law_mismatched_jobs_are_exactly_the_other_multi_node_jobs(init, rrs, scheduler, nodes);
        let rest = mismatched_jobs(init, rrs, scheduler, nodes);
        let all = mismatched_jobs(js, rrs, scheduler, nodes);
        let j = js.last();
        let hit = runs_on(j, scheduler) && job_node_count(rrs, j) > 1 && job_node_count(rrs, j) != nodes;
        assert(all == if hit { rest.push(j.name@) } else { rest });
        assert forall|k: int|
            0 <= k < js.len() && runs_on(#[trigger] js[k], scheduler) && job_node_count(rrs, js[k]) > 1
                && job_node_count(rrs, js[k]) != nodes implies all.contains(js[k].name@) by {
            if k < js.len() - 1 {
                assert(init[k] == js[k]);
                assert(rest.contains(js[k].name@));
                let w = choose|w: int| 0 <= w < rest.len() && rest[w] == js[k].name@;
                if hit {
                    assert(all[w] == rest[w]);
                } else {
                    assert(all[w] == rest[w]);
                }
            } else {
                assert(hit);
                assert(all[all.len() - 1] == j.name@);
            }
        }
        assert forall|x: Seq<char>| #[trigger] all.contains(x) implies exists|k: int|
            0 <= k < js.len() && js[k].name@ == x && runs_on(#[trigger] js[k], scheduler) && job_node_count(rrs, js[k])
                > 1 && job_node_count(rrs, js[k]) != nodes by {
            let w = choose|w: int| 0 <= w < all.len() && all[w] == x;
            if w < rest.len() {
                assert(rest[w] == x);
                assert(rest.contains(x));
                let k = choose|k: int|
                    0 <= k < init.len() && init[k].name@ == x && runs_on(#[trigger] init[k], scheduler)
                        && job_node_count(rrs, init[k]) > 1 && job_node_count(rrs, init[k]) != nodes;
                assert(js[k] == init[k]);
            } else {
                assert(hit && x == j.name@);
                assert(js[js.len() - 1] == j);
            }
        }
    }
}

proof fn lemma_node_errors_found(w: WorkflowSpec, acts: Seq<WorkflowActionSpec>, i: int)
    requires
        0 <= i < acts.len(),
        action_node_error(w, acts[i]) is Some,
    ensures
        node_errors(w, acts).len() > 0,
    decreases acts.len(),
{
    if i < acts.len() - 1 {
        lemma_node_errors_found(w, acts.drop_last(), i);
    }
}

proof fn lemma_scheduler_named(ss: Seq<SlurmSchedulerSpec>, name: Seq<char>)
    requires
        scheduler_nodes(ss, name) is Some,
    ensures
        has_named_scheduler(ss),
    decreases ss.len(),
{
    if ss.last().name matches Some(n) && n@ == name {
        assert(ss[ss.len() - 1].name is Some);
    } else {
        lemma_scheduler_named(ss.drop_last(), name);
        let k = choose|k: int| 0 <= k < ss.drop_last().len() && (#[trigger] ss.drop_last()[k]).name is Some;
        assert(ss[k] == ss.drop_last()[k]);
    }
}

/// The node check refuses a workflow that schedules nodes on a Slurm
/// scheduler with more than one node while a job on that scheduler asks for
/// another multi-node count, larger or smaller.
pub proof fn law_node_check_refuses_other_multi_node_counts(
    w: WorkflowSpec,
    acts: Vec<WorkflowActionSpec>,
    ai: int,
    ji: int,
    sn: Seq<char>,
    nodes: i64,
)
    requires
        scheduler_nodes(schedulers_of(w), sn) == Some(nodes),
        nodes > 1,
        w.actions == Some(acts),
        0 <= ai < acts@.len(),
        acts@[ai].action_type@ == "schedule_nodes"@,
        (acts@[ai].scheduler matches Some(x) && x@ == sn),
        (acts@[ai].scheduler_type matches Some(t) && t@ == "slurm"@),
        0 <= ji < w.jobs@.len(),
        runs_on(w.jobs@[ji], sn),
        job_node_count(rrs_of(w), w.jobs@[ji]) > 1,
        job_node_count(rrs_of(w), w.jobs@[ji]) != nodes,
    ensures
        node_verdict(w) is Err,
{
    law_mismatched_jobs_are_exactly_the_other_multi_node_jobs(w.jobs@, rrs_of(w), sn, nodes as int);
    let mm = mismatched_jobs(w.jobs@, rrs_of(w), sn, nodes as int);
    assert(mm.contains(w.jobs@[ji].name@));
    assert(mm.len() > 0);
    assert(action_node_error(w, acts@[ai]) is Some);
    lemma_node_errors_found(w, acts@, ai);
    lemma_scheduler_named(schedulers_of(w), sn);
}

/// A range with a positive step holds every `a + k*s` that does not pass
/// its end, at position `k`, and nothing past the end: it is complete.
pub proof fn law_range_holds_every_step_up_to_its_end(a: int, b: int, s: int, k: int)
    requires
        s > 0,
        0 <= k,
    ensures
        a + k * s <= b <==> k < range_seq(a, b, s).len(),
        a + k * s <= b ==> range_seq(a, b, s)[k] == a + k * s,
{
    if a <= b {
        let q = (b - a) / s;
        let r = (b - a) % s;
        vstd::arithmetic::div_mod::lemma_fundamental_div_mod(b - a, s);
        assert(0 <= r < s);
        assert(range_count(a, b, s) == q + 1);
        assert(a + k * s <= b <==> k <= q) by (nonlinear_arith)
            requires
                b - a == s * q + r,
                0 <= r < s,
                s > 0,
                k >= 0,
        ;
    } else {
        assert(k * s >= 0) by (nonlinear_arith)
            requires
                s > 0,
                k >= 0,
        ;
    }
}

/// The same with a negative step: every `a + k*s` that does not pass below
/// the end is there, at position `k`.
pub proof fn law_descending_range_holds_every_step_down_to_its_end(a: int, b: int, s: int, k: int)
    requires
        s < 0,
        0 <= k,
    ensures
        a + k * s >= b <==> k < range_seq(a, b, s).len(),
        a + k * s >= b ==> range_seq(a, b, s)[k] == a + k * s,
{
    let t = -s;
    assert(k * s == -(k * t)) by (nonlinear_arith)
        requires
            t == -s,
    ;
    if a >= b {
        let q = (a - b) / t;
        let r = (a - b) % t;
        vstd::arithmetic::div_mod::lemma_fundamental_div_mod(a - b, t);
        assert(0 <= r < t);
        assert(range_count(a, b, s) == q + 1);
        assert(k * t <= a - b <==> k <= q) by (nonlinear_arith)
            requires
                a - b == t * q + r,
                0 <= r < t,
                t > 0,
                k >= 0,
        ;
    } else {
        assert(k * t >= 0) by (nonlinear_arith)
            requires
                t > 0,
                k >= 0,
        ;
    }
}

} // verus!
