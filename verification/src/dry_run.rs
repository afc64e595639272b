//! Validation of a parsed workflow specification without creating anything:
//! every check that creation would make, collected into one report.

use vstd::prelude::*;

use crate::checks::{file_names, identifiers_verdict, job_names, node_verdict, unique_names_verdict, user_data_names};
use crate::combinations::opt_view;
use crate::references::substituted_as;
use crate::resources::{scheduler_resource_warnings, ResourceParses};
use crate::validation::{actions_verdict, dynamic_jobs_verdict, env_maps_verdict, has_submittable_schedule};
use crate::patterns::{compile_regex, regex_compile_error, regex_is_match, regex_matches};
use crate::text::{chars_eq, chars_of, concat2, concat3, concat5, copy_string, extend_str, i64_to_string, int_text, join, join_strings, string_of};
use crate::workflow::{expanded_as, tables_well_formed, ParameterTables, WorkflowSpec};
use crate::workflow_spec::{strs_view, unit_view, JobSpec, ResourceRequirementsSpec, SlurmSchedulerSpec, ValidationResult, ValidationSummary, WorkflowActionSpec};

verus! {

// ---------------------------------------------------------------------------
// Lists of names
// ---------------------------------------------------------------------------

/// Each name that occurs earlier in the list, at each later occurrence.
pub open spec fn repeated(names: Seq<Seq<char>>) -> Seq<Seq<char>>
    decreases names.len(),
{
    if names.len() == 0 {
        Seq::empty()
    } else if names.drop_last().contains(names.last()) {
        repeated(names.drop_last()).push(names.last())
    } else {
        repeated(names.drop_last())
    }
}

/// The names, each once, in the order of their first occurrence.
pub open spec fn distinct(names: Seq<Seq<char>>) -> Seq<Seq<char>>
    decreases names.len(),
{
    if names.len() == 0 {
        Seq::empty()
    } else if names.drop_last().contains(names.last()) {
        distinct(names.drop_last())
    } else {
        distinct(names.drop_last()).push(names.last())
    }
}

/// The names of `list` missing from `known`, in order.
pub open spec fn absent_from(list: Seq<Seq<char>>, known: Seq<Seq<char>>) -> Seq<Seq<char>>
    decreases list.len(),
{
    if list.len() == 0 {
        Seq::empty()
    } else if known.contains(list.last()) {
        absent_from(list.drop_last(), known)
    } else {
        absent_from(list.drop_last(), known).push(list.last())
    }
}

/// The names of `list` found in `known`, in order.
pub open spec fn present_in(list: Seq<Seq<char>>, known: Seq<Seq<char>>) -> Seq<Seq<char>>
    decreases list.len(),
{
    if list.len() == 0 {
        Seq::empty()
    } else if known.contains(list.last()) {
        present_in(list.drop_last(), known).push(list.last())
    } else {
        present_in(list.drop_last(), known)
    }
}

/// The patterns of `list` that do not compile, each with the error's text.
pub open spec fn invalid_patterns(list: Seq<Seq<char>>) -> Seq<(Seq<char>, Seq<char>)>
    decreases list.len(),
{
    if list.len() == 0 {
        Seq::empty()
    } else {
        match regex_compile_error(list.last()) {
            Some(e) => invalid_patterns(list.drop_last()).push((list.last(), e)),
            None => invalid_patterns(list.drop_last()),
        }
    }
}

pub open spec fn or_none(o: Option<Vec<String>>) -> Seq<Seq<char>> {
    match o {
        Some(v) => strs_view(v@),
        None => Seq::empty(),
    }
}

/// `a + x + b` for each `x`.
pub open spec fn wrapped(items: Seq<Seq<char>>, a: Seq<char>, b: Seq<char>) -> Seq<Seq<char>> {
    items.map_values(|x: Seq<char>| a + x + b)
}

/// `a + pattern + "': " + error` for each invalid pattern.
pub open spec fn pattern_messages(items: Seq<(Seq<char>, Seq<char>)>, a: Seq<char>) -> Seq<Seq<char>> {
    items.map_values(|x: (Seq<char>, Seq<char>)| a + x.0 + "': "@ + x.1)
}

fn contains_str(names: &Vec<String>, name: &String) -> (b: bool)
    ensures
        b == strs_view(names@).contains(name@),
{
    crate::variables::contains_name(names, &chars_of(name.as_str()))
}

fn push_str(out: &mut Vec<String>, s: String)
    ensures
        strs_view(final(out)@) == strs_view(old(out)@).push(s@),
{
    let ghost prev = out@;
    out.push(s);
    proof {
        assert(out@ == prev.push(s));
        assert(strs_view(out@) =~= strs_view(prev).push(s@));
    }
}

fn repeated_exec(names: &Vec<String>) -> (r: Vec<String>)
    ensures
        strs_view(r@) == repeated(strs_view(names@)),
{
    let ghost nv = strs_view(names@);
    let mut seen: Vec<String> = Vec::new();
    let mut r: Vec<String> = Vec::new();
    let mut i: usize = 0;
    proof {
        assert(nv.take(0) =~= Seq::<Seq<char>>::empty());
    }
    while i < names.len()
        invariant
            i <= names.len(),
            nv == strs_view(names@),
            strs_view(seen@) == nv.take(i as int),
            strs_view(r@) == repeated(nv.take(i as int)),
        decreases names.len() - i,
    {
        proof {
            assert(nv.take(i + 1).drop_last() =~= nv.take(i as int));
            assert(nv.take(i + 1).last() == names@[i as int]@);
        }
        if contains_str(&seen, &names[i]) {
            push_str(&mut r, copy_string(&names[i]));
        }
        push_str(&mut seen, copy_string(&names[i]));
        proof {
            assert(strs_view(seen@) =~= nv.take(i + 1));
        }
        i = i + 1;
    }
    proof {
        assert(nv.take(names.len() as int) =~= nv);
    }
    r
}

fn distinct_exec(names: &Vec<String>) -> (r: Vec<String>)
    ensures
        strs_view(r@) == distinct(strs_view(names@)),
{
    let ghost nv = strs_view(names@);
    let mut seen: Vec<String> = Vec::new();
    let mut r: Vec<String> = Vec::new();
    let mut i: usize = 0;
    proof {
        assert(nv.take(0) =~= Seq::<Seq<char>>::empty());
    }
    while i < names.len()
        invariant
            i <= names.len(),
            nv == strs_view(names@),
            strs_view(seen@) == nv.take(i as int),
            strs_view(r@) == distinct(nv.take(i as int)),
        decreases names.len() - i,
    {
        proof {
            assert(nv.take(i + 1).drop_last() =~= nv.take(i as int));
            assert(nv.take(i + 1).last() == names@[i as int]@);
        }
        if !contains_str(&seen, &names[i]) {
            push_str(&mut r, copy_string(&names[i]));
        }
        push_str(&mut seen, copy_string(&names[i]));
        proof {
            assert(strs_view(seen@) =~= nv.take(i + 1));
        }
        i = i + 1;
    }
    proof {
        assert(nv.take(names.len() as int) =~= nv);
    }
    r
}

/// The names of `list` missing from `known` (`absent`), else those found.
fn filter_known(list: &Option<Vec<String>>, known: &Vec<String>, absent: bool) -> (r: Vec<String>)
    ensures
        absent ==> strs_view(r@) == absent_from(or_none(*list), strs_view(known@)),
        !absent ==> strs_view(r@) == present_in(or_none(*list), strs_view(known@)),
{
    let mut r: Vec<String> = Vec::new();
    match list {
        Some(v) => {
            let ghost lv = strs_view(v@);
            let mut i: usize = 0;
            proof {
                assert(lv.take(0) =~= Seq::<Seq<char>>::empty());
            }
            while i < v.len()
                invariant
                    i <= v.len(),
                    lv == strs_view(v@),
                    absent ==> strs_view(r@) == absent_from(lv.take(i as int), strs_view(known@)),
                    !absent ==> strs_view(r@) == present_in(lv.take(i as int), strs_view(known@)),
                decreases v.len() - i,
            {
                proof {
                    assert(lv.take(i + 1).drop_last() =~= lv.take(i as int));
                    assert(lv.take(i + 1).last() == v@[i as int]@);
                }
                let found = contains_str(known, &v[i]);
                if found != absent {
                    push_str(&mut r, copy_string(&v[i]));
                }
                i = i + 1;
            }
            proof {
                assert(lv.take(v.len() as int) =~= lv);
            }
        },
        None => {
            proof {
                assert(strs_view(r@) =~= Seq::<Seq<char>>::empty());
            }
        },
    }
    r
}

/// Appends `a + x + b` for each `x` of `items`.
fn push_wrapped(out: &mut Vec<String>, items: &Vec<String>, a: &str, b: &str)
    ensures
        strs_view(final(out)@) == strs_view(old(out)@) + wrapped(strs_view(items@), a@, b@),
{
    let ghost start = strs_view(out@);
    let mut i: usize = 0;
    while i < items.len()
        invariant
            i <= items.len(),
            strs_view(out@) == start + wrapped(strs_view(items@), a@, b@).take(i as int),
        decreases items.len() - i,
    {
        push_str(out, concat3(a, items[i].as_str(), b));
        proof {
            assert(strs_view(out@) =~= start + wrapped(strs_view(items@), a@, b@).take(i + 1));
        }
        i = i + 1;
    }
    proof {
        assert(wrapped(strs_view(items@), a@, b@).take(items.len() as int) =~= wrapped(strs_view(items@), a@, b@));
    }
}

/// Appends `a + pattern + "': " + error` for each pattern of `list` that
/// does not compile.
fn push_invalid_patterns(out: &mut Vec<String>, list: &Option<Vec<String>>, a: &str)
    ensures
        strs_view(final(out)@) == strs_view(old(out)@) + pattern_messages(invalid_patterns(or_none(*list)), a@),
{
    let ghost start = strs_view(out@);
    match list {
        Some(v) => {
            let ghost lv = strs_view(v@);
            let mut i: usize = 0;
            proof {
                assert(lv.take(0) =~= Seq::<Seq<char>>::empty());
                assert(strs_view(out@) =~= start + pattern_messages(invalid_patterns(lv.take(0)), a@));
            }
            while i < v.len()
                invariant
                    i <= v.len(),
                    lv == strs_view(v@),
                    strs_view(out@) == start + pattern_messages(invalid_patterns(lv.take(i as int)), a@),
                decreases v.len() - i,
            {
                proof {
                    assert(lv.take(i + 1).drop_last() =~= lv.take(i as int));
                    assert(lv.take(i + 1).last() == v@[i as int]@);
                }
                let ghost before = invalid_patterns(lv.take(i as int));
                match compile_regex(v[i].as_str()) {
                    Ok(_) => {},
                    Err(e) => {
                        let head = concat3(a, v[i].as_str(), "': ");
                        push_str(out, concat2(head.as_str(), e.as_str()));
                        proof {
                            assert(invalid_patterns(lv.take(i + 1)) == before.push((v@[i as int]@, e@)));
                            assert(pattern_messages(before.push((v@[i as int]@, e@)), a@) =~= pattern_messages(
                                before,
                                a@,
                            ).push(a@ + v@[i as int]@ + "': "@ + e@));
                        }
                    },
                }
                i = i + 1;
            }
            proof {
                assert(lv.take(v.len() as int) =~= lv);
            }
        },
        None => {
            proof {
                assert(strs_view(out@) =~= start + pattern_messages(invalid_patterns(Seq::empty()), a@));
            }
        },
    }
}

// ---------------------------------------------------------------------------
// The names a workflow declares
// ---------------------------------------------------------------------------

pub open spec fn files_named(w: WorkflowSpec) -> Seq<Seq<char>> {
    match w.files {
        Some(fs) => file_names(fs@),
        None => Seq::empty(),
    }
}

pub open spec fn user_data_named(w: WorkflowSpec) -> Seq<Seq<char>> {
    match w.user_data {
        Some(u) => user_data_names(u@),
        None => Seq::empty(),
    }
}

pub open spec fn requirements_named(w: WorkflowSpec) -> Seq<Seq<char>> {
    match w.resource_requirements {
        Some(v) => v@.map_values(|r: ResourceRequirementsSpec| r.name@),
        None => Seq::empty(),
    }
}

/// The names of the schedulers that have one.
pub open spec fn scheduler_names_of(ss: Seq<SlurmSchedulerSpec>) -> Seq<Seq<char>>
    decreases ss.len(),
{
    if ss.len() == 0 {
        Seq::empty()
    } else {
        match ss.last().name {
            Some(n) => scheduler_names_of(ss.drop_last()).push(n@),
            None => scheduler_names_of(ss.drop_last()),
        }
    }
}

pub open spec fn schedulers_named(w: WorkflowSpec) -> Seq<Seq<char>> {
    match w.slurm_schedulers {
        Some(v) => scheduler_names_of(v@),
        None => Seq::empty(),
    }
}

/// One message per name used again.
pub open spec fn duplicate_errors(w: WorkflowSpec) -> Seq<Seq<char>> {
    wrapped(repeated(job_names(w.jobs@)), "Duplicate job name: '"@, "'"@) + wrapped(
        repeated(files_named(w)),
        "Duplicate file name: '"@,
        "'"@,
    ) + wrapped(repeated(user_data_named(w)), "Duplicate user_data name: '"@, "'"@) + wrapped(
        repeated(requirements_named(w)),
        "Duplicate resource_requirements name: '"@,
        "'"@,
    ) + wrapped(repeated(schedulers_named(w)), "Duplicate slurm_scheduler name: '"@, "'"@)
}

/// The names of a workflow's records, as lists to look names up in.
pub struct Names {
    pub jobs: Vec<String>,
    pub files: Vec<String>,
    pub user_data: Vec<String>,
    pub requirements: Vec<String>,
    pub schedulers: Vec<String>,
}

pub open spec fn names_of(w: WorkflowSpec, n: Names) -> bool {
    &&& strs_view(n.jobs@) == job_names(w.jobs@)
    &&& strs_view(n.files@) == files_named(w)
    &&& strs_view(n.user_data@) == user_data_named(w)
    &&& strs_view(n.requirements@) == requirements_named(w)
    &&& strs_view(n.schedulers@) == schedulers_named(w)
}

fn collect_names(w: &WorkflowSpec) -> (n: Names)
    ensures
        names_of(*w, n),
{
    let mut jobs: Vec<String> = Vec::new();
    let mut i: usize = 0;
    while i < w.jobs.len()
        invariant
            i <= w.jobs.len(),
            strs_view(jobs@) == job_names(w.jobs@).take(i as int),
        decreases w.jobs.len() - i,
    {
        push_str(&mut jobs, copy_string(&w.jobs[i].name));
        proof {
            assert(strs_view(jobs@) =~= job_names(w.jobs@).take(i + 1));
        }
        i = i + 1;
    }
    proof {
        assert(job_names(w.jobs@).take(w.jobs.len() as int) =~= job_names(w.jobs@));
    }
    let mut files: Vec<String> = Vec::new();
    match &w.files {
        Some(fs) => {
            let mut k: usize = 0;
            while k < fs.len()
                invariant
                    k <= fs.len(),
                    strs_view(files@) == file_names(fs@).take(k as int),
                decreases fs.len() - k,
            {
                push_str(&mut files, copy_string(&fs[k].name));
                proof {
                    assert(strs_view(files@) =~= file_names(fs@).take(k + 1));
                }
                k = k + 1;
            }
            proof {
                assert(file_names(fs@).take(fs.len() as int) =~= file_names(fs@));
            }
        },
        None => {
            proof {
                assert(strs_view(files@) =~= Seq::<Seq<char>>::empty());
            }
        },
    }
    let mut user_data: Vec<String> = Vec::new();
    match &w.user_data {
        Some(us) => {
            let mut k: usize = 0;
            proof {
                assert(strs_view(user_data@) =~= user_data_names(us@.take(0)));
            }
            while k < us.len()
                invariant
                    k <= us.len(),
                    strs_view(user_data@) == user_data_names(us@.take(k as int)),
                decreases us.len() - k,
            {
                proof {
                    assert(us@.take(k + 1).drop_last() =~= us@.take(k as int));
                }
                match &us[k].name {
                    Some(n) => push_str(&mut user_data, copy_string(n)),
                    None => {},
                }
                k = k + 1;
            }
            proof {
                assert(us@.take(us.len() as int) =~= us@);
            }
        },
        None => {
            proof {
                assert(strs_view(user_data@) =~= Seq::<Seq<char>>::empty());
            }
        },
    }
    let mut requirements: Vec<String> = Vec::new();
    match &w.resource_requirements {
        Some(rs) => {
            let mut k: usize = 0;
            while k < rs.len()
                invariant
                    k <= rs.len(),
                    strs_view(requirements@) == rs@.map_values(|r: ResourceRequirementsSpec| r.name@).take(k as int),
                decreases rs.len() - k,
            {
                push_str(&mut requirements, copy_string(&rs[k].name));
                proof {
                    assert(strs_view(requirements@) =~= rs@.map_values(|r: ResourceRequirementsSpec| r.name@).take(
                        k + 1,
                    ));
                }
                k = k + 1;
            }
            proof {
                assert(rs@.map_values(|r: ResourceRequirementsSpec| r.name@).take(rs.len() as int)
                    =~= rs@.map_values(|r: ResourceRequirementsSpec| r.name@));
            }
        },
        None => {
            proof {
                assert(strs_view(requirements@) =~= Seq::<Seq<char>>::empty());
            }
        },
    }
    let mut schedulers: Vec<String> = Vec::new();
    match &w.slurm_schedulers {
        Some(ss) => {
            let mut k: usize = 0;
            proof {
                assert(strs_view(schedulers@) =~= scheduler_names_of(ss@.take(0)));
            }
            while k < ss.len()
                invariant
                    k <= ss.len(),
                    strs_view(schedulers@) == scheduler_names_of(ss@.take(k as int)),
                decreases ss.len() - k,
            {
                proof {
                    assert(ss@.take(k + 1).drop_last() =~= ss@.take(k as int));
                }
                match &ss[k].name {
                    Some(n) => push_str(&mut schedulers, copy_string(n)),
                    None => {},
                }
                k = k + 1;
            }
            proof {
                assert(ss@.take(ss.len() as int) =~= ss@);
            }
        },
        None => {
            proof {
                assert(strs_view(schedulers@) =~= Seq::<Seq<char>>::empty());
            }
        },
    }
    Names { jobs, files, user_data, requirements, schedulers }
}

fn push_duplicate_errors(out: &mut Vec<String>, n: &Names)
    ensures
        strs_view(final(out)@) == strs_view(old(out)@) + wrapped(repeated(strs_view(n.jobs@)), "Duplicate job name: '"@, "'"@)
            + wrapped(repeated(strs_view(n.files@)), "Duplicate file name: '"@, "'"@) + wrapped(
            repeated(strs_view(n.user_data@)),
            "Duplicate user_data name: '"@,
            "'"@,
        ) + wrapped(repeated(strs_view(n.requirements@)), "Duplicate resource_requirements name: '"@, "'"@)
            + wrapped(repeated(strs_view(n.schedulers@)), "Duplicate slurm_scheduler name: '"@, "'"@),
{
    let ghost start = strs_view(out@);
    push_wrapped(out, &repeated_exec(&n.jobs), "Duplicate job name: '", "'");
    push_wrapped(out, &repeated_exec(&n.files), "Duplicate file name: '", "'");
    push_wrapped(out, &repeated_exec(&n.user_data), "Duplicate user_data name: '", "'");
    push_wrapped(out, &repeated_exec(&n.requirements), "Duplicate resource_requirements name: '", "'");
    push_wrapped(out, &repeated_exec(&n.schedulers), "Duplicate slurm_scheduler name: '", "'");
    proof {
        assert(strs_view(out@) =~= start + wrapped(repeated(strs_view(n.jobs@)), "Duplicate job name: '"@, "'"@)
            + wrapped(repeated(strs_view(n.files@)), "Duplicate file name: '"@, "'"@) + wrapped(
            repeated(strs_view(n.user_data@)),
            "Duplicate user_data name: '"@,
            "'"@,
        ) + wrapped(repeated(strs_view(n.requirements@)), "Duplicate resource_requirements name: '"@, "'"@)
            + wrapped(repeated(strs_view(n.schedulers@)), "Duplicate slurm_scheduler name: '"@, "'"@));
    }
}

// ---------------------------------------------------------------------------
// What each job references
// ---------------------------------------------------------------------------

/// The names of a workflow's records.
pub struct NamesView {
    pub jobs: Seq<Seq<char>>,
    pub files: Seq<Seq<char>>,
    pub user_data: Seq<Seq<char>>,
    pub requirements: Seq<Seq<char>>,
    pub schedulers: Seq<Seq<char>>,
}

pub open spec fn names_view(w: WorkflowSpec) -> NamesView {
    NamesView {
        jobs: job_names(w.jobs@),
        files: files_named(w),
        user_data: user_data_named(w),
        requirements: requirements_named(w),
        schedulers: schedulers_named(w),
    }
}

/// The names that `pattern` matches and `deps` lacks, in order.
pub open spec fn fresh_matches(names: Seq<Seq<char>>, pattern: Seq<char>, deps: Seq<Seq<char>>) -> Seq<Seq<char>>
    decreases names.len(),
{
    if names.len() == 0 {
        Seq::empty()
    } else if regex_matches(pattern, names.last()) && !deps.contains(names.last()) {
        fresh_matches(names.drop_last(), pattern, deps).push(names.last())
    } else {
        fresh_matches(names.drop_last(), pattern, deps)
    }
}

pub open spec fn invalid_dependency_pattern_message(job: Seq<char>, p: Seq<char>, e: Seq<char>) -> Seq<char> {
    "Job '"@ + job + "' has invalid depends_on_regexes '"@ + p + "': "@ + e
}

pub open spec fn unmatched_dependency_pattern_message(job: Seq<char>, p: Seq<char>) -> Seq<char> {
    "Job '"@ + job + "' depends_on_regexes '"@ + p + "' did not match any jobs"@
}

/// The errors of a job's `depends_on_regexes`, and its dependencies after
/// them: each pattern adds the jobs (of `names`, each once) it matches and
/// the dependencies lack; one that adds none is an error.
pub open spec fn dependency_patterns(
    job: Seq<char>,
    patterns: Seq<Seq<char>>,
    names: Seq<Seq<char>>,
    deps: Seq<Seq<char>>,
) -> (Seq<Seq<char>>, Seq<Seq<char>>)
    decreases patterns.len(),
{
    if patterns.len() == 0 {
        (Seq::empty(), deps)
    } else {
        let prior = dependency_patterns(job, patterns.drop_last(), names, deps);
        let p = patterns.last();
        match regex_compile_error(p) {
            Some(e) => (prior.0.push(invalid_dependency_pattern_message(job, p, e)), prior.1),
            None => {
                let f = fresh_matches(names, p, prior.1);
                if f.len() == 0 {
                    (prior.0.push(unmatched_dependency_pattern_message(job, p)), prior.1)
                } else {
                    (prior.0, prior.1 + f)
                }
            },
        }
    }
}

/// The dependencies of a job: the jobs it names that exist, then those its
/// patterns add.
pub open spec fn job_dependencies(j: JobSpec, nv: NamesView) -> Seq<Seq<char>> {
    dependency_patterns(
        j.name@,
        or_none(j.depends_on_regexes),
        distinct(nv.jobs),
        present_in(or_none(j.depends_on), nv.jobs),
    ).1
}

pub open spec fn missing_reference(o: Option<String>, known: Seq<Seq<char>>, a: Seq<char>) -> Seq<Seq<char>> {
    match o {
        Some(r) => if known.contains(r@) {
            Seq::empty()
        } else {
            seq![a + r@ + "'"@]
        },
        None => Seq::empty(),
    }
}

/// The errors of the references of one job, in the order they are checked.
pub open spec fn job_reference_errors(j: JobSpec, nv: NamesView) -> Seq<Seq<char>> {
    let jp = "Job '"@ + j.name@;
    wrapped(absent_from(or_none(j.depends_on), nv.jobs), jp + "' depends_on non-existent job '"@, "'"@)
        + dependency_patterns(
        j.name@,
        or_none(j.depends_on_regexes),
        distinct(nv.jobs),
        present_in(or_none(j.depends_on), nv.jobs),
    ).0 + missing_reference(
        j.resource_requirements,
        nv.requirements,
        jp + "' references non-existent resource_requirements '"@,
    ) + missing_reference(j.scheduler, nv.schedulers, jp + "' references non-existent scheduler '"@)
        + wrapped(
        absent_from(or_none(j.input_files), nv.files),
        jp + "' input_files references non-existent file '"@,
        "'"@,
    ) + pattern_messages(invalid_patterns(or_none(j.input_file_regexes)), jp + "' has invalid input_file_regexes '"@)
        + wrapped(
        absent_from(or_none(j.output_files), nv.files),
        jp + "' output_files references non-existent file '"@,
        "'"@,
    ) + pattern_messages(invalid_patterns(or_none(j.output_file_regexes)), jp + "' has invalid output_file_regexes '"@)
        + wrapped(
        absent_from(or_none(j.input_user_data), nv.user_data),
        jp + "' input_user_data references non-existent user_data '"@,
        "'"@,
    ) + pattern_messages(
        invalid_patterns(or_none(j.input_user_data_regexes)),
        jp + "' has invalid input_user_data_regexes '"@,
    ) + wrapped(
        absent_from(or_none(j.output_user_data), nv.user_data),
        jp + "' output_user_data references non-existent user_data '"@,
        "'"@,
    ) + pattern_messages(
        invalid_patterns(or_none(j.output_user_data_regexes)),
        jp + "' has invalid output_user_data_regexes '"@,
    )
}

/// The reference errors of the jobs, job after job.
pub open spec fn reference_errors(js: Seq<JobSpec>, nv: NamesView) -> Seq<Seq<char>>
    decreases js.len(),
{
    if js.len() == 0 {
        Seq::empty()
    } else {
        reference_errors(js.drop_last(), nv) + job_reference_errors(js.last(), nv)
    }
}

pub open spec fn names_view_of(n: Names) -> NamesView {
    NamesView {
        jobs: strs_view(n.jobs@),
        files: strs_view(n.files@),
        user_data: strs_view(n.user_data@),
        requirements: strs_view(n.requirements@),
        schedulers: strs_view(n.schedulers@),
    }
}

fn fresh_matches_exec(names: &Vec<String>, re: &crate::patterns::CompiledRegex, deps: &Vec<String>) -> (r: Vec<String>)
    ensures
        strs_view(r@) == fresh_matches(strs_view(names@), re.pattern(), strs_view(deps@)),
{
    let ghost nv = strs_view(names@);
    let mut r: Vec<String> = Vec::new();
    let mut i: usize = 0;
    proof {
        assert(nv.take(0) =~= Seq::<Seq<char>>::empty());
    }
    while i < names.len()
        invariant
            i <= names.len(),
            nv == strs_view(names@),
            strs_view(r@) == fresh_matches(nv.take(i as int), re.pattern(), strs_view(deps@)),
        decreases names.len() - i,
    {
        proof {
            assert(nv.take(i + 1).drop_last() =~= nv.take(i as int));
            assert(nv.take(i + 1).last() == names@[i as int]@);
        }
        if regex_is_match(re, names[i].as_str()) && !contains_str(deps, &names[i]) {
            push_str(&mut r, copy_string(&names[i]));
        }
        i = i + 1;
    }
    proof {
        assert(nv.take(names.len() as int) =~= nv);
    }
    r
}

/// Checks a job's `depends_on_regexes`, adding what they match to `deps`.
fn dependency_patterns_exec(job: &String, patterns: &Option<Vec<String>>, unique: &Vec<String>, deps: &mut Vec<String>, out: &mut Vec<String>)
    ensures
        strs_view(final(out)@) == strs_view(old(out)@) + dependency_patterns(
            job@,
            or_none(*patterns),
            strs_view(unique@),
            strs_view(old(deps)@),
        ).0,
        strs_view(final(deps)@) == dependency_patterns(job@, or_none(*patterns), strs_view(unique@), strs_view(old(deps)@)).1,
{
    let ghost start = strs_view(out@);
    let ghost d0 = strs_view(deps@);
    match patterns {
        Some(v) => {
            let ghost lv = strs_view(v@);
            let mut i: usize = 0;
            proof {
                assert(lv.take(0) =~= Seq::<Seq<char>>::empty());
                assert(strs_view(out@) =~= start + Seq::<Seq<char>>::empty());
            }
            while i < v.len()
                invariant
                    i <= v.len(),
                    lv == strs_view(v@),
                    strs_view(out@) == start + dependency_patterns(job@, lv.take(i as int), strs_view(unique@), d0).0,
                    strs_view(deps@) == dependency_patterns(job@, lv.take(i as int), strs_view(unique@), d0).1,
                decreases v.len() - i,
            {
                proof {
                    assert(lv.take(i + 1).drop_last() =~= lv.take(i as int));
                    assert(lv.take(i + 1).last() == v@[i as int]@);
                }
                let ghost prior = dependency_patterns(job@, lv.take(i as int), strs_view(unique@), d0);
                match compile_regex(v[i].as_str()) {
                    Err(e) => {
                        let head = concat5("Job '", job.as_str(), "' has invalid depends_on_regexes '", v[i].as_str(), "': ");
                        push_str(out, concat2(head.as_str(), e.as_str()));
                        proof {
                            assert(strs_view(out@) =~= start + dependency_patterns(job@, lv.take(i + 1), strs_view(unique@), d0).0);
                        }
                    },
                    Ok(re) => {
                        let fresh = fresh_matches_exec(unique, &re, deps);
                        if fresh.len() == 0 {
                            proof {
                                assert(strs_view(fresh@).len() == 0);
                            }
                            push_str(out, concat5("Job '", job.as_str(), "' depends_on_regexes '", v[i].as_str(), "' did not match any jobs"));
                            proof {
                                assert(strs_view(out@) =~= start + dependency_patterns(job@, lv.take(i + 1), strs_view(unique@), d0).0);
                            }
                        } else {
                            proof {
                                assert(strs_view(fresh@).len() == fresh@.len());
                            }
                            let mut k: usize = 0;
                            let ghost dstart = strs_view(deps@);
                            while k < fresh.len()
                                invariant
                                    k <= fresh.len(),
                                    strs_view(deps@) == dstart + strs_view(fresh@).take(k as int),
                                decreases fresh.len() - k,
                            {
                                push_str(deps, copy_string(&fresh[k]));
                                proof {
                                    assert(strs_view(deps@) =~= dstart + strs_view(fresh@).take(k + 1));
                                }
                                k = k + 1;
                            }
                            proof {
                                assert(strs_view(fresh@).take(fresh.len() as int) =~= strs_view(fresh@));
                            }
                        }
                    },
                }
                i = i + 1;
            }
            proof {
                assert(lv.take(v.len() as int) =~= lv);
            }
        },
        None => {
            proof {
                assert(strs_view(out@) =~= start + Seq::<Seq<char>>::empty());
            }
        },
    }
}

fn push_missing_reference(out: &mut Vec<String>, o: &Option<String>, known: &Vec<String>, a: &str)
    ensures
        strs_view(final(out)@) == strs_view(old(out)@) + missing_reference(*o, strs_view(known@), a@),
{
    match o {
        Some(r) => {
            if !contains_str(known, r) {
                push_str(out, concat3(a, r.as_str(), "'"));
                proof {
                    assert(strs_view(out@) =~= strs_view(old(out)@) + missing_reference(*o, strs_view(known@), a@));
                }
            } else {
                proof {
                    assert(strs_view(out@) =~= strs_view(out@) + Seq::<Seq<char>>::empty());
                }
            }
        },
        None => {
            proof {
                assert(strs_view(out@) =~= strs_view(out@) + Seq::<Seq<char>>::empty());
            }
        },
    }
}

/// Checks the references of one job; gives its dependencies.
#[verifier::rlimit(50)]
#[verifier::spinoff_prover]
fn job_references_exec(j: &JobSpec, n: &Names, unique: &Vec<String>, out: &mut Vec<String>) -> (deps: Vec<String>)
    requires
        strs_view(unique@) == distinct(strs_view(n.jobs@)),
    ensures
        strs_view(final(out)@) == strs_view(old(out)@) + job_reference_errors(*j, names_view_of(*n)),
        strs_view(deps@) == job_dependencies(*j, names_view_of(*n)),
{
    let ghost start = strs_view(out@);
    let ghost nv = names_view_of(*n);
    let name = j.name.as_str();
    let missing_deps = filter_known(&j.depends_on, &n.jobs, true);
    push_wrapped(out, &missing_deps, concat3("Job '", name, "' depends_on non-existent job '").as_str(), "'");
    let mut deps = filter_known(&j.depends_on, &n.jobs, false);
    dependency_patterns_exec(&j.name, &j.depends_on_regexes, unique, &mut deps, out);
    push_missing_reference(out, &j.resource_requirements, &n.requirements, concat3("Job '", name, "' references non-existent resource_requirements '").as_str());
    push_missing_reference(out, &j.scheduler, &n.schedulers, concat3("Job '", name, "' references non-existent scheduler '").as_str());
    push_wrapped(out, &filter_known(&j.input_files, &n.files, true), concat3("Job '", name, "' input_files references non-existent file '").as_str(), "'");
    push_invalid_patterns(out, &j.input_file_regexes, concat3("Job '", name, "' has invalid input_file_regexes '").as_str());
    push_wrapped(out, &filter_known(&j.output_files, &n.files, true), concat3("Job '", name, "' output_files references non-existent file '").as_str(), "'");
    push_invalid_patterns(out, &j.output_file_regexes, concat3("Job '", name, "' has invalid output_file_regexes '").as_str());
    push_wrapped(out, &filter_known(&j.input_user_data, &n.user_data, true), concat3("Job '", name, "' input_user_data references non-existent user_data '").as_str(), "'");
    push_invalid_patterns(out, &j.input_user_data_regexes, concat3("Job '", name, "' has invalid input_user_data_regexes '").as_str());
    push_wrapped(out, &filter_known(&j.output_user_data, &n.user_data, true), concat3("Job '", name, "' output_user_data references non-existent user_data '").as_str(), "'");
    push_invalid_patterns(out, &j.output_user_data_regexes, concat3("Job '", name, "' has invalid output_user_data_regexes '").as_str());
    proof {
        assert(strs_view(out@) =~= start + job_reference_errors(*j, nv));
    }
    deps
}

// ---------------------------------------------------------------------------
// Dependency cycles
// ---------------------------------------------------------------------------

/// The dependencies recorded for a job name: those of the last job of that
/// name.
pub open spec fn dependencies_of(js: Seq<JobSpec>, nv: NamesView, name: Seq<char>) -> Seq<Seq<char>>
    decreases js.len(),
{
    if js.len() == 0 {
        Seq::empty()
    } else if js.last().name@ == name {
        job_dependencies(js.last(), nv)
    } else {
        dependencies_of(js.drop_last(), nv, name)
    }
}

pub open spec fn all_in(xs: Seq<Seq<char>>, set: Seq<Seq<char>>) -> bool {
    forall|i: int| 0 <= i < xs.len() ==> set.contains(#[trigger] xs[i])
}

/// The names whose dependencies are all processed (`ready`), or those whose
/// are not, in order.
pub open spec fn split_ready(
    rem: Seq<Seq<char>>,
    js: Seq<JobSpec>,
    nv: NamesView,
    processed: Seq<Seq<char>>,
    ready: bool,
) -> Seq<Seq<char>>
    decreases rem.len(),
{
    if rem.len() == 0 {
        Seq::empty()
    } else if all_in(dependencies_of(js, nv, rem.last()), processed) == ready {
        split_ready(rem.drop_last(), js, nv, processed, ready).push(rem.last())
    } else {
        split_ready(rem.drop_last(), js, nv, processed, ready)
    }
}

/// The names left once, round after round (at most `rounds`), every name
/// whose dependencies are all processed is processed.
pub open spec fn settle(rem: Seq<Seq<char>>, js: Seq<JobSpec>, nv: NamesView, processed: Seq<Seq<char>>, rounds: nat) -> Seq<
    Seq<char>,
>
    decreases rounds,
{
    if rounds == 0 || rem.len() == 0 {
        rem
    } else {
        let level = split_ready(rem, js, nv, processed, true);
        if level.len() == 0 {
            rem
        } else {
            settle(split_ready(rem, js, nv, processed, false), js, nv, processed + level, (rounds - 1) as nat)
        }
    }
}

/// The jobs caught in or behind a dependency cycle, as one error.
pub open spec fn cycle_errors(js: Seq<JobSpec>, nv: NamesView) -> Seq<Seq<char>> {
    let names = distinct(nv.jobs);
    let left = settle(names, js, nv, Seq::empty(), names.len());
    if left.len() == 0 {
        Seq::empty()
    } else {
        seq!["Circular dependency detected involving jobs: "@ + join(wrapped(left, "'"@, "'"@), ", "@)]
    }
}

/// The last job named `name`.
fn last_job_named(js: &Vec<JobSpec>, name: &String, Ghost(nv): Ghost<NamesView>) -> (r: Option<usize>)
    ensures
        match r {
            Some(k) => k < js.len() && dependencies_of(js@, nv, name@) == job_dependencies(js@[k as int], nv),
            None => dependencies_of(js@, nv, name@) == Seq::<Seq<char>>::empty(),
        },
{
    let nm = chars_of(name.as_str());
    let mut i: usize = js.len();
    proof {
        assert(js@.take(js.len() as int) =~= js@);
    }
    while i > 0
        invariant
            i <= js.len(),
            nm@ == name@,
            dependencies_of(js@, nv, name@) == dependencies_of(js@.take(i as int), nv, name@),
        decreases i,
    {
        proof {
            assert(js@.take(i as int).drop_last() =~= js@.take(i - 1));
            assert(js@.take(i as int).last() == js@[i - 1]);
        }
        if chars_eq(&chars_of(js[i - 1].name.as_str()), &nm) {
            return Some(i - 1);
        }
        i = i - 1;
    }
    None
}

/// Whether every name of `xs` is in `set`.
fn all_in_exec(xs: &Vec<String>, set: &Vec<String>) -> (b: bool)
    ensures
        b == all_in(strs_view(xs@), strs_view(set@)),
{
    let mut i: usize = 0;
    while i < xs.len()
        invariant
            i <= xs.len(),
            forall|k: int| 0 <= k < i ==> strs_view(set@).contains(#[trigger] strs_view(xs@)[k]),
        decreases xs.len() - i,
    {
        if !contains_str(set, &xs[i]) {
            proof {
                assert(!strs_view(set@).contains(strs_view(xs@)[i as int]));
            }
            return false;
        }
        i = i + 1;
    }
    true
}

/// Whether the dependencies recorded for `name` are all processed.
fn ready_exec(
    js: &Vec<JobSpec>,
    all: &Vec<Vec<String>>,
    name: &String,
    processed: &Vec<String>,
    Ghost(nv): Ghost<NamesView>,
) -> (b: bool)
    requires
        all.len() == js.len(),
        forall|k: int| 0 <= k < js.len() ==> strs_view(#[trigger] all@[k]@) == job_dependencies(js@[k], nv),
    ensures
        b == all_in(dependencies_of(js@, nv, name@), strs_view(processed@)),
{
    match last_job_named(js, name, Ghost(nv)) {
        Some(k) => all_in_exec(&all[k], processed),
        None => true,
    }
}

fn split_ready_exec(
    rem: &Vec<String>,
    js: &Vec<JobSpec>,
    all: &Vec<Vec<String>>,
    processed: &Vec<String>,
    Ghost(nv): Ghost<NamesView>,
) -> (r: (Vec<String>, Vec<String>))
    requires
        all.len() == js.len(),
        forall|k: int| 0 <= k < js.len() ==> strs_view(#[trigger] all@[k]@) == job_dependencies(js@[k], nv),
    ensures
        strs_view(r.0@) == split_ready(strs_view(rem@), js@, nv, strs_view(processed@), true),
        strs_view(r.1@) == split_ready(strs_view(rem@), js@, nv, strs_view(processed@), false),
{
    let ghost rv = strs_view(rem@);
    let mut yes: Vec<String> = Vec::new();
    let mut no: Vec<String> = Vec::new();
    let mut i: usize = 0;
    proof {
        assert(rv.take(0) =~= Seq::<Seq<char>>::empty());
    }
    while i < rem.len()
        invariant
            i <= rem.len(),
            rv == strs_view(rem@),
            all.len() == js.len(),
            forall|k: int| 0 <= k < js.len() ==> strs_view(#[trigger] all@[k]@) == job_dependencies(js@[k], nv),
            strs_view(yes@) == split_ready(rv.take(i as int), js@, nv, strs_view(processed@), true),
            strs_view(no@) == split_ready(rv.take(i as int), js@, nv, strs_view(processed@), false),
        decreases rem.len() - i,
    {
        proof {
            assert(rv.take(i + 1).drop_last() =~= rv.take(i as int));
            assert(rv.take(i + 1).last() == rem@[i as int]@);
        }
        if ready_exec(js, all, &rem[i], processed, Ghost(nv)) {
            push_str(&mut yes, copy_string(&rem[i]));
        } else {
            push_str(&mut no, copy_string(&rem[i]));
        }
        i = i + 1;
    }
    proof {
        assert(rv.take(rem.len() as int) =~= rv);
    }
    (yes, no)
}

/// The cycle error, if the dependencies hold a cycle.
fn push_cycle_errors(out: &mut Vec<String>, js: &Vec<JobSpec>, all: &Vec<Vec<String>>, unique: &Vec<String>, Ghost(nv): Ghost<NamesView>)
    requires
        all.len() == js.len(),
        forall|k: int| 0 <= k < js.len() ==> strs_view(#[trigger] all@[k]@) == job_dependencies(js@[k], nv),
        strs_view(unique@) == distinct(nv.jobs),
    ensures
        strs_view(final(out)@) == strs_view(old(out)@) + cycle_errors(js@, nv),
{
    let ghost names = distinct(nv.jobs);
    let mut rem: Vec<String> = Vec::new();
    push_all_names(&mut rem, unique);
    let mut processed: Vec<String> = Vec::new();
    let mut rounds: usize = rem.len();
    let mut stuck = false;
    proof {
        assert(strs_view(rem@) =~= names);
        assert(strs_view(processed@) =~= Seq::<Seq<char>>::empty());
        assert(strs_view(rem@).len() == rem@.len());
    }
    while rounds > 0 && rem.len() > 0 && !stuck
        invariant
            all.len() == js.len(),
            forall|k: int| 0 <= k < js.len() ==> strs_view(#[trigger] all@[k]@) == job_dependencies(js@[k], nv),
            settle(names, js@, nv, Seq::empty(), names.len()) == settle(
                strs_view(rem@),
                js@,
                nv,
                strs_view(processed@),
                rounds as nat,
            ),
            stuck ==> settle(strs_view(rem@), js@, nv, strs_view(processed@), rounds as nat) == strs_view(rem@),
        decreases rounds + if stuck { 0int } else { 1int },
    {
        let (level, rest) = split_ready_exec(&rem, js, all, &processed, Ghost(nv));
        proof {
            assert(strs_view(rem@).len() == rem@.len());
            assert(strs_view(level@).len() == level@.len());
        }
        if level.len() == 0 {
            stuck = true;
        } else {
            let ghost before = strs_view(processed@);
            push_all_names(&mut processed, &level);
            rem = rest;
            rounds = rounds - 1;
        }
    }
    proof {
        assert(strs_view(rem@).len() == rem@.len());
    }
    if rem.len() > 0 {
        let mut quoted: Vec<String> = Vec::new();
        push_wrapped(&mut quoted, &rem, "'", "'");
        let listed = join_strings(&quoted, ", ");
        proof {
            assert(quoted@.map_values(|s: String| s@) =~= strs_view(quoted@));
            assert(strs_view(quoted@) =~= wrapped(strs_view(rem@), "'"@, "'"@));
        }
        push_str(out, concat2("Circular dependency detected involving jobs: ", listed.as_str()));
    } else {
        proof {
            assert(strs_view(out@) =~= strs_view(out@) + Seq::<Seq<char>>::empty());
        }
    }
}

fn push_all_names(dst: &mut Vec<String>, src: &Vec<String>)
    ensures
        strs_view(final(dst)@) == strs_view(old(dst)@) + strs_view(src@),
{
    let ghost start = strs_view(dst@);
    let mut i: usize = 0;
    while i < src.len()
        invariant
            i <= src.len(),
            strs_view(dst@) == start + strs_view(src@).take(i as int),
        decreases src.len() - i,
    {
        push_str(dst, copy_string(&src[i]));
        proof {
            assert(strs_view(dst@) =~= start + strs_view(src@).take(i + 1));
        }
        i = i + 1;
    }
    proof {
        assert(strs_view(src@).take(src.len() as int) =~= strs_view(src@));
    }
}

// ---------------------------------------------------------------------------
// What each action references
// ---------------------------------------------------------------------------

/// How messages name the action at `idx` (counted from zero).
pub open spec fn action_label(idx: int, a: WorkflowActionSpec) -> Seq<char> {
    "Action #"@ + int_text(idx + 1) + " ("@ + a.action_type@ + ")"@
}

/// The error of a node-scheduling action whose Slurm scheduler is missing.
pub open spec fn missing_slurm_scheduler(a: WorkflowActionSpec, label: Seq<char>, schedulers: Seq<Seq<char>>) -> Seq<
    Seq<char>,
> {
    match a.scheduler {
        Some(s) => if a.action_type@ == "schedule_nodes"@ && (a.scheduler_type matches Some(t) && t@ == "slurm"@)
            && !schedulers.contains(s@) {
            seq![label + " references non-existent slurm scheduler '"@ + s@ + "'"@]
        } else {
            Seq::empty()
        },
        None => Seq::empty(),
    }
}

pub open spec fn action_reference_errors(idx: int, a: WorkflowActionSpec, nv: NamesView) -> Seq<Seq<char>> {
    let label = action_label(idx, a);
    wrapped(absent_from(or_none(a.jobs), nv.jobs), label + " references non-existent job '"@, "'"@)
        + pattern_messages(invalid_patterns(or_none(a.job_name_regexes)), label + " has invalid job_name_regexes '"@)
        + missing_slurm_scheduler(a, label, nv.schedulers)
}

/// The reference errors of the actions, action after action.
pub open spec fn actions_reference_errors(acts: Seq<WorkflowActionSpec>, nv: NamesView) -> Seq<Seq<char>>
    decreases acts.len(),
{
    if acts.len() == 0 {
        Seq::empty()
    } else {
        actions_reference_errors(acts.drop_last(), nv) + action_reference_errors(acts.len() - 1, acts.last(), nv)
    }
}

pub open spec fn all_actions_reference_errors(w: WorkflowSpec) -> Seq<Seq<char>> {
    match w.actions {
        Some(acts) => actions_reference_errors(acts@, names_view(w)),
        None => Seq::empty(),
    }
}

fn push_action_references(out: &mut Vec<String>, idx: usize, a: &WorkflowActionSpec, n: &Names)
    requires
        idx < usize::MAX,
    ensures
        strs_view(final(out)@) == strs_view(old(out)@) + action_reference_errors(idx as int, *a, names_view_of(*n)),
{
    let ghost start = strs_view(out@);
    let number = string_of(&crate::text::u128_digits((idx + 1) as u128));
    let label = concat5("Action #", number.as_str(), " (", a.action_type.as_str(), ")");
    proof {
        assert(label@ == action_label(idx as int, *a));
    }
    push_wrapped(out, &filter_known(&a.jobs, &n.jobs, true), concat2(label.as_str(), " references non-existent job '").as_str(), "'");
    push_invalid_patterns(out, &a.job_name_regexes, concat2(label.as_str(), " has invalid job_name_regexes '").as_str());
    let ghost mid = strs_view(out@);
    match &a.scheduler {
        Some(s) => {
            let slurm = match &a.scheduler_type {
                Some(t) => chars_eq(&chars_of(t.as_str()), &chars_of("slurm")),
                None => false,
            };
            if chars_eq(&chars_of(a.action_type.as_str()), &chars_of("schedule_nodes")) && slurm && !contains_str(&n.schedulers, s) {
                push_str(out, concat3(concat2(label.as_str(), " references non-existent slurm scheduler '").as_str(), s.as_str(), "'"));
            } else {
                proof {
                    assert(strs_view(out@) =~= mid + Seq::<Seq<char>>::empty());
                }
            }
        },
        None => {
            proof {
                assert(strs_view(out@) =~= mid + Seq::<Seq<char>>::empty());
            }
        },
    }
    proof {
        assert(strs_view(out@) =~= start + action_reference_errors(idx as int, *a, names_view_of(*n)));
    }
}

// ---------------------------------------------------------------------------
// The report
// ---------------------------------------------------------------------------

/// A check's error, with `prefix` before it, if it failed.
pub open spec fn failure(verdict: Result<(), Seq<char>>, prefix: Seq<char>) -> Seq<Seq<char>> {
    match verdict {
        Ok(()) => Seq::empty(),
        Err(m) => seq![prefix + m],
    }
}

/// A check's error, as it is, if it failed.
pub open spec fn bare_failure(verdict: Result<(), Seq<char>>) -> Seq<Seq<char>> {
    match verdict {
        Ok(()) => Seq::empty(),
        Err(m) => seq![m],
    }
}

/// The errors found in an expanded workflow `s`, `r` being it with the
/// references of its jobs resolved: the checks of creation, then duplicate
/// names, references, dependency cycles and the references of actions.
pub open spec fn review_errors(s: WorkflowSpec, r: WorkflowSpec, p: ResourceParses) -> Seq<Seq<char>> {
    creation_errors(s, p) + resolved_errors(r)
}

pub open spec fn count_of<T>(o: Option<Vec<T>>) -> nat {
    match o {
        Some(v) => v.len() as nat,
        None => 0,
    }
}

/// `sm` sums up workflow `w`, which had `jobs_before` jobs and
/// `files_before` files before expansion.
pub open spec fn summary_of(w: WorkflowSpec, sm: ValidationSummary, jobs_before: nat, files_before: nat) -> bool {
    &&& sm.workflow_name@ == w.name@
    &&& opt_view(sm.workflow_description) == opt_view(w.description)
    &&& sm.job_count == w.jobs.len()
    &&& sm.job_count_before_expansion == jobs_before
    &&& sm.file_count == count_of(w.files)
    &&& sm.file_count_before_expansion == files_before
    &&& sm.user_data_count == count_of(w.user_data)
    &&& sm.resource_requirements_count == count_of(w.resource_requirements)
    &&& sm.slurm_scheduler_count == count_of(w.slurm_schedulers)
    &&& sm.action_count == count_of(w.actions)
    &&& sm.has_schedule_nodes_action == match w.actions {
        None => false,
        Some(acts) => has_submittable_schedule(acts@),
    }
    &&& strs_view(sm.job_names@) == job_names(w.jobs@)
    &&& strs_view(sm.scheduler_names@) == schedulers_named(w)
}

/// `res` reports on expanded workflow `s` with `earlier` errors before its
/// own; `r` is `s` with its references resolved.
pub open spec fn reports_on(
    res: ValidationResult,
    s: WorkflowSpec,
    r: WorkflowSpec,
    earlier: Seq<Seq<char>>,
    jobs_before: nat,
    files_before: nat,
    p: ResourceParses,
) -> bool {
    &&& substituted_as(s, r)
    &&& strs_view(res.errors@) == earlier + review_errors(s, r, p)
    &&& res.valid == (res.errors.len() == 0)
    &&& res.warnings.len() == 0
    &&& summary_of(r, res.summary, jobs_before, files_before)
}

fn push_failure(out: &mut Vec<String>, r: Result<(), String>, prefix: &str)
    ensures
        strs_view(final(out)@) == strs_view(old(out)@) + failure(unit_view(r), prefix@),
{
    match r {
        Ok(()) => {
            proof {
                assert(strs_view(out@) =~= strs_view(out@) + Seq::<Seq<char>>::empty());
            }
        },
        Err(m) => {
            push_str(out, concat2(prefix, m.as_str()));
            proof {
                assert(strs_view(out@) =~= strs_view(old(out)@) + failure(unit_view(r), prefix@));
            }
        },
    }
}

fn summarize(w: &WorkflowSpec, n: &Names, jobs_before: usize, files_before: usize) -> (sm: ValidationSummary)
    requires
        names_of(*w, *n),
    ensures
        summary_of(*w, sm, jobs_before as nat, files_before as nat),
{
    let mut job_list: Vec<String> = Vec::new();
    push_all_names(&mut job_list, &n.jobs);
    let mut scheduler_list: Vec<String> = Vec::new();
    push_all_names(&mut scheduler_list, &n.schedulers);
    proof {
        assert(strs_view(job_list@) =~= strs_view(n.jobs@));
        assert(strs_view(scheduler_list@) =~= strs_view(n.schedulers@));
    }
    ValidationSummary {
        workflow_name: copy_string(&w.name),
        workflow_description: match &w.description {
            Some(d) => Some(copy_string(d)),
            None => None,
        },
        job_count: w.jobs.len(),
        job_count_before_expansion: jobs_before,
        file_count: match &w.files {
            Some(f) => f.len(),
            None => 0,
        },
        file_count_before_expansion: files_before,
        user_data_count: match &w.user_data {
            Some(u) => u.len(),
            None => 0,
        },
        resource_requirements_count: match &w.resource_requirements {
            Some(r) => r.len(),
            None => 0,
        },
        slurm_scheduler_count: match &w.slurm_schedulers {
            Some(s) => s.len(),
            None => 0,
        },
        action_count: match &w.actions {
            Some(a) => a.len(),
            None => 0,
        },
        has_schedule_nodes_action: w.has_schedule_nodes_action(),
        job_names: job_list,
        scheduler_names: scheduler_list,
    }
}

/// The errors of the checks creation makes, in their order, then every
/// resource warning (`scheduler_resource_warnings`, with the parsers'
/// results in `p`).
pub open spec fn creation_errors(s: WorkflowSpec, p: ResourceParses) -> Seq<Seq<char>> {
    failure(actions_verdict(s), "Action validation failed: "@) + failure(
        env_maps_verdict(s),
        "Environment validation failed: "@,
    ) + failure(dynamic_jobs_verdict(s), "Validation error: "@) + failure(
        unique_names_verdict(s),
        "Validation error: "@,
    ) + bare_failure(node_verdict(s)) + scheduler_resource_warnings(s, p)
}

/// The errors found once references are resolved.
pub open spec fn resolved_errors(r: WorkflowSpec) -> Seq<Seq<char>> {
    failure(identifiers_verdict(r), "File identifier validation failed: "@) + duplicate_errors(r) + reference_errors(
        r.jobs@,
        names_view(r),
    ) + cycle_errors(r.jobs@, names_view(r)) + all_actions_reference_errors(r)
}

fn push_creation_errors(out: &mut Vec<String>, s: &WorkflowSpec, p: &ResourceParses)
    ensures
        strs_view(final(out)@) == strs_view(old(out)@) + creation_errors(*s, *p),
{
    let ghost start = strs_view(out@);
    push_failure(out, s.validate_actions(), "Action validation failed: ");
    push_failure(out, s.validate_env_maps(), "Environment validation failed: ");
    push_failure(out, s.validate_dynamic_jobs(), "Validation error: ");
    push_failure(out, s.validate_unique_names_after_expansion(), "Validation error: ");
    let ghost mid = strs_view(out@);
    match s.validate_scheduler_node_requirements() {
        Ok(()) => {
            proof {
                assert(strs_view(out@) =~= mid + Seq::<Seq<char>>::empty());
            }
        },
        Err(m) => push_str(out, m),
    }
    let ghost before_resources = strs_view(out@);
    let warnings = s.validate_scheduler_resources_with(p);
    let mut k: usize = 0;
    while k < warnings.len()
        invariant
            k <= warnings@.len(),
            strs_view(out@) == before_resources + strs_view(warnings@).take(k as int),
        decreases warnings@.len() - k,
    {
        let ghost prev = strs_view(out@);
        out.push(copy_string(&warnings[k]));
        proof {
            assert(strs_view(warnings@).take(k + 1) =~= strs_view(warnings@).take(k as int).push(warnings@[k as int]@));
            assert(strs_view(out@) =~= prev.push(warnings@[k as int]@));
        }
        k = k + 1;
    }
    proof {
        assert(strs_view(warnings@).take(warnings@.len() as int) =~= strs_view(warnings@));
        assert(strs_view(out@) =~= start + creation_errors(*s, *p));
    }
}

fn push_reference_errors(out: &mut Vec<String>, js: &Vec<JobSpec>, n: &Names, unique: &Vec<String>) -> (all: Vec<Vec<String>>)
    requires
        strs_view(unique@) == distinct(strs_view(n.jobs@)),
    ensures
        strs_view(final(out)@) == strs_view(old(out)@) + reference_errors(js@, names_view_of(*n)),
        all.len() == js.len(),
        forall|k: int| 0 <= k < js.len() ==> strs_view(#[trigger] all@[k]@) == job_dependencies(js@[k], names_view_of(*n)),
{
    let ghost start = strs_view(out@);
    let mut all: Vec<Vec<String>> = Vec::new();
    let mut i: usize = 0;
    proof {
        assert(reference_errors(js@.take(0), names_view_of(*n)) =~= Seq::<Seq<char>>::empty());
        assert(strs_view(out@) =~= start + reference_errors(js@.take(0), names_view_of(*n)));
    }
    while i < js.len()
        invariant
            i <= js.len(),
            all.len() == i,
            strs_view(unique@) == distinct(strs_view(n.jobs@)),
            forall|k: int| 0 <= k < i ==> strs_view(#[trigger] all@[k]@) == job_dependencies(js@[k], names_view_of(*n)),
            strs_view(out@) == start + reference_errors(js@.take(i as int), names_view_of(*n)),
        decreases js.len() - i,
    {
        proof {
            assert(js@.take(i + 1).drop_last() =~= js@.take(i as int));
            assert(js@.take(i + 1).last() == js@[i as int]);
        }
        let deps = job_references_exec(&js[i], n, unique, out);
        all.push(deps);
        proof {
            assert(strs_view(out@) =~= start + reference_errors(js@.take(i + 1), names_view_of(*n)));
        }
        i = i + 1;
    }
    proof {
        assert(js@.take(js.len() as int) =~= js@);
    }
    all
}

fn push_all_action_references(out: &mut Vec<String>, w: &WorkflowSpec, n: &Names)
    requires
        names_of(*w, *n),
    ensures
        strs_view(final(out)@) == strs_view(old(out)@) + all_actions_reference_errors(*w),
{
    let ghost start = strs_view(out@);
    proof {
        assert(names_view_of(*n) == names_view(*w));
    }
    match &w.actions {
        Some(acts) => {
            let mut k: usize = 0;
            proof {
                assert(actions_reference_errors(acts@.take(0), names_view_of(*n)) =~= Seq::<Seq<char>>::empty());
                assert(strs_view(out@) =~= start + actions_reference_errors(acts@.take(0), names_view_of(*n)));
            }
            while k < acts.len()
                invariant
                    k <= acts.len(),
                    strs_view(out@) == start + actions_reference_errors(acts@.take(k as int), names_view_of(*n)),
                decreases acts.len() - k,
            {
                proof {
                    assert(acts@.take(k + 1).drop_last() =~= acts@.take(k as int));
                    assert(acts@.take(k + 1).last() == acts@[k as int]);
                }
                push_action_references(out, k, &acts[k], n);
                k = k + 1;
            }
            proof {
                assert(acts@.take(acts.len() as int) =~= acts@);
            }
        },
        None => {
            proof {
                assert(strs_view(out@) =~= start + Seq::<Seq<char>>::empty());
            }
        },
    }
}

fn push_resolved_errors(out: &mut Vec<String>, r: &WorkflowSpec) -> (n: Names)
    ensures
        strs_view(final(out)@) == strs_view(old(out)@) + resolved_errors(*r),
        names_of(*r, n),
{
    let ghost start = strs_view(out@);
    push_failure(out, r.validate_file_identifiers(), "File identifier validation failed: ");
    let n = collect_names(r);
    push_duplicate_errors(out, &n);
    let unique = distinct_exec(&n.jobs);
    proof {
        assert(names_view_of(n) == names_view(*r));
    }
    let all = push_reference_errors(out, &r.jobs, &n, &unique);
    push_cycle_errors(out, &r.jobs, &all, &unique, Ghost(names_view(*r)));
    push_all_action_references(out, r, &n);
    proof {
        assert(strs_view(out@) =~= start + resolved_errors(*r));
    }
    n
}

/// Runs the checks of a dry run on an expanded workflow, after `earlier`
/// errors; `jobs_before` and `files_before` are the counts before expansion.
pub fn review_expanded_spec(
    spec: WorkflowSpec,
    earlier: Vec<String>,
    jobs_before: usize,
    files_before: usize,
    parses: &ResourceParses,
) -> (res: ValidationResult)
    ensures
        exists|r: WorkflowSpec|
            reports_on(res, spec, r, strs_view(earlier@), jobs_before as nat, files_before as nat, *parses),
{
    let ghost s = spec;
    let mut errors = earlier;
    let mut spec = spec;
    push_creation_errors(&mut errors, &spec, parses);
    let _ = spec.substitute_variables();
    let n = push_resolved_errors(&mut errors, &spec);
    let summary = summarize(&spec, &n, jobs_before, files_before);
    proof {
        assert(strs_view(errors@) =~= strs_view(earlier@) + review_errors(s, spec, *parses));
        assert(strs_view(errors@).len() == errors@.len());
    }
    let valid = errors.len() == 0;
    let res = ValidationResult { valid, errors, warnings: Vec::new(), summary };
    proof {
        assert(reports_on(res, s, spec, strs_view(earlier@), jobs_before as nat, files_before as nat, *parses));
    }
    res
}

/// The error a failed expansion adds to the report.
pub open spec fn expansion_failure(x: Result<(), String>) -> Seq<Seq<char>> {
    match x {
        Ok(()) => Seq::empty(),
        Err(m) => seq!["Parameter expansion failed: "@ + m@],
    }
}

impl WorkflowSpec {
    /// Validates a parsed specification without creating anything: expands
    /// its parameters (`tables` holds the rows of each `parameters_file`),
    /// then runs every check creation would make, and reports all errors
    /// found with a summary of what would be created. `parses` holds the
    /// parsers' results for the resource check.
    pub fn validate_parsed_spec(spec: WorkflowSpec, tables: &ParameterTables, parses: &ResourceParses) -> (res:
        ValidationResult)
        requires
            tables_well_formed(tables@),
        ensures
            exists|e: WorkflowSpec, x: Result<(), String>, r: WorkflowSpec|
                expanded_as(spec, e, tables@, x) && reports_on(
                    res,
                    e,
                    r,
                    expansion_failure(x),
                    spec.jobs.len() as nat,
                    count_of(spec.files),
                    *parses,
                ),
    {
        let jobs_before = spec.jobs.len();
        let files_before = match &spec.files {
            Some(f) => f.len(),
            None => 0,
        };
        let ghost before = spec;
        let mut spec = spec;
        let x = spec.expand_parameters_with_tables(tables);
        let mut earlier: Vec<String> = Vec::new();
        match &x {
            Ok(()) => {
                proof {
                    assert(strs_view(earlier@) =~= expansion_failure(x));
                }
            },
            Err(m) => {
                push_str(&mut earlier, concat2("Parameter expansion failed: ", m.as_str()));
                proof {
                    assert(strs_view(earlier@) =~= expansion_failure(x));
                }
            },
        }
        let ghost e = spec;
        let res = review_expanded_spec(spec, earlier, jobs_before, files_before, parses);
        proof {
            let r = choose|r: WorkflowSpec| reports_on(res, e, r, expansion_failure(x), jobs_before as nat, files_before as nat, *parses);
            assert(expanded_as(before, e, tables@, x) && reports_on(res, e, r, expansion_failure(x), before.jobs.len() as nat, count_of(before.files), *parses));
        }
        res
    }
}

/// The report on a specification that could not be parsed.
pub fn parse_failure_result(message: &str) -> (res: ValidationResult)
    ensures
        !res.valid,
        strs_view(res.errors@) == seq!["Failed to parse specification file: "@ + message@],
        res.warnings.len() == 0,
        res.summary.workflow_name@ == Seq::<char>::empty(),
        res.summary.workflow_description is None,
        res.summary.job_count == 0,
        res.summary.job_count_before_expansion == 0,
        res.summary.file_count == 0,
        res.summary.file_count_before_expansion == 0,
        res.summary.user_data_count == 0,
        res.summary.resource_requirements_count == 0,
        res.summary.slurm_scheduler_count == 0,
        res.summary.action_count == 0,
        !res.summary.has_schedule_nodes_action,
        res.summary.job_names.len() == 0,
        res.summary.scheduler_names.len() == 0,
{
    let mut errors: Vec<String> = Vec::new();
    push_str(&mut errors, concat2("Failed to parse specification file: ", message));
    proof {
        assert(strs_view(errors@) =~= seq!["Failed to parse specification file: "@ + message@]);
    }
    ValidationResult {
        valid: false,
        errors,
        warnings: Vec::new(),
        summary: ValidationSummary {
            workflow_name: String::new(),
            workflow_description: None,
            job_count: 0,
            job_count_before_expansion: 0,
            file_count: 0,
            file_count_before_expansion: 0,
            user_data_count: 0,
            resource_requirements_count: 0,
            slurm_scheduler_count: 0,
            action_count: 0,
            has_schedule_nodes_action: false,
            job_names: Vec::new(),
            scheduler_names: Vec::new(),
        },
    }
}

} // verus!
