//! The decisions of creating a workflow's jobs on the server: each job's
//! dependencies, the order of creation (levels whose dependencies are all
//! created before them), and the job records with names resolved to ids.
//! Submitting each level and reading back the ids is left to the caller.

use vstd::prelude::*;

use crate::checks::job_names;
use crate::dry_run::{all_in, or_none};
use crate::models::{ascii_lower, JobModel, JobStatus};
use crate::patterns::{compile_regex, regex_compile_error, regex_is_match, regex_matches, CompiledRegex};
use crate::text::{chars_eq, chars_of, concat2, concat3, concat5, copy_string, extend_str, i64_to_string, int_text, string_of};
use crate::workflow_spec::{strs_view, JobSpec};

verus! {

// ---------------------------------------------------------------------------
// Dependencies
// ---------------------------------------------------------------------------

/// The names that `pattern` matches, in order, each added unless the
/// dependencies so far (with those added before it) hold it already.
pub open spec fn added_matches(names: Seq<Seq<char>>, pattern: Seq<char>, deps: Seq<Seq<char>>) -> Seq<Seq<char>>
    decreases names.len(),
{
    if names.len() == 0 {
        Seq::empty()
    } else {
        let before = added_matches(names.drop_last(), pattern, deps);
        if regex_matches(pattern, names.last()) && !(deps + before).contains(names.last()) {
            before.push(names.last())
        } else {
            before
        }
    }
}

pub open spec fn missing_blocking_job_message(dep: Seq<char>, job: Seq<char>) -> Seq<char> {
    "Blocking job '"@ + dep + "' not found for job '"@ + job + "'"@
}

/// The first name of `list` missing from `known`.
pub open spec fn first_missing(list: Seq<Seq<char>>, known: Seq<Seq<char>>) -> Option<Seq<char>>
    decreases list.len(),
{
    if list.len() == 0 {
        None
    } else {
        match first_missing(list.drop_last(), known) {
            Some(m) => Some(m),
            None => if known.contains(list.last()) {
                None
            } else {
                Some(list.last())
            },
        }
    }
}

/// The dependencies after the first `k` patterns of a job, or the error.
pub open spec fn pattern_dependencies(job: Seq<char>, patterns: Seq<Seq<char>>, names: Seq<Seq<char>>, deps: Seq<Seq<char>>) -> Result<
    Seq<Seq<char>>,
    Seq<char>,
>
    decreases patterns.len(),
{
    if patterns.len() == 0 {
        Ok(deps)
    } else {
        match pattern_dependencies(job, patterns.drop_last(), names, deps) {
            Err(e) => Err(e),
            Ok(d) => {
                let p = patterns.last();
                match regex_compile_error(p) {
                    Some(e) => Err("Invalid regex '"@ + p + "' in job '"@ + job + "': "@ + e),
                    None => {
                        let added = added_matches(names, p, d);
                        if added.len() == 0 {
                            Err("Blocking job regex '"@ + p + "' did not match any jobs for job '"@ + job + "'"@)
                        } else {
                            Ok(d + added)
                        }
                    },
                }
            },
        }
    }
}

/// A job's dependencies: the jobs it names, then those its patterns match
/// among all jobs (in their order); or the first error.
pub open spec fn job_dependency_outcome(j: JobSpec, names: Seq<Seq<char>>) -> Result<Seq<Seq<char>>, Seq<char>> {
    match first_missing(or_none(j.depends_on), names) {
        Some(m) => Err(missing_blocking_job_message(m, j.name@)),
        None => pattern_dependencies(j.name@, or_none(j.depends_on_regexes), names, or_none(j.depends_on)),
    }
}

/// The dependencies of the first `k` jobs, or the first error.
pub open spec fn dependency_graph(js: Seq<JobSpec>, k: int) -> Result<Seq<Seq<Seq<char>>>, Seq<char>>
    decreases k,
{
    if k <= 0 || k > js.len() {
        Ok(Seq::empty())
    } else {
        match dependency_graph(js, k - 1) {
            Err(e) => Err(e),
            Ok(g) => match job_dependency_outcome(js[k - 1], job_names(js)) {
                Err(e) => Err(e),
                Ok(d) => Ok(g.push(d)),
            },
        }
    }
}

fn contains_str(names: &Vec<String>, name: &String) -> (b: bool)
    ensures
        b == strs_view(names@).contains(name@),
{
    crate::variables::contains_name(names, &chars_of(name.as_str()))
}

fn push_str(out: &mut Vec<String>, s: String)
    ensures
        strs_view(final(out)@) == strs_view(old(out)@).push(s@),
{
    let ghost prev = out@;
    out.push(s);
    proof {
        assert(out@ == prev.push(s));
        assert(strs_view(out@) =~= strs_view(prev).push(s@));
    }
}

fn first_missing_exec(list: &Option<Vec<String>>, known: &Vec<String>) -> (r: Option<String>)
    ensures
        match r {
            Some(m) => first_missing(or_none(*list), strs_view(known@)) == Some(m@),
            None => first_missing(or_none(*list), strs_view(known@)) is None,
        },
{
    match list {
        Some(v) => {
            let ghost lv = strs_view(v@);
            let mut i: usize = 0;
            proof {
                assert(lv.take(0) =~= Seq::<Seq<char>>::empty());
            }
            while i < v.len()
                invariant
                    i <= v.len(),
                    lv == strs_view(v@),
                    *list == Some(*v),
                    first_missing(lv.take(i as int), strs_view(known@)) is None,
                decreases v.len() - i,
            {
                proof {
                    assert(lv.take(i + 1).drop_last() =~= lv.take(i as int));
                    assert(lv.take(i + 1).last() == v@[i as int]@);
                }
                if !contains_str(known, &v[i]) {
                    proof {
                        assert(first_missing(lv.take(i + 1), strs_view(known@)) == Some(v@[i as int]@));
                        lemma_first_missing_persists(lv, strs_view(known@), i + 1);
                    }
                    return Some(copy_string(&v[i]));
                }
                i = i + 1;
            }
            proof {
                assert(lv.take(v.len() as int) =~= lv);
            }
            None
        },
        None => None,
    }
}

/// Once a prefix holds a missing name, the whole list has the same first one.
proof fn lemma_first_missing_persists(list: Seq<Seq<char>>, known: Seq<Seq<char>>, k: int)
    requires
        0 <= k <= list.len(),
        first_missing(list.take(k), known) is Some,
    ensures
        first_missing(list, known) == first_missing(list.take(k), known),
    decreases list.len() - k,
{
    if k < list.len() {
        assert(list.take(k + 1).drop_last() =~= list.take(k));
        lemma_first_missing_persists(list, known, k + 1);
    } else {
        assert(list.take(k) =~= list);
    }
}

/// A job's dependencies, or the first error.
fn job_dependencies_exec(j: &JobSpec, names: &Vec<String>) -> (r: Result<Vec<String>, String>)
    ensures
        match r {
            Ok(d) => job_dependency_outcome(*j, strs_view(names@)) == Ok::<Seq<Seq<char>>, Seq<char>>(strs_view(d@)),
            Err(e) => job_dependency_outcome(*j, strs_view(names@)) == Err::<Seq<Seq<char>>, Seq<char>>(e@),
        },
{
    match first_missing_exec(&j.depends_on, names) {
        Some(m) => {
            return Err(concat5("Blocking job '", m.as_str(), "' not found for job '", j.name.as_str(), "'"));
        },
        None => {},
    }
    let mut deps: Vec<String> = Vec::new();
    match &j.depends_on {
        Some(v) => {
            let mut k: usize = 0;
            while k < v.len()
                invariant
                    k <= v.len(),
                    strs_view(deps@) == strs_view(v@).take(k as int),
                decreases v.len() - k,
            {
                push_str(&mut deps, copy_string(&v[k]));
                proof {
                    assert(strs_view(deps@) =~= strs_view(v@).take(k + 1));
                }
                k = k + 1;
            }
            proof {
                assert(strs_view(v@).take(v.len() as int) =~= strs_view(v@));
            }
        },
        None => {
            proof {
                assert(strs_view(deps@) =~= Seq::<Seq<char>>::empty());
            }
        },
    }
    let ghost d0 = strs_view(deps@);
    proof {
        assert(d0 == or_none(j.depends_on));
    }
    match &j.depends_on_regexes {
        Some(ps) => {
            let ghost pv = strs_view(ps@);
            let mut i: usize = 0;
            proof {
                assert(pv.take(0) =~= Seq::<Seq<char>>::empty());
            }
            while i < ps.len()
                invariant
                    i <= ps.len(),
                    pv == strs_view(ps@),
                    j.depends_on_regexes == Some(*ps),
                    first_missing(or_none(j.depends_on), strs_view(names@)) is None,
                    d0 == or_none(j.depends_on),
                    pattern_dependencies(j.name@, pv.take(i as int), strs_view(names@), d0) == Ok::<
                        Seq<Seq<char>>,
                        Seq<char>,
                    >(strs_view(deps@)),
                decreases ps.len() - i,
            {
                proof {
                    assert(pv.take(i + 1).drop_last() =~= pv.take(i as int));
                    assert(pv.take(i + 1).last() == ps@[i as int]@);
                }
                let re = match compile_regex(ps[i].as_str()) {
                    Ok(re) => re,
                    Err(e) => {
                        let head = concat5("Invalid regex '", ps[i].as_str(), "' in job '", j.name.as_str(), "': ");
                        proof {
                            lemma_pattern_error_persists(j.name@, pv, strs_view(names@), d0, i + 1);
                        }
                        return Err(concat2(head.as_str(), e.as_str()));
                    },
                };
                let ghost before = strs_view(deps@);
                let mut added: Vec<String> = Vec::new();
                let mut m: usize = 0;
                let ghost nv = strs_view(names@);
                proof {
                    assert(nv.take(0) =~= Seq::<Seq<char>>::empty());
                    assert(strs_view(added@) =~= added_matches(nv.take(0), re.pattern(), before));
                }
                while m < names.len()
                    invariant
                        m <= names.len(),
                        nv == strs_view(names@),
                        before == strs_view(deps@),
                        strs_view(added@) == added_matches(nv.take(m as int), re.pattern(), before),
                    decreases names.len() - m,
                {
                    proof {
                        assert(nv.take(m + 1).drop_last() =~= nv.take(m as int));
                        assert(nv.take(m + 1).last() == names@[m as int]@);
                    }
                    proof {
                        lemma_concat_contains(before, strs_view(added@), names@[m as int]@);
                    }
                    if regex_is_match(&re, names[m].as_str()) && !contains_str(&deps, &names[m]) && !contains_str(
                        &added,
                        &names[m],
                    ) {
                        push_str(&mut added, copy_string(&names[m]));
                    }
                    m = m + 1;
                }
                proof {
                    assert(nv.take(names.len() as int) =~= nv);
                    assert(strs_view(added@).len() == added@.len());
                }
                if added.len() == 0 {
                    proof {
                        lemma_pattern_error_persists(j.name@, pv, strs_view(names@), d0, i + 1);
                    }
                    return Err(concat5("Blocking job regex '", ps[i].as_str(), "' did not match any jobs for job '", j.name.as_str(), "'"));
                }
                let mut k: usize = 0;
                while k < added.len()
                    invariant
                        k <= added.len(),
                        strs_view(deps@) == before + strs_view(added@).take(k as int),
                    decreases added.len() - k,
                {
                    push_str(&mut deps, copy_string(&added[k]));
                    proof {
                        assert(strs_view(deps@) =~= before + strs_view(added@).take(k + 1));
                    }
                    k = k + 1;
                }
                proof {
                    assert(strs_view(added@).take(added.len() as int) =~= strs_view(added@));
                }
                i = i + 1;
            }
            proof {
                assert(pv.take(ps.len() as int) =~= pv);
            }
        },
        None => {},
    }
    Ok(deps)
}

proof fn lemma_concat_contains(a: Seq<Seq<char>>, b: Seq<Seq<char>>, x: Seq<char>)
    ensures
        (a + b).contains(x) <==> (a.contains(x) || b.contains(x)),
{
    if (a + b).contains(x) {
        let q = choose|q: int| 0 <= q < (a + b).len() && (a + b)[q] == x;
        if q < a.len() {
            assert(a[q] == x);
        } else {
            assert(b[q - a.len()] == x);
        }
    }
    if a.contains(x) {
        let q = choose|q: int| 0 <= q < a.len() && a[q] == x;
        assert((a + b)[q] == x);
    }
    if b.contains(x) {
        let q = choose|q: int| 0 <= q < b.len() && b[q] == x;
        assert((a + b)[a.len() + q] == x);
    }
}

/// Once a pattern fails, the whole list of patterns fails the same way.
proof fn lemma_pattern_error_persists(job: Seq<char>, patterns: Seq<Seq<char>>, names: Seq<Seq<char>>, deps: Seq<Seq<char>>, k: int)
    requires
        0 <= k <= patterns.len(),
        pattern_dependencies(job, patterns.take(k), names, deps) is Err,
    ensures
        pattern_dependencies(job, patterns, names, deps) == pattern_dependencies(job, patterns.take(k), names, deps),
    decreases patterns.len() - k,
{
    if k < patterns.len() {
        assert(patterns.take(k + 1).drop_last() =~= patterns.take(k));
        lemma_pattern_error_persists(job, patterns, names, deps, k + 1);
    } else {
        assert(patterns.take(k) =~= patterns);
    }
}

/// The dependencies of every job, in the order of the jobs.
pub fn job_dependency_graph(jobs: &Vec<JobSpec>) -> (r: Result<Vec<Vec<String>>, String>)
    ensures
        match r {
            Ok(g) => dependency_graph(jobs@, jobs.len() as int) == Ok::<Seq<Seq<Seq<char>>>, Seq<char>>(
                g@.map_values(|d: Vec<String>| strs_view(d@)),
            ),
            Err(e) => dependency_graph(jobs@, jobs.len() as int) == Err::<Seq<Seq<Seq<char>>>, Seq<char>>(e@),
        },
{
    let mut names: Vec<String> = Vec::new();
    let mut i: usize = 0;
    while i < jobs.len()
        invariant
            i <= jobs.len(),
            strs_view(names@) == job_names(jobs@).take(i as int),
        decreases jobs.len() - i,
    {
        push_str(&mut names, copy_string(&jobs[i].name));
        proof {
            assert(strs_view(names@) =~= job_names(jobs@).take(i + 1));
        }
        i = i + 1;
    }
    proof {
        assert(job_names(jobs@).take(jobs.len() as int) =~= job_names(jobs@));
    }
    let mut g: Vec<Vec<String>> = Vec::new();
    let mut k: usize = 0;
    proof {
        assert(g@.map_values(|d: Vec<String>| strs_view(d@)) =~= Seq::<Seq<Seq<char>>>::empty());
    }
    while k < jobs.len()
        invariant
            k <= jobs.len(),
            strs_view(names@) == job_names(jobs@),
            dependency_graph(jobs@, k as int) == Ok::<Seq<Seq<Seq<char>>>, Seq<char>>(
                g@.map_values(|d: Vec<String>| strs_view(d@)),
            ),
        decreases jobs.len() - k,
    {
        match job_dependencies_exec(&jobs[k], &names) {
            Err(e) => {
                proof {
                    lemma_graph_error_persists(jobs@, k + 1, jobs.len() as int);
                }
                return Err(e);
            },
            Ok(d) => {
                let ghost prev = g@;
                g.push(d);
                proof {
                    assert(g@ == prev.push(d));
                    assert(g@.map_values(|x: Vec<String>| strs_view(x@)) =~= prev.map_values(
                        |x: Vec<String>| strs_view(x@),
                    ).push(strs_view(d@)));
                }
            },
        }
        k = k + 1;
    }
    Ok(g)
}

proof fn lemma_graph_error_persists(js: Seq<JobSpec>, k: int, k2: int)
    requires
        0 <= k <= k2 <= js.len(),
        dependency_graph(js, k) is Err,
    ensures
        dependency_graph(js, k2) == dependency_graph(js, k),
    decreases k2 - k,
{
    if k < k2 {
        lemma_graph_error_persists(js, k, k2 - 1);
    }
}

// ---------------------------------------------------------------------------
// Order of creation
// ---------------------------------------------------------------------------

/// The last job named `name`.
pub open spec fn last_named(js: Seq<JobSpec>, name: Seq<char>) -> Option<int>
    decreases js.len(),
{
    if js.len() == 0 {
        None
    } else if js.last().name@ == name {
        Some(js.len() - 1)
    } else {
        last_named(js.drop_last(), name)
    }
}

/// The dependencies recorded for a name: those of its last job.
pub open spec fn recorded_dependencies(js: Seq<JobSpec>, g: Seq<Seq<Seq<char>>>, name: Seq<char>) -> Seq<Seq<char>> {
    match last_named(js, name) {
        Some(k) => g[k],
        None => Seq::empty(),
    }
}

/// The jobs, among the first `k`, not yet created whose dependencies are.
pub open spec fn ready_jobs(js: Seq<JobSpec>, g: Seq<Seq<Seq<char>>>, created: Seq<Seq<char>>, k: int) -> Seq<int>
    decreases k,
{
    if k <= 0 || k > js.len() {
        Seq::empty()
    } else if !created.contains(js[k - 1].name@) && all_in(recorded_dependencies(js, g, js[k - 1].name@), created) {
        ready_jobs(js, g, created, k - 1).push(k - 1)
    } else {
        ready_jobs(js, g, created, k - 1)
    }
}

pub open spec fn all_created(js: Seq<JobSpec>, created: Seq<Seq<char>>) -> bool {
    forall|k: int| 0 <= k < js.len() ==> created.contains(#[trigger] js[k].name@)
}

pub open spec fn names_at(js: Seq<JobSpec>, level: Seq<int>) -> Seq<Seq<char>> {
    level.map_values(|i: int| js[i].name@)
}

/// The levels of creation, from the jobs created so far, round after round
/// (at most `rounds`): each level is every job not created whose
/// dependencies are; a round with none means a cycle.
pub open spec fn creation_levels(js: Seq<JobSpec>, g: Seq<Seq<Seq<char>>>, created: Seq<Seq<char>>, rounds: nat) -> Result<
    Seq<Seq<int>>,
    Seq<char>,
>
    decreases rounds,
{
    if rounds == 0 || all_created(js, created) {
        Ok(Seq::empty())
    } else {
        let level = ready_jobs(js, g, created, js.len() as int);
        if level.len() == 0 {
            Err("Circular dependency detected in job graph"@)
        } else {
            match creation_levels(js, g, created + names_at(js, level), (rounds - 1) as nat) {
                Ok(rest) => Ok(seq![level] + rest),
                Err(e) => Err(e),
            }
        }
    }
}

pub open spec fn after_levels(done: Seq<Seq<int>>, r: Result<Seq<Seq<int>>, Seq<char>>) -> Result<Seq<Seq<int>>, Seq<char>> {
    match r {
        Ok(rest) => Ok(done + rest),
        Err(e) => Err(e),
    }
}

pub open spec fn levels_view(v: Seq<Vec<usize>>) -> Seq<Seq<int>> {
    v.map_values(|l: Vec<usize>| l@.map_values(|i: usize| i as int))
}

fn last_named_exec(js: &Vec<JobSpec>, name: &String) -> (r: Option<usize>)
    ensures
        match r {
            Some(k) => k < js.len() && last_named(js@, name@) == Some(k as int),
            None => last_named(js@, name@) is None,
        },
{
    let nm = chars_of(name.as_str());
    let mut i: usize = js.len();
    proof {
        assert(js@.take(js.len() as int) =~= js@);
    }
    while i > 0
        invariant
            i <= js.len(),
            nm@ == name@,
            last_named(js@, name@) == last_named(js@.take(i as int), name@),
        decreases i,
    {
        proof {
            assert(js@.take(i as int).drop_last() =~= js@.take(i - 1));
            assert(js@.take(i as int).last() == js@[i - 1]);
        }
        if chars_eq(&chars_of(js[i - 1].name.as_str()), &nm) {
            return Some(i - 1);
        }
        i = i - 1;
    }
    None
}

fn all_in_exec(xs: &Vec<String>, set: &Vec<String>) -> (b: bool)
    ensures
        b == all_in(strs_view(xs@), strs_view(set@)),
{
    let mut i: usize = 0;
    while i < xs.len()
        invariant
            i <= xs.len(),
            forall|k: int| 0 <= k < i ==> strs_view(set@).contains(#[trigger] strs_view(xs@)[k]),
        decreases xs.len() - i,
    {
        if !contains_str(set, &xs[i]) {
            proof {
                assert(!strs_view(set@).contains(strs_view(xs@)[i as int]));
            }
            return false;
        }
        i = i + 1;
    }
    true
}

fn ready_jobs_exec(js: &Vec<JobSpec>, g: &Vec<Vec<String>>, created: &Vec<String>) -> (r: Vec<usize>)
    requires
        g.len() == js.len(),
    ensures
        r@.map_values(|i: usize| i as int) == ready_jobs(
            js@,
            g@.map_values(|d: Vec<String>| strs_view(d@)),
            strs_view(created@),
            js.len() as int,
        ),
        forall|k: int| 0 <= k < r.len() ==> r@[k] < js.len(),
{
    let ghost gv = g@.map_values(|d: Vec<String>| strs_view(d@));
    let mut r: Vec<usize> = Vec::new();
    let mut k: usize = 0;
    while k < js.len()
        invariant
            k <= js.len(),
            g.len() == js.len(),
            gv == g@.map_values(|d: Vec<String>| strs_view(d@)),
            r@.map_values(|i: usize| i as int) == ready_jobs(js@, gv, strs_view(created@), k as int),
            forall|q: int| 0 <= q < r.len() ==> r@[q] < js.len(),
        decreases js.len() - k,
    {
        let ready = if contains_str(created, &js[k].name) {
            false
        } else {
            match last_named_exec(js, &js[k].name) {
                Some(q) => all_in_exec(&g[q], created),
                None => {
                    proof {
                        assert(all_in(Seq::<Seq<char>>::empty(), strs_view(created@)));
                    }
                    true
                },
            }
        };
        if ready {
            let ghost prev = r@;
            r.push(k);
            proof {
                assert(r@.map_values(|i: usize| i as int) =~= prev.map_values(|i: usize| i as int).push(k as int));
            }
        }
        k = k + 1;
    }
    r
}

/// The levels in which to create the jobs: each level holds the jobs (by
/// position) whose dependencies are all in earlier levels.
pub fn topological_sort_jobs(jobs: &Vec<JobSpec>, graph: &Vec<Vec<String>>) -> (r: Result<Vec<Vec<usize>>, String>)
    requires
        graph.len() == jobs.len(),
    ensures
        match r {
            Ok(levels) => creation_levels(
                jobs@,
                graph@.map_values(|d: Vec<String>| strs_view(d@)),
                Seq::empty(),
                jobs.len() as nat,
            ) == Ok::<Seq<Seq<int>>, Seq<char>>(levels_view(levels@)),
            Err(e) => creation_levels(
                jobs@,
                graph@.map_values(|d: Vec<String>| strs_view(d@)),
                Seq::empty(),
                jobs.len() as nat,
            ) == Err::<Seq<Seq<int>>, Seq<char>>(e@),
        },
{
    let ghost gv = graph@.map_values(|d: Vec<String>| strs_view(d@));
    let mut levels: Vec<Vec<usize>> = Vec::new();
    let mut created: Vec<String> = Vec::new();
    let mut rounds: usize = jobs.len();
    proof {
        assert(strs_view(created@) =~= Seq::<Seq<char>>::empty());
        assert(levels_view(levels@) =~= Seq::<Seq<int>>::empty());
        assert(after_levels(Seq::empty(), creation_levels(jobs@, gv, Seq::empty(), jobs.len() as nat)) =~~= creation_levels(
            jobs@,
            gv,
            Seq::empty(),
            jobs.len() as nat,
        ));
    }
    loop
        invariant
            graph.len() == jobs.len(),
            gv == graph@.map_values(|d: Vec<String>| strs_view(d@)),
            creation_levels(jobs@, gv, Seq::empty(), jobs.len() as nat) == after_levels(
                levels_view(levels@),
                creation_levels(jobs@, gv, strs_view(created@), rounds as nat),
            ),
        decreases rounds,
    {
        let mut done = true;
        let mut k: usize = 0;
        while k < jobs.len() && done
            invariant
                k <= jobs.len(),
                done ==> forall|q: int| 0 <= q < k ==> strs_view(created@).contains(#[trigger] jobs@[q].name@),
                !done ==> !all_created(jobs@, strs_view(created@)),
            decreases jobs.len() - k,
        {
            if !contains_str(&created, &jobs[k].name) {
                done = false;
            }
            k = k + 1;
        }
        if rounds == 0 || done {
            proof {
                assert(levels_view(levels@) + Seq::<Seq<int>>::empty() =~= levels_view(levels@));
            }
            return Ok(levels);
        }
        let level = ready_jobs_exec(jobs, graph, &created);
        proof {
            assert(level@.map_values(|i: usize| i as int).len() == level@.len());
        }
        if level.len() == 0 {
            return Err(crate::text::lit("Circular dependency detected in job graph"));
        }
        let ghost before_created = strs_view(created@);
        let mut m: usize = 0;
        while m < level.len()
            invariant
                m <= level.len(),
                forall|q: int| 0 <= q < level.len() ==> level@[q] < jobs.len(),
                strs_view(created@) == before_created + names_at(jobs@, level@.map_values(|i: usize| i as int)).take(m as int),
            decreases level.len() - m,
        {
            push_str(&mut created, copy_string(&jobs[level[m]].name));
            proof {
                assert(strs_view(created@) =~= before_created + names_at(jobs@, level@.map_values(|i: usize| i as int)).take(
                    m + 1,
                ));
            }
            m = m + 1;
        }
        proof {
            assert(names_at(jobs@, level@.map_values(|i: usize| i as int)).take(level.len() as int) =~= names_at(
                jobs@,
                level@.map_values(|i: usize| i as int),
            ));
        }
        let ghost prev = levels@;
        let ghost lv = level@.map_values(|i: usize| i as int);
        levels.push(level);
        proof {
            assert(levels_view(levels@) =~= levels_view(prev).push(lv));
            match creation_levels(jobs@, gv, strs_view(created@), (rounds - 1) as nat) {
                Ok(rest) => {
                    assert(levels_view(prev) + (seq![lv] + rest) =~= levels_view(levels@) + rest);
                },
                Err(_) => {},
            }
        }
        rounds = rounds - 1;
    }
}

// ---------------------------------------------------------------------------
// Names to ids
// ---------------------------------------------------------------------------

/// Ids by name, as the server gave them.
pub type IdMap = Vec<(String, i64)>;

pub open spec fn ids_view(m: Seq<(String, i64)>) -> Seq<(Seq<char>, i64)> {
    m.map_values(|e: (String, i64)| (e.0@, e.1))
}

/// The id of the first entry named `name`.
pub open spec fn lookup_id(m: Seq<(Seq<char>, i64)>, name: Seq<char>) -> Option<i64>
    decreases m.len(),
{
    if m.len() == 0 {
        None
    } else if m[0].0 == name {
        Some(m[0].1)
    } else {
        lookup_id(m.drop_first(), name)
    }
}

pub open spec fn lower(s: Seq<char>) -> Seq<char> {
    s.map_values(|c: char| ascii_lower(c))
}

/// The ids of the names, in order, or the error for the first unknown one.
pub open spec fn exact_ids(names: Seq<Seq<char>>, m: Seq<(Seq<char>, i64)>, kind: Seq<char>, job: Seq<char>) -> Result<
    Seq<i64>,
    Seq<char>,
>
    decreases names.len(),
{
    if names.len() == 0 {
        Ok(Seq::empty())
    } else {
        match exact_ids(names.drop_last(), m, kind, job) {
            Err(e) => Err(e),
            Ok(ids) => match lookup_id(m, names.last()) {
                Some(id) => Ok(ids.push(id)),
                None => Err(kind + " '"@ + names.last() + "' not found for job '"@ + job + "'"@),
            },
        }
    }
}

/// The ids of the entries whose names `pattern` matches, in order, each
/// added unless the ids so far (with those added before it) hold it.
pub open spec fn added_ids(m: Seq<(Seq<char>, i64)>, pattern: Seq<char>, ids: Seq<i64>) -> Seq<i64>
    decreases m.len(),
{
    if m.len() == 0 {
        Seq::empty()
    } else {
        let before = added_ids(m.drop_last(), pattern, ids);
        if regex_matches(pattern, m.last().0) && !(ids + before).contains(m.last().1) {
            before.push(m.last().1)
        } else {
            before
        }
    }
}

/// The ids after the first `k` patterns, or the error.
pub open spec fn pattern_ids(
    patterns: Seq<Seq<char>>,
    m: Seq<(Seq<char>, i64)>,
    kind: Seq<char>,
    job: Seq<char>,
    ids: Seq<i64>,
) -> Result<Seq<i64>, Seq<char>>
    decreases patterns.len(),
{
    if patterns.len() == 0 {
        Ok(ids)
    } else {
        match pattern_ids(patterns.drop_last(), m, kind, job, ids) {
            Err(e) => Err(e),
            Ok(so_far) => {
                let p = patterns.last();
                match regex_compile_error(p) {
                    Some(e) => Err("Invalid regex '"@ + p + "' for "@ + lower(kind) + " in job '"@ + job + "': "@ + e),
                    None => {
                        let added = added_ids(m, p, so_far);
                        if added.len() == 0 {
                            Err(kind + " regex '"@ + p + "' did not match any names for job '"@ + job + "'"@)
                        } else {
                            Ok(so_far + added)
                        }
                    },
                }
            },
        }
    }
}

/// The ids of the exact names, then of the names the patterns match.
pub open spec fn resolved_ids(
    exact: Option<Vec<String>>,
    patterns: Option<Vec<String>>,
    m: Seq<(Seq<char>, i64)>,
    kind: Seq<char>,
    job: Seq<char>,
) -> Result<Seq<i64>, Seq<char>> {
    match exact_ids(or_none(exact), m, kind, job) {
        Err(e) => Err(e),
        Ok(ids) => pattern_ids(or_none(patterns), m, kind, job, ids),
    }
}

pub(crate) fn lookup_id_exec(m: &IdMap, name: &String) -> (r: Option<i64>)
    ensures
        r == lookup_id(ids_view(m@), name@),
{
    let nm = chars_of(name.as_str());
    let mut i: usize = 0;
    proof {
        assert(ids_view(m@).skip(0) =~= ids_view(m@));
    }
    while i < m.len()
        invariant
            i <= m.len(),
            nm@ == name@,
            lookup_id(ids_view(m@), name@) == lookup_id(ids_view(m@).skip(i as int), name@),
        decreases m.len() - i,
    {
        proof {
            assert(ids_view(m@).skip(i as int).drop_first() =~= ids_view(m@).skip(i + 1));
            assert(ids_view(m@).skip(i as int)[0] == (m@[i as int].0@, m@[i as int].1));
        }
        if chars_eq(&chars_of(m[i].0.as_str()), &nm) {
            return Some(m[i].1);
        }
        i = i + 1;
    }
    None
}

fn contains_id(ids: &Vec<i64>, id: i64) -> (b: bool)
    ensures
        b == ids@.contains(id),
{
    let mut i: usize = 0;
    while i < ids.len()
        invariant
            i <= ids.len(),
            forall|k: int| 0 <= k < i ==> ids@[k] != id,
        decreases ids.len() - i,
    {
        if ids[i] == id {
            return true;
        }
        i = i + 1;
    }
    false
}

fn lower_exec(s: &str) -> (r: String)
    ensures
        r@ == lower(s@),
{
    let v = chars_of(s);
    let mut out: Vec<char> = Vec::new();
    let mut i: usize = 0;
    while i < v.len()
        invariant
            i <= v.len(),
            out@ == lower(v@).take(i as int),
        decreases v.len() - i,
    {
        out.push(crate::models::lower_char(v[i]));
        proof {
            assert(out@ =~= lower(v@).take(i + 1));
        }
        i = i + 1;
    }
    proof {
        assert(lower(v@).take(v.len() as int) =~= lower(v@));
    }
    string_of(&out)
}

proof fn lemma_ids_concat_contains(a: Seq<i64>, b: Seq<i64>, x: i64)
    ensures
        (a + b).contains(x) <==> (a.contains(x) || b.contains(x)),
{
    if (a + b).contains(x) {
        let q = choose|q: int| 0 <= q < (a + b).len() && (a + b)[q] == x;
        if q < a.len() {
            assert(a[q] == x);
        } else {
            assert(b[q - a.len()] == x);
        }
    }
    if a.contains(x) {
        let q = choose|q: int| 0 <= q < a.len() && a[q] == x;
        assert((a + b)[q] == x);
    }
    if b.contains(x) {
        let q = choose|q: int| 0 <= q < b.len() && b[q] == x;
        assert((a + b)[a.len() + q] == x);
    }
}

proof fn lemma_exact_error_persists(names: Seq<Seq<char>>, m: Seq<(Seq<char>, i64)>, kind: Seq<char>, job: Seq<char>, k: int)
    requires
        0 <= k <= names.len(),
        exact_ids(names.take(k), m, kind, job) is Err,
    ensures
        exact_ids(names, m, kind, job) == exact_ids(names.take(k), m, kind, job),
    decreases names.len() - k,
{
    if k < names.len() {
        assert(names.take(k + 1).drop_last() =~= names.take(k));
        lemma_exact_error_persists(names, m, kind, job, k + 1);
    } else {
        assert(names.take(k) =~= names);
    }
}

proof fn lemma_pattern_ids_error_persists(
    patterns: Seq<Seq<char>>,
    m: Seq<(Seq<char>, i64)>,
    kind: Seq<char>,
    job: Seq<char>,
    ids: Seq<i64>,
    k: int,
)
    requires
        0 <= k <= patterns.len(),
        pattern_ids(patterns.take(k), m, kind, job, ids) is Err,
    ensures
        pattern_ids(patterns, m, kind, job, ids) == pattern_ids(patterns.take(k), m, kind, job, ids),
    decreases patterns.len() - k,
{
    if k < patterns.len() {
        assert(patterns.take(k + 1).drop_last() =~= patterns.take(k));
        lemma_pattern_ids_error_persists(patterns, m, kind, job, ids, k + 1);
    } else {
        assert(patterns.take(k) =~= patterns);
    }
}

/// The ids of the entries whose names `re` matches, in order, each added
/// unless `ids` or the ids added before it hold it.
pub(crate) fn ids_matching(re: &CompiledRegex, name_to_id: &IdMap, ids: &Vec<i64>) -> (added: Vec<i64>)
    ensures
        added@ == added_ids(ids_view(name_to_id@), re.pattern(), ids@),
{
    let ghost mv = ids_view(name_to_id@);
    let mut added: Vec<i64> = Vec::new();
    let mut m: usize = 0;
    proof {
        assert(mv.take(0) =~= Seq::<(Seq<char>, i64)>::empty());
    }
    while m < name_to_id.len()
        invariant
            m <= name_to_id.len(),
            mv == ids_view(name_to_id@),
            added@ == added_ids(mv.take(m as int), re.pattern(), ids@),
        decreases name_to_id.len() - m,
    {
        proof {
            assert(mv.take(m + 1).drop_last() =~= mv.take(m as int));
            assert(mv.take(m + 1).last() == (name_to_id@[m as int].0@, name_to_id@[m as int].1));
            lemma_ids_concat_contains(ids@, added@, name_to_id@[m as int].1);
        }
        if regex_is_match(re, name_to_id[m].0.as_str()) && !contains_id(ids, name_to_id[m].1) && !contains_id(
            &added,
            name_to_id[m].1,
        ) {
            added.push(name_to_id[m].1);
        }
        m = m + 1;
    }
    proof {
        assert(mv.take(name_to_id.len() as int) =~= mv);
    }
    added
}

/// The ids of a job's exact names, then of the names its patterns match
/// (each id once); an unknown name, an invalid pattern or one that matches
/// nothing new is an error naming the kind of record and the job.
pub fn resolve_names_and_regexes(
    exact_names: &Option<Vec<String>>,
    regex_patterns: &Option<Vec<String>>,
    name_to_id: &IdMap,
    resource_type: &str,
    job_name: &str,
) -> (r: Result<Vec<i64>, String>)
    ensures
        match r {
            Ok(ids) => resolved_ids(*exact_names, *regex_patterns, ids_view(name_to_id@), resource_type@, job_name@)
                == Ok::<Seq<i64>, Seq<char>>(ids@),
            Err(e) => resolved_ids(*exact_names, *regex_patterns, ids_view(name_to_id@), resource_type@, job_name@)
                == Err::<Seq<i64>, Seq<char>>(e@),
        },
{
    let ghost mv = ids_view(name_to_id@);
    let mut ids: Vec<i64> = Vec::new();
    match exact_names {
        Some(v) => {
            let ghost nv = strs_view(v@);
            let mut i: usize = 0;
            proof {
                assert(nv.take(0) =~= Seq::<Seq<char>>::empty());
            }
            while i < v.len()
                invariant
                    i <= v.len(),
                    nv == strs_view(v@),
                    mv == ids_view(name_to_id@),
                    *exact_names == Some(*v),
                    exact_ids(nv.take(i as int), mv, resource_type@, job_name@) == Ok::<Seq<i64>, Seq<char>>(ids@),
                decreases v.len() - i,
            {
                proof {
                    assert(nv.take(i + 1).drop_last() =~= nv.take(i as int));
                    assert(nv.take(i + 1).last() == v@[i as int]@);
                }
                match lookup_id_exec(name_to_id, &v[i]) {
                    Some(id) => {
                        ids.push(id);
                    },
                    None => {
                        proof {
                            lemma_exact_error_persists(nv, mv, resource_type@, job_name@, i + 1);
                        }
                        let mut msg = chars_of(resource_type);
                        extend_str(&mut msg, " '");
                        extend_str(&mut msg, v[i].as_str());
                        extend_str(&mut msg, "' not found for job '");
                        extend_str(&mut msg, job_name);
                        extend_str(&mut msg, "'");
                        return Err(string_of(&msg));
                    },
                }
                i = i + 1;
            }
            proof {
                assert(nv.take(v.len() as int) =~= nv);
            }
        },
        None => {},
    }
    let ghost start_ids = ids@;
    match regex_patterns {
        Some(ps) => {
            let ghost pv = strs_view(ps@);
            let mut i: usize = 0;
            proof {
                assert(pv.take(0) =~= Seq::<Seq<char>>::empty());
            }
            while i < ps.len()
                invariant
                    i <= ps.len(),
                    pv == strs_view(ps@),
                    mv == ids_view(name_to_id@),
                    *regex_patterns == Some(*ps),
                    exact_ids(or_none(*exact_names), mv, resource_type@, job_name@) == Ok::<Seq<i64>, Seq<char>>(start_ids),
                    pattern_ids(pv.take(i as int), mv, resource_type@, job_name@, start_ids) == Ok::<Seq<i64>, Seq<char>>(ids@),
                decreases ps.len() - i,
            {
                proof {
                    assert(pv.take(i + 1).drop_last() =~= pv.take(i as int));
                    assert(pv.take(i + 1).last() == ps@[i as int]@);
                }
                let re = match compile_regex(ps[i].as_str()) {
                    Ok(re) => re,
                    Err(e) => {
                        proof {
                            lemma_pattern_ids_error_persists(pv, mv, resource_type@, job_name@, start_ids, i + 1);
                        }
                        let lowered = lower_exec(resource_type);
                        let mut msg = chars_of("Invalid regex '");
                        extend_str(&mut msg, ps[i].as_str());
                        extend_str(&mut msg, "' for ");
                        extend_str(&mut msg, lowered.as_str());
                        extend_str(&mut msg, " in job '");
                        extend_str(&mut msg, job_name);
                        extend_str(&mut msg, "': ");
                        extend_str(&mut msg, e.as_str());
                        return Err(string_of(&msg));
                    },
                };
                let ghost before = ids@;
                let added = ids_matching(&re, name_to_id, &ids);
                if added.len() == 0 {
                    proof {
                        lemma_pattern_ids_error_persists(pv, mv, resource_type@, job_name@, start_ids, i + 1);
                    }
                    let mut msg = chars_of(resource_type);
                    extend_str(&mut msg, " regex '");
                    extend_str(&mut msg, ps[i].as_str());
                    extend_str(&mut msg, "' did not match any names for job '");
                    extend_str(&mut msg, job_name);
                    extend_str(&mut msg, "'");
                    return Err(string_of(&msg));
                }
                let mut k: usize = 0;
                while k < added.len()
                    invariant
                        k <= added.len(),
                        ids@ == before + added@.take(k as int),
                    decreases added.len() - k,
                {
                    ids.push(added[k]);
                    proof {
                        assert(ids@ =~= before + added@.take(k + 1));
                    }
                    k = k + 1;
                }
                proof {
                    assert(added@.take(added.len() as int) =~= added@);
                }
                i = i + 1;
            }
            proof {
                assert(pv.take(ps.len() as int) =~= pv);
            }
        },
        None => {},
    }
    Ok(ids)
}

// ---------------------------------------------------------------------------
// Job records
// ---------------------------------------------------------------------------

/// The ids of what a workflow's jobs reference, by name.
pub struct IdMaps {
    pub files: IdMap,
    pub user_data: IdMap,
    pub resource_requirements: IdMap,
    pub schedulers: IdMap,
    pub failure_handlers: IdMap,
    /// The jobs created so far.
    pub jobs: IdMap,
}

pub open spec fn nonempty_ids(ids: Seq<i64>) -> Option<Seq<i64>> {
    if ids.len() == 0 {
        None
    } else {
        Some(ids)
    }
}

pub open spec fn opt_ids(o: Option<Vec<i64>>) -> Option<Seq<i64>> {
    match o {
        Some(v) => Some(v@),
        None => None,
    }
}

/// The error of a reference by name to a record that has no id.
pub open spec fn missing_named(o: Option<String>, m: Seq<(Seq<char>, i64)>, kind: Seq<char>, job: Seq<char>) -> Option<Seq<char>> {
    match o {
        Some(n) => if lookup_id(m, n@) is None {
            Some(kind + " '"@ + n@ + "' not found for job '"@ + job + "'"@)
        } else {
            None
        },
        None => None,
    }
}

pub open spec fn named_id(o: Option<String>, m: Seq<(Seq<char>, i64)>) -> Option<i64> {
    match o {
        Some(n) => lookup_id(m, n@),
        None => None,
    }
}

/// The ids of the dependencies, while each has one.
pub open spec fn dependency_ids(deps: Seq<Seq<char>>, jobs: Seq<(Seq<char>, i64)>) -> Result<Seq<i64>, Seq<char>>
    decreases deps.len(),
{
    if deps.len() == 0 {
        Ok(Seq::empty())
    } else {
        match dependency_ids(deps.drop_last(), jobs) {
            Err(d) => Err(d),
            Ok(ids) => match lookup_id(jobs, deps.last()) {
                Some(id) => Ok(ids.push(id)),
                None => Err(deps.last()),
            },
        }
    }
}

pub open spec fn err_of(r: Result<Seq<i64>, Seq<char>>) -> Option<Seq<char>> {
    match r {
        Ok(_) => None,
        Err(e) => Some(e),
    }
}

pub open spec fn ok_of(r: Result<Seq<i64>, Seq<char>>) -> Seq<i64> {
    match r {
        Ok(ids) => ids,
        Err(_) => Seq::empty(),
    }
}

pub open spec fn first_issue(a: Option<Seq<char>>, b: Option<Seq<char>>) -> Option<Seq<char>> {
    if a is Some {
        a
    } else {
        b
    }
}

pub open spec fn input_file_ids_of(j: JobSpec, mv: Seq<Seq<(Seq<char>, i64)>>) -> Result<Seq<i64>, Seq<char>> {
    resolved_ids(j.input_files, j.input_file_regexes, mv[0], "Input file"@, j.name@)
}

pub open spec fn output_file_ids_of(j: JobSpec, mv: Seq<Seq<(Seq<char>, i64)>>) -> Result<Seq<i64>, Seq<char>> {
    resolved_ids(j.output_files, j.output_file_regexes, mv[0], "Output file"@, j.name@)
}

pub open spec fn input_user_data_ids_of(j: JobSpec, mv: Seq<Seq<(Seq<char>, i64)>>) -> Result<Seq<i64>, Seq<char>> {
    resolved_ids(j.input_user_data, j.input_user_data_regexes, mv[1], "Input user data"@, j.name@)
}

pub open spec fn output_user_data_ids_of(j: JobSpec, mv: Seq<Seq<(Seq<char>, i64)>>) -> Result<Seq<i64>, Seq<char>> {
    resolved_ids(j.output_user_data, j.output_user_data_regexes, mv[1], "Output user data"@, j.name@)
}

/// The maps as one sequence: files, user data, resource requirements,
/// schedulers, failure handlers, jobs.
pub open spec fn maps_view(m: IdMaps) -> Seq<Seq<(Seq<char>, i64)>> {
    seq![
        ids_view(m.files@),
        ids_view(m.user_data@),
        ids_view(m.resource_requirements@),
        ids_view(m.schedulers@),
        ids_view(m.failure_handlers@),
        ids_view(m.jobs@),
    ]
}

/// The first reason the record of job `j` cannot be made.
pub open spec fn job_model_issue(j: JobSpec, mv: Seq<Seq<(Seq<char>, i64)>>, deps: Seq<Seq<char>>) -> Option<Seq<char>> {
    let name = j.name@;
    first_issue(
        err_of(input_file_ids_of(j, mv)),
        first_issue(
            err_of(output_file_ids_of(j, mv)),
            first_issue(
                err_of(input_user_data_ids_of(j, mv)),
                first_issue(
                    err_of(output_user_data_ids_of(j, mv)),
                    first_issue(
                        missing_named(j.resource_requirements, mv[2], "Resource requirements"@, name),
                        first_issue(
                            missing_named(j.scheduler, mv[3], "Scheduler"@, name),
                            first_issue(
                                missing_named(j.failure_handler, mv[4], "Failure handler"@, name),
                                first_issue(
                                    match dependency_ids(deps, mv[5]) {
                                        Err(d) => Some(
                                            "Dependency '"@ + d + "' not found for job '"@ + name + "' (not yet created)"@,
                                        ),
                                        Ok(_) => None,
                                    },
                                    match j.priority {
                                        Some(p) => if p < 0 {
                                            Some("priority must be >= 0, got "@ + int_text(p as int) + " for job '"@ + name + "'"@)
                                        } else {
                                            None
                                        },
                                        None => None,
                                    },
                                ),
                            ),
                        ),
                    ),
                ),
            ),
        ),
    )
}

/// `m` is the record of job `j` of workflow `wid`.
pub open spec fn job_model_of(m: JobModel, wid: i64, j: JobSpec, mv: Seq<Seq<(Seq<char>, i64)>>, deps: Seq<Seq<char>>) -> bool {
    &&& m.id is None
    &&& m.workflow_id == wid
    &&& m.name@ == j.name@
    &&& m.command@ == j.command@
    &&& crate::combinations::opt_view(m.invocation_script) == crate::combinations::opt_view(j.invocation_script)
    &&& crate::workflow_spec::opt_map_view(m.env) == match j.env {
        Some(e) => if e.len() == 0 {
            None
        } else {
            crate::workflow_spec::opt_map_view(j.env)
        },
        None => None,
    }
    &&& m.status == Some(JobStatus::Uninitialized)
    &&& m.start_time is None
    &&& m.compute_node_id is None
    &&& m.schedule_compute_nodes is None
    &&& m.cancel_on_blocking_job_failure == if j.cancel_on_blocking_job_failure is Some {
        j.cancel_on_blocking_job_failure
    } else {
        Some(true)
    }
    &&& m.supports_termination == Some(false)
    &&& opt_ids(m.input_file_ids) == nonempty_ids(ok_of(input_file_ids_of(j, mv)))
    &&& opt_ids(m.output_file_ids) == nonempty_ids(ok_of(output_file_ids_of(j, mv)))
    &&& opt_ids(m.input_user_data_ids) == nonempty_ids(ok_of(input_user_data_ids_of(j, mv)))
    &&& opt_ids(m.output_user_data_ids) == nonempty_ids(ok_of(output_user_data_ids_of(j, mv)))
    &&& m.resource_requirements_id == named_id(j.resource_requirements, mv[2])
    &&& m.scheduler_id == named_id(j.scheduler, mv[3])
    &&& m.failure_handler_id == named_id(j.failure_handler, mv[4])
    &&& opt_ids(m.depends_on_job_ids) == nonempty_ids(ok_of(dependency_ids(deps, mv[5])))
    &&& m.attempt_id == Some(1i64)
    &&& m.priority == j.priority
    &&& m.origin is None
}

fn named_id_exec(o: &Option<String>, m: &IdMap, kind: &str, job: &str) -> (r: Result<Option<i64>, String>)
    ensures
        match r {
            Ok(id) => missing_named(*o, ids_view(m@), kind@, job@) is None && id == named_id(*o, ids_view(m@)),
            Err(e) => missing_named(*o, ids_view(m@), kind@, job@) == Some(e@),
        },
{
    match o {
        Some(n) => match lookup_id_exec(m, n) {
            Some(id) => Ok(Some(id)),
            None => {
                let mut msg = chars_of(kind);
                extend_str(&mut msg, " '");
                extend_str(&mut msg, n.as_str());
                extend_str(&mut msg, "' not found for job '");
                extend_str(&mut msg, job);
                extend_str(&mut msg, "'");
                Err(string_of(&msg))
            },
        },
        None => Ok(None),
    }
}

fn dependency_ids_exec(deps: &Vec<String>, jobs: &IdMap) -> (r: Result<Vec<i64>, String>)
    ensures
        match r {
            Ok(ids) => dependency_ids(strs_view(deps@), ids_view(jobs@)) == Ok::<Seq<i64>, Seq<char>>(ids@),
            Err(d) => dependency_ids(strs_view(deps@), ids_view(jobs@)) == Err::<Seq<i64>, Seq<char>>(d@),
        },
{
    let ghost dv = strs_view(deps@);
    let mut ids: Vec<i64> = Vec::new();
    let mut i: usize = 0;
    proof {
        assert(dv.take(0) =~= Seq::<Seq<char>>::empty());
    }
    while i < deps.len()
        invariant
            i <= deps.len(),
            dv == strs_view(deps@),
            dependency_ids(dv.take(i as int), ids_view(jobs@)) == Ok::<Seq<i64>, Seq<char>>(ids@),
        decreases deps.len() - i,
    {
        proof {
            assert(dv.take(i + 1).drop_last() =~= dv.take(i as int));
            assert(dv.take(i + 1).last() == deps@[i as int]@);
        }
        match lookup_id_exec(jobs, &deps[i]) {
            Some(id) => ids.push(id),
            None => {
                proof {
                    lemma_dependency_error_persists(dv, ids_view(jobs@), i + 1);
                }
                return Err(copy_string(&deps[i]));
            },
        }
        i = i + 1;
    }
    proof {
        assert(dv.take(deps.len() as int) =~= dv);
    }
    Ok(ids)
}

proof fn lemma_dependency_error_persists(deps: Seq<Seq<char>>, jobs: Seq<(Seq<char>, i64)>, k: int)
    requires
        0 <= k <= deps.len(),
        dependency_ids(deps.take(k), jobs) is Err,
    ensures
        dependency_ids(deps, jobs) == dependency_ids(deps.take(k), jobs),
    decreases deps.len() - k,
{
    if k < deps.len() {
        assert(deps.take(k + 1).drop_last() =~= deps.take(k));
        lemma_dependency_error_persists(deps, jobs, k + 1);
    } else {
        assert(deps.take(k) =~= deps);
    }
}

fn copy_ids(v: &Vec<i64>) -> (r: Option<Vec<i64>>)
    ensures
        opt_ids(r) == nonempty_ids(v@),
{
    if v.len() == 0 {
        None
    } else {
        let mut c: Vec<i64> = Vec::new();
        let mut i: usize = 0;
        while i < v.len()
            invariant
                i <= v.len(),
                c@ == v@.take(i as int),
            decreases v.len() - i,
        {
            c.push(v[i]);
            proof {
                assert(c@ =~= v@.take(i + 1));
            }
            i = i + 1;
        }
        proof {
            assert(v@.take(v.len() as int) =~= v@);
        }
        Some(c)
    }
}

/// The record to create for job `j` of workflow `workflow_id`, its names
/// resolved to ids (`deps` are its dependencies, all created already), or
/// the first reason it cannot be made.
#[verifier::rlimit(50)]
pub fn job_model_for(workflow_id: i64, j: &JobSpec, maps: &IdMaps, deps: &Vec<String>) -> (r: Result<JobModel, String>)
    ensures
        match r {
            Ok(m) => job_model_issue(*j, maps_view(*maps), strs_view(deps@)) is None && job_model_of(
                m,
                workflow_id,
                *j,
                maps_view(*maps),
                strs_view(deps@),
            ),
            Err(e) => job_model_issue(*j, maps_view(*maps), strs_view(deps@)) == Some(e@),
        },
{
    let ghost mv = maps_view(*maps);
    let name = j.name.as_str();
    let input_files = resolve_names_and_regexes(&j.input_files, &j.input_file_regexes, &maps.files, "Input file", name)?;
    let output_files = resolve_names_and_regexes(&j.output_files, &j.output_file_regexes, &maps.files, "Output file", name)?;
    let input_user_data = resolve_names_and_regexes(&j.input_user_data, &j.input_user_data_regexes, &maps.user_data, "Input user data", name)?;
    let output_user_data = resolve_names_and_regexes(&j.output_user_data, &j.output_user_data_regexes, &maps.user_data, "Output user data", name)?;
    let requirements = named_id_exec(&j.resource_requirements, &maps.resource_requirements, "Resource requirements", name)?;
    let scheduler = named_id_exec(&j.scheduler, &maps.schedulers, "Scheduler", name)?;
    let handler = named_id_exec(&j.failure_handler, &maps.failure_handlers, "Failure handler", name)?;
    let dep_ids = match dependency_ids_exec(deps, &maps.jobs) {
        Ok(ids) => ids,
        Err(d) => {
            let mut msg = chars_of("Dependency '");
            extend_str(&mut msg, d.as_str());
            extend_str(&mut msg, "' not found for job '");
            extend_str(&mut msg, name);
            extend_str(&mut msg, "' (not yet created)");
            return Err(string_of(&msg));
        },
    };
    match j.priority {
        Some(p) => {
            if p < 0 {
                let mut msg = chars_of("priority must be >= 0, got ");
                extend_str(&mut msg, i64_to_string(p).as_str());
                extend_str(&mut msg, " for job '");
                extend_str(&mut msg, name);
                extend_str(&mut msg, "'");
                return Err(string_of(&msg));
            }
        },
        None => {},
    }
    let mut m = JobModel::new(workflow_id, copy_string(&j.name), copy_string(&j.command));
    m.invocation_script = match &j.invocation_script {
        Some(s) => Some(copy_string(s)),
        None => None,
    };
    m.env = match &j.env {
        Some(e) => if e.len() == 0 {
            None
        } else {
            Some(crate::workflow_spec::copy_map(e))
        },
        None => None,
    };
    if j.cancel_on_blocking_job_failure.is_some() {
        m.cancel_on_blocking_job_failure = j.cancel_on_blocking_job_failure;
    }
    m.input_file_ids = copy_ids(&input_files);
    m.output_file_ids = copy_ids(&output_files);
    m.input_user_data_ids = copy_ids(&input_user_data);
    m.output_user_data_ids = copy_ids(&output_user_data);
    m.resource_requirements_id = requirements;
    m.scheduler_id = scheduler;
    m.failure_handler_id = handler;
    m.depends_on_job_ids = copy_ids(&dep_ids);
    m.priority = j.priority;
    Ok(m)
}

} // verus!
