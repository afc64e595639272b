//! Checking the resources that jobs ask for against the Slurm schedulers
//! that are to run them.
//!
//! A job that names a scheduler must fit it in runtime, memory and GPUs,
//! each on its own; a job that names none must fit at least one scheduler
//! in all three at once. The texts of walltimes, runtimes, memory sizes and
//! `gres` settings are read by the project's parsers; their results come in
//! as `ResourceParses`, one table per parser, keyed by the text read.

use vstd::prelude::*;

use crate::text::{chars_of, extend_chars, extend_str, i128_text, int_text, join, join_strings, str_eq, string_of, trim, trim_chars};
use crate::workflow::WorkflowSpec;
use crate::workflow_spec::{strs_view, JobSpec, ResourceRequirementsSpec, SlurmSchedulerSpec};

verus! {

/// What the project's parsers made of each text: `walltimes` of Slurm
/// walltimes in seconds, `memories` of memory sizes in bytes, `durations`
/// of ISO 8601 runtimes in seconds, and `gpus` of `gres` settings in GPUs
/// (`None` where no GPU count could be read). A text that its table does
/// not hold is not checked.
pub struct ResourceParses {
    pub walltimes: Vec<(String, Result<u64, String>)>,
    pub memories: Vec<(String, Result<i64, String>)>,
    pub durations: Vec<(String, Result<u64, String>)>,
    pub gpus: Vec<(String, Option<u32>)>,
}

/// The parse of `k` in the table `t`, from entry `i` on: the first entry
/// with that text.
pub open spec fn parse_at<T>(t: Seq<(String, T)>, k: Seq<char>, i: nat) -> Option<T>
    decreases t.len() - i,
{
    if i >= t.len() {
        None
    } else if t[i as int].0@ == k {
        Some(t[i as int].1)
    } else {
        parse_at(t, k, i + 1)
    }
}

pub open spec fn parse_of<T>(t: Seq<(String, T)>, k: Seq<char>) -> Option<T> {
    parse_at(t, k, 0)
}

/// The value of a parse that succeeded.
pub open spec fn parsed_u64(p: Option<Result<u64, String>>) -> Option<u64> {
    match p {
        Some(Ok(v)) => Some(v),
        _ => None,
    }
}

pub open spec fn parsed_i64(p: Option<Result<i64, String>>) -> Option<i64> {
    match p {
        Some(Ok(v)) => Some(v),
        _ => None,
    }
}

/// A named scheduler with its limits as read: `None` where a limit is not
/// set or could not be read.
pub struct SchedulerFit {
    pub name: Seq<char>,
    pub walltime: Seq<char>,
    pub mem: Option<Seq<char>>,
    pub gres: Option<Seq<char>>,
    pub walltime_secs: Option<u64>,
    pub memory_bytes: Option<i64>,
    pub gpu_count: Option<u32>,
}

pub open spec fn opt_text(o: Option<String>) -> Option<Seq<char>> {
    match o {
        Some(s) => Some(s@),
        None => None,
    }
}

/// The limits of scheduler `s`, named `name`. A `gres` that is set and not
/// blank gives a GPU count, zero where the parser could read none.
pub open spec fn fit_of(s: SlurmSchedulerSpec, name: Seq<char>, p: ResourceParses) -> SchedulerFit {
    SchedulerFit {
        name,
        walltime: s.walltime@,
        mem: opt_text(s.mem),
        gres: opt_text(s.gres),
        walltime_secs: parsed_u64(parse_of(p.walltimes@, s.walltime@)),
        memory_bytes: match s.mem {
            Some(m) => parsed_i64(parse_of(p.memories@, m@)),
            None => None,
        },
        gpu_count: match s.gres {
            Some(g) => if trim(g@).len() > 0 {
                match parse_of(p.gpus@, g@) {
                    Some(Some(n)) => Some(n),
                    Some(None) => Some(0u32),
                    None => None,
                }
            } else {
                None
            },
            None => None,
        },
    }
}

pub open spec fn sched_walltime_message(name: Seq<char>, walltime: Seq<char>, e: Seq<char>) -> Seq<char> {
    "Scheduler '"@ + name + "': invalid walltime '"@ + walltime + "': "@ + e
}

pub open spec fn sched_memory_message(name: Seq<char>, mem: Seq<char>, e: Seq<char>) -> Seq<char> {
    "Scheduler '"@ + name + "': invalid memory '"@ + mem + "': "@ + e
}

/// The warnings of a named scheduler's limits that could not be read:
/// its walltime's, then its memory's.
pub open spec fn sched_warns(s: SlurmSchedulerSpec, name: Seq<char>, p: ResourceParses) -> Seq<Seq<char>> {
    (match parse_of(p.walltimes@, s.walltime@) {
        Some(Err(e)) => seq![sched_walltime_message(name, s.walltime@, e@)],
        _ => Seq::empty(),
    }) + (match s.mem {
        Some(m) => match parse_of(p.memories@, m@) {
            Some(Err(e)) => seq![sched_memory_message(name, m@, e@)],
            _ => Seq::empty(),
        },
        None => Seq::empty(),
    })
}

/// The limits of the named schedulers among the first `k`, in order.
pub open spec fn fits_upto(ss: Seq<SlurmSchedulerSpec>, p: ResourceParses, k: nat) -> Seq<SchedulerFit>
    decreases k,
{
    if k == 0 || k > ss.len() {
        Seq::empty()
    } else {
        let prev = fits_upto(ss, p, (k - 1) as nat);
        match ss[k - 1].name {
            Some(n) => prev.push(fit_of(ss[k - 1], n@, p)),
            None => prev,
        }
    }
}

/// The warnings of the named schedulers among the first `k`, in order.
pub open spec fn sched_warns_upto(ss: Seq<SlurmSchedulerSpec>, p: ResourceParses, k: nat) -> Seq<Seq<char>>
    decreases k,
{
    if k == 0 || k > ss.len() {
        Seq::empty()
    } else {
        let prev = sched_warns_upto(ss, p, (k - 1) as nat);
        match ss[k - 1].name {
            Some(n) => prev + sched_warns(ss[k - 1], n@, p),
            None => prev,
        }
    }
}

/// The last resource requirements named `name` among the first `k`: the
/// one a lookup by name finds.
pub open spec fn last_req_upto(reqs: Seq<ResourceRequirementsSpec>, name: Seq<char>, k: nat) -> Option<
    ResourceRequirementsSpec,
>
    decreases k,
{
    if k == 0 || k > reqs.len() {
        None
    } else if reqs[k - 1].name@ == name {
        Some(reqs[k - 1])
    } else {
        last_req_upto(reqs, name, (k - 1) as nat)
    }
}

/// The first scheduler named `name` from position `i` on.
pub open spec fn first_fit_at(fits: Seq<SchedulerFit>, name: Seq<char>, i: nat) -> Option<SchedulerFit>
    decreases fits.len() - i,
{
    if i >= fits.len() {
        None
    } else if fits[i as int].name == name {
        Some(fits[i as int])
    } else {
        first_fit_at(fits, name, i + 1)
    }
}

pub open spec fn or_question(o: Option<Seq<char>>) -> Seq<char> {
    match o {
        Some(s) => s,
        None => "?"@,
    }
}

pub open spec fn runtime_over(rt: Option<u64>, f: SchedulerFit) -> bool {
    rt matches Some(r) && f.walltime_secs matches Some(w) && r > w
}

pub open spec fn memory_over(jm: Option<i64>, f: SchedulerFit) -> bool {
    jm matches Some(m) && f.memory_bytes matches Some(s) && m > s
}

pub open spec fn gpus_over(g: i64, f: SchedulerFit) -> bool {
    f.gpu_count matches Some(n) && g > n
}

/// Whether a job fits scheduler `f` in runtime, memory and GPUs at once;
/// a limit that is not known does not stand in the way.
pub open spec fn fits_all(rt: Option<u64>, jm: Option<i64>, g: i64, f: SchedulerFit) -> bool {
    !runtime_over(rt, f) && !memory_over(jm, f) && !gpus_over(g, f)
}

/// Whether one of the first `k` schedulers fits the job in all three.
pub open spec fn some_fit_upto(fits: Seq<SchedulerFit>, rt: Option<u64>, jm: Option<i64>, g: i64, k: nat) -> bool
    decreases k,
{
    if k == 0 || k > fits.len() {
        false
    } else {
        some_fit_upto(fits, rt, jm, g, (k - 1) as nat) || fits_all(rt, jm, g, fits[k - 1])
    }
}

pub open spec fn explicit_runtime_message(
    job: Seq<char>,
    runtime: Seq<char>,
    rt: u64,
    sched: Seq<char>,
    walltime: Seq<char>,
    wt: u64,
) -> Seq<char> {
    "Job '"@ + job + "': runtime '"@ + runtime + "' ("@ + int_text(rt as int) + " s) exceeds scheduler '"@
        + sched + "' walltime '"@ + walltime + "' ("@ + int_text(wt as int) + " s)"@
}

pub open spec fn explicit_memory_message(job: Seq<char>, memory: Seq<char>, sched: Seq<char>, mem: Seq<char>) -> Seq<
    char,
> {
    "Job '"@ + job + "': memory '"@ + memory + "' exceeds scheduler '"@ + sched + "' mem '"@ + mem + "'"@
}

pub open spec fn explicit_gpus_message(job: Seq<char>, g: i64, sched: Seq<char>, gres: Seq<char>) -> Seq<char> {
    "Job '"@ + job + "': num_gpus "@ + int_text(g as int) + " exceeds scheduler '"@ + sched + "' gres '"@ + gres
        + "'"@
}

/// The warnings of a job that names scheduler `f` (called `sched`): one for
/// each of runtime, memory and GPUs that exceeds its limit.
pub open spec fn explicit_warns(
    job: Seq<char>,
    rr: ResourceRequirementsSpec,
    sched: Seq<char>,
    f: SchedulerFit,
    rt: Option<u64>,
    jm: Option<i64>,
) -> Seq<Seq<char>> {
    (if runtime_over(rt, f) {
        seq![explicit_runtime_message(job, rr.runtime@, rt->0, sched, f.walltime, f.walltime_secs->0)]
    } else {
        Seq::empty()
    }) + (if memory_over(jm, f) {
        seq![explicit_memory_message(job, rr.memory@, sched, or_question(f.mem))]
    } else {
        Seq::empty()
    }) + (if gpus_over(rr.num_gpus, f) {
        seq![explicit_gpus_message(job, rr.num_gpus, sched, or_question(f.gres))]
    } else {
        Seq::empty()
    })
}

pub open spec fn mismatch_runtime_message(rt: u64, wt: u64) -> Seq<char> {
    "runtime "@ + int_text(rt as int) + " s > walltime "@ + int_text(wt as int) + " s"@
}

pub open spec fn mismatch_memory_message(memory: Seq<char>, mem: Seq<char>) -> Seq<char> {
    "memory '"@ + memory + "' > mem '"@ + mem + "'"@
}

pub open spec fn mismatch_gpus_message(g: i64, gres: Seq<char>) -> Seq<char> {
    "num_gpus "@ + int_text(g as int) + " > gres '"@ + gres + "'"@
}

/// How a job misses scheduler `f`, dimension by dimension.
pub open spec fn mismatches(rr: ResourceRequirementsSpec, f: SchedulerFit, rt: Option<u64>, jm: Option<i64>) -> Seq<
    Seq<char>,
> {
    (if runtime_over(rt, f) {
        seq![mismatch_runtime_message(rt->0, f.walltime_secs->0)]
    } else {
        Seq::empty()
    }) + (if memory_over(jm, f) {
        seq![mismatch_memory_message(rr.memory@, or_question(f.mem))]
    } else {
        Seq::empty()
    }) + (if gpus_over(rr.num_gpus, f) {
        seq![mismatch_gpus_message(rr.num_gpus, or_question(f.gres))]
    } else {
        Seq::empty()
    })
}

/// For each of the first `k` schedulers that the job misses, its name and
/// the mismatches.
pub open spec fn reasons_upto(
    fits: Seq<SchedulerFit>,
    rr: ResourceRequirementsSpec,
    rt: Option<u64>,
    jm: Option<i64>,
    k: nat,
) -> Seq<Seq<char>>
    decreases k,
{
    if k == 0 || k > fits.len() {
        Seq::empty()
    } else {
        let prev = reasons_upto(fits, rr, rt, jm, (k - 1) as nat);
        let mm = mismatches(rr, fits[k - 1], rt, jm);
        if mm.len() > 0 {
            prev.push("'"@ + fits[k - 1].name + "': "@ + join(mm, ", "@))
        } else {
            prev
        }
    }
}

pub open spec fn no_fit_message(job: Seq<char>, reasons: Seq<Seq<char>>) -> Seq<char> {
    "Job '"@ + job
        + "' has no explicit scheduler and no scheduler can accommodate its resource requirements. Mismatches: ["@
        + join(reasons, "; "@) + "]"@
}

pub open spec fn job_runtime_message(job: Seq<char>, runtime: Seq<char>, e: Seq<char>) -> Seq<char> {
    "Job '"@ + job + "': invalid runtime '"@ + runtime + "': "@ + e
}

pub open spec fn job_memory_message(job: Seq<char>, memory: Seq<char>, e: Seq<char>) -> Seq<char> {
    "Job '"@ + job + "': invalid memory '"@ + memory + "': "@ + e
}

pub open spec fn negative_gpus_message(job: Seq<char>, g: i64) -> Seq<char> {
    "Job '"@ + job + "': invalid negative num_gpus "@ + int_text(g as int)
}

/// The warnings of a job's runtime and memory texts that could not be read.
pub open spec fn unreadable_warns(j: JobSpec, rr: ResourceRequirementsSpec, p: ResourceParses) -> Seq<Seq<char>> {
    (match parse_of(p.durations@, rr.runtime@) {
        Some(Err(e)) => seq![job_runtime_message(j.name@, rr.runtime@, e@)],
        _ => Seq::empty(),
    }) + (match parse_of(p.memories@, rr.memory@) {
        Some(Err(e)) => seq![job_memory_message(j.name@, rr.memory@, e@)],
        _ => Seq::empty(),
    })
}

/// The warnings of a job whose resource requirements are `rr`: those of
/// its runtime and memory that could not be read; then a negative GPU
/// count; else, when it names a scheduler, how it exceeds that one, and
/// when it names none, that no scheduler fits it, with every mismatch.
pub open spec fn req_warns(
    j: JobSpec,
    rr: ResourceRequirementsSpec,
    fits: Seq<SchedulerFit>,
    p: ResourceParses,
) -> Seq<Seq<char>> {
    let rt = parsed_u64(parse_of(p.durations@, rr.runtime@));
    let jm = parsed_i64(parse_of(p.memories@, rr.memory@));
    let pre = unreadable_warns(j, rr, p);
    if rr.num_gpus < 0 {
        pre.push(negative_gpus_message(j.name@, rr.num_gpus))
    } else {
        match j.scheduler {
            Some(sn) => match first_fit_at(fits, sn@, 0) {
                Some(f) => pre + explicit_warns(j.name@, rr, sn@, f, rt, jm),
                None => pre,
            },
            None => if some_fit_upto(fits, rt, jm, rr.num_gpus, fits.len()) {
                pre
            } else {
                pre.push(no_fit_message(j.name@, reasons_upto(fits, rr, rt, jm, fits.len())))
            },
        }
    }
}

/// The warnings of job `j`: none when it asks for no resource
/// requirements, or for ones that are not defined.
pub open spec fn job_warns(
    j: JobSpec,
    reqs: Seq<ResourceRequirementsSpec>,
    fits: Seq<SchedulerFit>,
    p: ResourceParses,
) -> Seq<Seq<char>> {
    match j.resource_requirements {
        None => Seq::empty(),
        Some(rn) => match last_req_upto(reqs, rn@, reqs.len()) {
            None => Seq::empty(),
            Some(rr) => req_warns(j, rr, fits, p),
        },
    }
}

/// The warnings of the first `k` jobs, in order.
pub open spec fn jobs_warns_upto(
    jobs: Seq<JobSpec>,
    reqs: Seq<ResourceRequirementsSpec>,
    fits: Seq<SchedulerFit>,
    p: ResourceParses,
    k: nat,
) -> Seq<Seq<char>>
    decreases k,
{
    if k == 0 || k > jobs.len() {
        Seq::empty()
    } else {
        jobs_warns_upto(jobs, reqs, fits, p, (k - 1) as nat) + job_warns(jobs[k - 1], reqs, fits, p)
    }
}

/// Every warning of a workflow's resource check: none without resource
/// requirements or schedulers; else the schedulers' unreadable limits, then
/// each job's warnings.
pub open spec fn scheduler_resource_warnings(w: WorkflowSpec, p: ResourceParses) -> Seq<Seq<char>> {
    let reqs = match w.resource_requirements {
        Some(v) => v@,
        None => Seq::empty(),
    };
    let ss = match w.slurm_schedulers {
        Some(v) => v@,
        None => Seq::empty(),
    };
    if reqs.len() == 0 || ss.len() == 0 {
        Seq::empty()
    } else {
        let fits = fits_upto(ss, p, ss.len());
        sched_warns_upto(ss, p, ss.len()) + if fits.len() == 0 {
            Seq::empty()
        } else {
            jobs_warns_upto(w.jobs@, reqs, fits, p, w.jobs@.len())
        }
    }
}

/// A named scheduler with its limits as read.
pub struct ParsedScheduler {
    pub name: String,
    pub walltime: String,
    pub mem: Option<String>,
    pub gres: Option<String>,
    pub walltime_secs: Option<u64>,
    pub memory_bytes: Option<i64>,
    pub gpu_count: Option<u32>,
}

impl ParsedScheduler {
    pub open spec fn fit(self) -> SchedulerFit {
        SchedulerFit {
            name: self.name@,
            walltime: self.walltime@,
            mem: opt_text(self.mem),
            gres: opt_text(self.gres),
            walltime_secs: self.walltime_secs,
            memory_bytes: self.memory_bytes,
            gpu_count: self.gpu_count,
        }
    }
}

pub open spec fn fits_view(v: Seq<ParsedScheduler>) -> Seq<SchedulerFit> {
    v.map_values(|x: ParsedScheduler| x.fit())
}

/// The parse of `k` in table `t`.
fn parse_lookup<'a, T>(t: &'a Vec<(String, T)>, k: &str) -> (r: Option<&'a T>)
    ensures
        match r {
            Some(x) => parse_of(t@, k@) == Some(*x),
            None => parse_of(t@, k@) is None,
        },
{
    let mut i: usize = 0;
    while i < t.len()
        invariant
            i <= t@.len(),
            parse_at(t@, k@, 0) == parse_at(t@, k@, i as nat),
        decreases t@.len() - i,
    {
        if str_eq(t[i].0.as_str(), k) {
            return Some(&t[i].1);
        }
        i = i + 1;
    }
    None
}

fn copy_opt(o: &Option<String>) -> (r: Option<String>)
    ensures
        opt_text(r) == opt_text(*o),
{
    match o {
        Some(s) => Some(s.clone()),
        None => None,
    }
}

fn u64_text(x: u64) -> (v: Vec<char>)
    ensures
        v@ == int_text(x as int),
{
    i128_text(x as i128)
}

fn i64_text(x: i64) -> (v: Vec<char>)
    ensures
        v@ == int_text(x as int),
{
    i128_text(x as i128)
}

/// Reads the limits of scheduler `s`, named `name`, and adds the warnings
/// of those that could not be read.
fn parse_scheduler(s: &SlurmSchedulerSpec, name: &String, p: &ResourceParses, out: &mut Vec<String>) -> (r:
    ParsedScheduler)
    ensures
        r.fit() == fit_of(*s, name@, *p),
        strs_view(final(out)@) == strs_view(old(out)@) + sched_warns(*s, name@, *p),
{
    let ghost start = strs_view(out@);
    let walltime_secs = match parse_lookup(&p.walltimes, s.walltime.as_str()) {
        Some(Ok(v)) => Some(*v),
        Some(Err(e)) => {
            let mut m = chars_of("Scheduler '");
            extend_str(&mut m, name.as_str());
            extend_str(&mut m, "': invalid walltime '");
            extend_str(&mut m, s.walltime.as_str());
            extend_str(&mut m, "': ");
            extend_str(&mut m, e.as_str());
            out.push(string_of(&m));
            None
        },
        None => None,
    };
    let ghost mid = strs_view(out@);
    let memory_bytes = match &s.mem {
        Some(mt) => match parse_lookup(&p.memories, mt.as_str()) {
            Some(Ok(v)) => Some(*v),
            Some(Err(e)) => {
                let mut m = chars_of("Scheduler '");
                extend_str(&mut m, name.as_str());
                extend_str(&mut m, "': invalid memory '");
                extend_str(&mut m, mt.as_str());
                extend_str(&mut m, "': ");
                extend_str(&mut m, e.as_str());
                out.push(string_of(&m));
                None
            },
            None => None,
        },
        None => None,
    };
    let gpu_count = match &s.gres {
        Some(g) => {
            let t = trim_chars(&chars_of(g.as_str()));
            if t.len() > 0 {
                match parse_lookup(&p.gpus, g.as_str()) {
                    Some(Some(n)) => Some(*n),
                    Some(None) => Some(0u32),
                    None => None,
                }
            } else {
                None
            }
        },
        None => None,
    };
    proof {
        assert(strs_view(out@) =~= start + sched_warns(*s, name@, *p));
    }
    ParsedScheduler {
        name: name.clone(),
        walltime: s.walltime.clone(),
        mem: copy_opt(&s.mem),
        gres: copy_opt(&s.gres),
        walltime_secs,
        memory_bytes,
        gpu_count,
    }
}

/// The last resource requirements named `name`.
fn find_req<'a>(reqs: &'a Vec<ResourceRequirementsSpec>, name: &str) -> (r: Option<&'a ResourceRequirementsSpec>)
    ensures
        match r {
            Some(x) => last_req_upto(reqs@, name@, reqs@.len()) == Some(*x),
            None => last_req_upto(reqs@, name@, reqs@.len()) is None,
        },
{
    let mut k: usize = reqs.len();
    while k > 0
        invariant
            k <= reqs@.len(),
            last_req_upto(reqs@, name@, reqs@.len()) == last_req_upto(reqs@, name@, k as nat),
        decreases k,
    {
        if str_eq(reqs[k - 1].name.as_str(), name) {
            return Some(&reqs[k - 1]);
        }
        k = k - 1;
    }
    None
}

/// The first scheduler named `name`.
fn find_fit<'a>(fits: &'a Vec<ParsedScheduler>, name: &str) -> (r: Option<&'a ParsedScheduler>)
    ensures
        match r {
            Some(x) => first_fit_at(fits_view(fits@), name@, 0) == Some(x.fit()),
            None => first_fit_at(fits_view(fits@), name@, 0) is None,
        },
{
    let ghost fv = fits_view(fits@);
    let mut i: usize = 0;
    while i < fits.len()
        invariant
            i <= fits@.len(),
            fv == fits_view(fits@),
            first_fit_at(fv, name@, 0) == first_fit_at(fv, name@, i as nat),
        decreases fits@.len() - i,
    {
        if str_eq(fits[i].name.as_str(), name) {
            return Some(&fits[i]);
        }
        i = i + 1;
    }
    None
}

fn text_or_question(o: &Option<String>) -> (r: Vec<char>)
    ensures
        r@ == or_question(opt_text(*o)),
{
    match o {
        Some(s) => chars_of(s.as_str()),
        None => chars_of("?"),
    }
}

/// The warnings of a job that names scheduler `f`.
fn explicit_warnings(
    job: &str,
    rr: &ResourceRequirementsSpec,
    sched: &str,
    f: &ParsedScheduler,
    rt: Option<u64>,
    jm: Option<i64>,
    out: &mut Vec<String>,
)
    ensures
        strs_view(final(out)@) == strs_view(old(out)@) + explicit_warns(job@, *rr, sched@, f.fit(), rt, jm),
{
    let ghost start = strs_view(out@);
    let ghost fit = f.fit();
    let ghost a = if runtime_over(rt, fit) {
        seq![explicit_runtime_message(job@, rr.runtime@, rt->0, sched@, fit.walltime, fit.walltime_secs->0)]
    } else {
        Seq::<Seq<char>>::empty()
    };
    let ghost b = if memory_over(jm, fit) {
        seq![explicit_memory_message(job@, rr.memory@, sched@, or_question(fit.mem))]
    } else {
        Seq::<Seq<char>>::empty()
    };
    match (rt, f.walltime_secs) {
        (Some(r), Some(w)) => {
            if r > w {
                let mut m = chars_of("Job '");
                extend_str(&mut m, job);
                extend_str(&mut m, "': runtime '");
                extend_str(&mut m, rr.runtime.as_str());
                extend_str(&mut m, "' (");
                extend_chars(&mut m, &u64_text(r));
                extend_str(&mut m, " s) exceeds scheduler '");
                extend_str(&mut m, sched);
                extend_str(&mut m, "' walltime '");
                extend_str(&mut m, f.walltime.as_str());
                extend_str(&mut m, "' (");
                extend_chars(&mut m, &u64_text(w));
                extend_str(&mut m, " s)");
                out.push(string_of(&m));
            }
        },
        _ => {},
    }
    proof {
        assert(strs_view(out@) =~= start + a);
    }
    match (jm, f.memory_bytes) {
        (Some(x), Some(y)) => {
            if x > y {
                let mut m = chars_of("Job '");
                extend_str(&mut m, job);
                extend_str(&mut m, "': memory '");
                extend_str(&mut m, rr.memory.as_str());
                extend_str(&mut m, "' exceeds scheduler '");
                extend_str(&mut m, sched);
                extend_str(&mut m, "' mem '");
                extend_chars(&mut m, &text_or_question(&f.mem));
                extend_str(&mut m, "'");
                out.push(string_of(&m));
            }
        },
        _ => {},
    }
    proof {
        assert(strs_view(out@) =~= start + a + b);
    }
    match f.gpu_count {
        Some(n) => {
            if rr.num_gpus > n as i64 {
                let mut m = chars_of("Job '");
                extend_str(&mut m, job);
                extend_str(&mut m, "': num_gpus ");
                extend_chars(&mut m, &i64_text(rr.num_gpus));
                extend_str(&mut m, " exceeds scheduler '");
                extend_str(&mut m, sched);
                extend_str(&mut m, "' gres '");
                extend_chars(&mut m, &text_or_question(&f.gres));
                extend_str(&mut m, "'");
                out.push(string_of(&m));
            }
        },
        None => {},
    }
    proof {
        assert(strs_view(out@) =~= start + explicit_warns(job@, *rr, sched@, fit, rt, jm));
    }
}

/// How a job misses scheduler `f`.
fn mismatch_list(rr: &ResourceRequirementsSpec, f: &ParsedScheduler, rt: Option<u64>, jm: Option<i64>) -> (r: Vec<
    String,
>)
    ensures
        strs_view(r@) == mismatches(*rr, f.fit(), rt, jm),
{
    let ghost fit = f.fit();
    let mut out: Vec<String> = Vec::new();
    let ghost a = if runtime_over(rt, fit) {
        seq![mismatch_runtime_message(rt->0, fit.walltime_secs->0)]
    } else {
        Seq::<Seq<char>>::empty()
    };
    let ghost b = if memory_over(jm, fit) {
        seq![mismatch_memory_message(rr.memory@, or_question(fit.mem))]
    } else {
        Seq::<Seq<char>>::empty()
    };
    match (rt, f.walltime_secs) {
        (Some(r), Some(w)) => {
            if r > w {
                let mut m = chars_of("runtime ");
                extend_chars(&mut m, &u64_text(r));
                extend_str(&mut m, " s > walltime ");
                extend_chars(&mut m, &u64_text(w));
                extend_str(&mut m, " s");
                out.push(string_of(&m));
            }
        },
        _ => {},
    }
    proof {
        assert(strs_view(out@) =~= a);
    }
    match (jm, f.memory_bytes) {
        (Some(x), Some(y)) => {
            if x > y {
                let mut m = chars_of("memory '");
                extend_str(&mut m, rr.memory.as_str());
                extend_str(&mut m, "' > mem '");
                extend_chars(&mut m, &text_or_question(&f.mem));
                extend_str(&mut m, "'");
                out.push(string_of(&m));
            }
        },
        _ => {},
    }
    proof {
        assert(strs_view(out@) =~= a + b);
    }
    match f.gpu_count {
        Some(n) => {
            if rr.num_gpus > n as i64 {
                let mut m = chars_of("num_gpus ");
                extend_chars(&mut m, &i64_text(rr.num_gpus));
                extend_str(&mut m, " > gres '");
                extend_chars(&mut m, &text_or_question(&f.gres));
                extend_str(&mut m, "'");
                out.push(string_of(&m));
            }
        },
        None => {},
    }
    proof {
        assert(strs_view(out@) =~= mismatches(*rr, fit, rt, jm));
    }
    out
}

/// Whether some scheduler fits the job in runtime, memory and GPUs at once.
fn some_fit(fits: &Vec<ParsedScheduler>, rt: Option<u64>, jm: Option<i64>, g: i64) -> (b: bool)
    ensures
        b == some_fit_upto(fits_view(fits@), rt, jm, g, fits@.len()),
{
    let ghost fv = fits_view(fits@);
    let mut i: usize = 0;
    let mut found = false;
    while i < fits.len()
        invariant
            i <= fits@.len(),
            fv == fits_view(fits@),
            found == some_fit_upto(fv, rt, jm, g, i as nat),
        decreases fits@.len() - i,
    {
        let f = &fits[i];
        let run_ok = match (rt, f.walltime_secs) {
            (Some(r), Some(w)) => r <= w,
            _ => true,
        };
        let mem_ok = match (jm, f.memory_bytes) {
            (Some(x), Some(y)) => x <= y,
            _ => true,
        };
        let gpu_ok = match f.gpu_count {
            Some(n) => g <= n as i64,
            None => true,
        };
        proof {
            assert(fv[i as int] == f.fit());
        }
        found = found || (run_ok && mem_ok && gpu_ok);
        i = i + 1;
    }
    found
}

/// The schedulers that a job misses, each with its mismatches.
fn reason_list(fits: &Vec<ParsedScheduler>, rr: &ResourceRequirementsSpec, rt: Option<u64>, jm: Option<i64>) -> (r:
    Vec<String>)
    ensures
        strs_view(r@) == reasons_upto(fits_view(fits@), *rr, rt, jm, fits@.len()),
{
    let ghost fv = fits_view(fits@);
    let mut out: Vec<String> = Vec::new();
    let mut i: usize = 0;
    while i < fits.len()
        invariant
            i <= fits@.len(),
            fv == fits_view(fits@),
            strs_view(out@) == reasons_upto(fv, *rr, rt, jm, i as nat),
        decreases fits@.len() - i,
    {
        let f = &fits[i];
        proof {
            assert(fv[i as int] == f.fit());
        }
        let mm = mismatch_list(rr, f, rt, jm);
        let ghost before = strs_view(out@);
        if mm.len() > 0 {
            let mut m = chars_of("'");
            extend_str(&mut m, f.name.as_str());
            extend_str(&mut m, "': ");
            let joined = join_strings(&mm, ", ");
            proof {
                assert(mm@.map_values(|s: String| s@) =~= strs_view(mm@));
            }
            extend_str(&mut m, joined.as_str());
            out.push(string_of(&m));
            proof {
                assert(strs_view(out@) =~= before.push(strs_view(out@).last()));
            }
        }
        i = i + 1;
    }
    out
}

/// Adds the warnings of a job whose resource requirements are `rr`.
fn req_warnings(j: &JobSpec, rr: &ResourceRequirementsSpec, fits: &Vec<ParsedScheduler>, p: &ResourceParses, out: &mut Vec<String>)
    ensures
        strs_view(final(out)@) == strs_view(old(out)@) + req_warns(*j, *rr, fits_view(fits@), *p),
{
    let ghost start = strs_view(out@);
    let ghost fv = fits_view(fits@);
    let rt = match parse_lookup(&p.durations, rr.runtime.as_str()) {
        Some(Ok(v)) => Some(*v),
        Some(Err(e)) => {
            let mut m = chars_of("Job '");
            extend_str(&mut m, j.name.as_str());
            extend_str(&mut m, "': invalid runtime '");
            extend_str(&mut m, rr.runtime.as_str());
            extend_str(&mut m, "': ");
            extend_str(&mut m, e.as_str());
            out.push(string_of(&m));
            None
        },
        None => None,
    };
    let ghost after_rt = strs_view(out@);
    let jm = match parse_lookup(&p.memories, rr.memory.as_str()) {
        Some(Ok(v)) => Some(*v),
        Some(Err(e)) => {
            let mut m = chars_of("Job '");
            extend_str(&mut m, j.name.as_str());
            extend_str(&mut m, "': invalid memory '");
            extend_str(&mut m, rr.memory.as_str());
            extend_str(&mut m, "': ");
            extend_str(&mut m, e.as_str());
            out.push(string_of(&m));
            None
        },
        None => None,
    };
    let ghost pre = unreadable_warns(*j, *rr, *p);
    proof {
        assert(strs_view(out@) =~= start + pre);
        assert(rt == parsed_u64(parse_of(p.durations@, rr.runtime@)));
        assert(jm == parsed_i64(parse_of(p.memories@, rr.memory@)));
    }
    if rr.num_gpus < 0 {
        let mut m = chars_of("Job '");
        extend_str(&mut m, j.name.as_str());
        extend_str(&mut m, "': invalid negative num_gpus ");
        extend_chars(&mut m, &i64_text(rr.num_gpus));
        out.push(string_of(&m));
        proof {
            assert(strs_view(out@) =~= start + pre.push(negative_gpus_message(j.name@, rr.num_gpus)));
        }
        return;
    }
    match &j.scheduler {
        Some(sn) => {
            match find_fit(fits, sn.as_str()) {
                Some(f) => {
                    explicit_warnings(j.name.as_str(), rr, sn.as_str(), f, rt, jm, out);
                    proof {
                        assert(strs_view(out@) =~= start + pre + explicit_warns(j.name@, *rr, sn@, f.fit(), rt, jm));
                    }
                },
                None => {},
            }
        },
        None => {
            if !some_fit(fits, rt, jm, rr.num_gpus) {
                let reasons = reason_list(fits, rr, rt, jm);
                let joined = join_strings(&reasons, "; ");
                proof {
                    assert(reasons@.map_values(|s: String| s@) =~= strs_view(reasons@));
                }
                let mut m = chars_of("Job '");
                extend_str(&mut m, j.name.as_str());
                extend_str(
                    &mut m,
                    "' has no explicit scheduler and no scheduler can accommodate its resource requirements. Mismatches: [",
                );
                extend_str(&mut m, joined.as_str());
                extend_str(&mut m, "]");
                out.push(string_of(&m));
                proof {
                    assert(strs_view(out@) =~= start + pre.push(
                        no_fit_message(j.name@, reasons_upto(fv, *rr, rt, jm, fv.len())),
                    ));
                }
            }
        },
    }
}

impl WorkflowSpec {
    /// Checks the resources that jobs ask for against the Slurm schedulers,
    /// with the parsers' results in `parses`, and returns every warning (see
    /// `scheduler_resource_warnings`): a limit that cannot be read, a
    /// negative GPU count, a job that exceeds the scheduler it names, and a
    /// job that names none and that no scheduler fits in runtime, memory and
    /// GPUs together.
    pub fn validate_scheduler_resources_with(&self, parses: &ResourceParses) -> (r: Vec<String>)
        ensures
            strs_view(r@) == scheduler_resource_warnings(*self, *parses),
    {
        let mut out: Vec<String> = Vec::new();
        let no_reqs = match &self.resource_requirements {
            Some(v) => v.len() == 0,
            None => true,
        };
        let no_scheds = match &self.slurm_schedulers {
            Some(v) => v.len() == 0,
            None => true,
        };
        if no_reqs || no_scheds {
            proof {
                assert(strs_view(out@) =~= Seq::<Seq<char>>::empty());
            }
            return out;
        }
        let reqs = self.resource_requirements.as_ref().unwrap();
        let ss = self.slurm_schedulers.as_ref().unwrap();
        let mut fits: Vec<ParsedScheduler> = Vec::new();
        let mut k: usize = 0;
        proof {
            assert(strs_view(out@) =~= Seq::<Seq<char>>::empty());
            assert(fits_view(fits@) =~= Seq::<SchedulerFit>::empty());
        }
        while k < ss.len()
            invariant
                k <= ss@.len(),
                strs_view(out@) == sched_warns_upto(ss@, *parses, k as nat),
                fits_view(fits@) == fits_upto(ss@, *parses, k as nat),
            decreases ss@.len() - k,
        {
            let s = &ss[k];
            match &s.name {
                Some(n) => {
                    let ghost before = fits_view(fits@);
                    let f = parse_scheduler(s, n, parses, &mut out);
                    fits.push(f);
                    proof {
                        assert(fits_view(fits@) =~= before.push(f.fit()));
                    }
                },
                None => {},
            }
            k = k + 1;
        }
        if fits.len() == 0 {
            proof {
                assert(strs_view(out@) =~= strs_view(out@) + Seq::<Seq<char>>::empty());
            }
            return out;
        }
        let ghost sw = strs_view(out@);
        let ghost fv = fits_view(fits@);
        let mut i: usize = 0;
        proof {
            assert(strs_view(out@) =~= sw + Seq::<Seq<char>>::empty());
        }
        while i < self.jobs.len()
            invariant
                i <= self.jobs@.len(),
                fv == fits_view(fits@),
                fv == fits_upto(ss@, *parses, ss@.len()),
                reqs@ == self.resource_requirements->0@,
                strs_view(out@) == sw + jobs_warns_upto(self.jobs@, reqs@, fv, *parses, i as nat),
            decreases self.jobs@.len() - i,
        {
            let j = &self.jobs[i];
            let ghost before = strs_view(out@);
            match &j.resource_requirements {
                Some(rn) => match find_req(reqs, rn.as_str()) {
                    Some(rr) => {
                        req_warnings(j, rr, &fits, parses, &mut out);
                    },
                    None => {},
                },
                None => {},
            }
            proof {
                assert(strs_view(out@) =~= before + job_warns(*j, reqs@, fv, *parses));
                assert(jobs_warns_upto(self.jobs@, reqs@, fv, *parses, (i + 1) as nat) =~= jobs_warns_upto(
                    self.jobs@,
                    reqs@,
                    fv,
                    *parses,
                    i as nat,
                ) + job_warns(*j, reqs@, fv, *parses));
            }
            i = i + 1;
        }
        out
    }
}

} // verus!
