//! Checks a workflow specification must pass before it is created:
//! environment names, dynamic job limits and workflow actions.

use vstd::prelude::*;

use crate::combinations::{map_view, opt_view, ParameterMap};
use crate::text::{chars_eq, chars_of, concat3, extend_str, i64_to_string, int_text, string_of, spec_is_identifier, is_identifier_chars};
use crate::workflow::WorkflowSpec;
use crate::workflow_spec::{
    env_name_message, jobs_view, strs_view, unit_view, validate_env_var_name, JobSpecView,
    SlurmSchedulerSpec, WorkflowActionSpec,
};

verus! {

// ---------------------------------------------------------------------------
// Environment names
// ---------------------------------------------------------------------------

/// The first name of an environment that is not a valid variable name.
pub open spec fn first_bad_name(m: Seq<(Seq<char>, Seq<char>)>) -> Option<Seq<char>>
    decreases m.len(),
{
    if m.len() == 0 {
        None
    } else if !spec_is_identifier(m[0].0) {
        Some(m[0].0)
    } else {
        first_bad_name(m.drop_first())
    }
}

/// The first job whose environment has an invalid name, with that name.
pub open spec fn first_bad_job_env(js: Seq<JobSpecView>) -> Option<(Seq<char>, Seq<char>)>
    decreases js.len(),
{
    if js.len() == 0 {
        None
    } else {
        match js[0].env {
            Some(m) => match first_bad_name(m) {
                Some(k) => Some((js[0].name, k)),
                None => first_bad_job_env(js.drop_first()),
            },
            None => first_bad_job_env(js.drop_first()),
        }
    }
}

/// The verdict on the environment names of a workflow and of its jobs.
pub open spec fn env_maps_verdict(w: WorkflowSpec) -> Result<(), Seq<char>> {
    match (match w.env {
        Some(e) => first_bad_name(map_view(e@)),
        None => None,
    }) {
        Some(k) => Err(env_name_message(k)),
        None => match first_bad_job_env(jobs_view(w.jobs@)) {
            Some((j, k)) => Err("Job '"@ + j + "': "@ + env_name_message(k)),
            None => Ok(()),
        },
    }
}

fn check_env_names(m: &ParameterMap) -> (r: Result<(), String>)
    ensures
        unit_view(r) == match first_bad_name(map_view(m@)) {
            Some(k) => Err::<(), Seq<char>>(env_name_message(k)),
            None => Ok(()),
        },
{
    let mut i: usize = 0;
    proof {
        assert(map_view(m@).skip(0) =~= map_view(m@));
    }
    while i < m.len()
        invariant
            i <= m.len(),
            first_bad_name(map_view(m@)) == first_bad_name(map_view(m@).skip(i as int)),
        decreases m.len() - i,
    {
        proof {
            assert(map_view(m@).skip(i as int)[0] == (m@[i as int].0@, m@[i as int].1@));
            assert(map_view(m@).skip(i as int).drop_first() =~= map_view(m@).skip(i + 1));
        }
        match validate_env_var_name(m[i].0.as_str()) {
            Err(e) => {
                return Err(e);
            },
            Ok(()) => {},
        }
        i = i + 1;
    }
    Ok(())
}

impl WorkflowSpec {
    /// Checks that every environment name, of the workflow and of each job,
    /// is a valid variable name; the first invalid one is reported.
    pub fn validate_env_maps(&self) -> (r: Result<(), String>)
        ensures
            unit_view(r) == env_maps_verdict(*self),
    {
        if let Some(env) = &self.env {
            match check_env_names(env) {
                Err(e) => {
                    return Err(e);
                },
                Ok(()) => {},
            }
        }
        let ghost js = jobs_view(self.jobs@);
        let mut i: usize = 0;
        proof {
            assert(js.skip(0) =~= js);
        }
        while i < self.jobs.len()
            invariant
                i <= self.jobs.len(),
                js == jobs_view(self.jobs@),
                (match self.env {
                    Some(e) => first_bad_name(map_view(e@)),
                    None => None,
                }) is None,
                first_bad_job_env(js) == first_bad_job_env(js.skip(i as int)),
            decreases self.jobs.len() - i,
        {
            let job = &self.jobs[i];
            proof {
                assert(js.skip(i as int)[0] == job@);
                assert(js.skip(i as int).drop_first() =~= js.skip(i + 1));
            }
            if let Some(env) = &job.env {
                match check_env_names(env) {
                    Err(e) => {
                        let mut m = chars_of("Job '");
                        extend_str(&mut m, job.name.as_str());
                        extend_str(&mut m, "': ");
                        extend_str(&mut m, e.as_str());
                        return Err(string_of(&m));
                    },
                    Ok(()) => {},
                }
            }
            i = i + 1;
        }
        Ok(())
    }
}

// ---------------------------------------------------------------------------
// Dynamic jobs
// ---------------------------------------------------------------------------

pub open spec fn max_iterations_message(n: i64) -> Seq<char> {
    "dynamic_jobs.max_iterations must be >= 1 (got "@ + int_text(n as int)
        + "); omit the field to use the server default"@
}

/// What the check of the spawn cap says of a workflow.
pub open spec fn dynamic_jobs_verdict(w: WorkflowSpec) -> Result<(), Seq<char>> {
    match w.dynamic_jobs {
        Some(d) => match d.max_iterations {
            Some(n) => if n < 1 {
                Err(max_iterations_message(n))
            } else {
                Ok(())
            },
            None => Ok(()),
        },
        None => Ok(()),
    }
}

impl WorkflowSpec {
    /// Checks that a spawn cap, when set, is at least 1.
    pub fn validate_dynamic_jobs(&self) -> (r: Result<(), String>)
        ensures
            unit_view(r) == dynamic_jobs_verdict(*self),
    {
        if let Some(d) = self.dynamic_jobs {
            if let Some(n) = d.max_iterations {
                if n < 1 {
                    let mut m = chars_of("dynamic_jobs.max_iterations must be >= 1 (got ");
                    let t = i64_to_string(n);
                    extend_str(&mut m, t.as_str());
                    extend_str(&mut m, "); omit the field to use the server default");
                    return Err(string_of(&m));
                }
            }
        }
        Ok(())
    }
}

// ---------------------------------------------------------------------------
// Actions
// ---------------------------------------------------------------------------

pub open spec fn is_valid_trigger(t: Seq<char>) -> bool {
    t == "on_workflow_start"@ || t == "on_workflow_complete"@ || t == "on_worker_start"@ || t
        == "on_worker_complete"@ || t == "on_jobs_ready"@ || t == "on_jobs_complete"@
}

pub open spec fn is_job_gated(t: Seq<char>) -> bool {
    t == "on_jobs_ready"@ || t == "on_jobs_complete"@
}

pub open spec fn non_empty(o: Option<Vec<String>>) -> bool {
    match o {
        Some(v) => v.len() > 0,
        None => false,
    }
}

/// Whether a Slurm scheduler is named `name`.
pub open spec fn has_scheduler_named(ss: Seq<SlurmSchedulerSpec>, name: Seq<char>) -> bool {
    exists|i: int| 0 <= i < ss.len() && opt_view((#[trigger] ss[i]).name) == Some(name)
}

pub open spec fn unknown_trigger_message(t: Seq<char>) -> Seq<char> {
    "action has unknown trigger_type '"@ + t
        + "'; valid trigger types are: on_workflow_start, on_workflow_complete, on_worker_start, on_worker_complete, on_jobs_ready, on_jobs_complete"@
}

pub open spec fn missing_jobs_message(t: Seq<char>) -> Seq<char> {
    "action with trigger_type '"@ + t
        + "' must specify at least one job via 'jobs' or 'job_name_regexes'"@
}

pub open spec fn missing_scheduler_message(s: Seq<char>) -> Seq<char> {
    "schedule_nodes action references slurm_scheduler '"@ + s + "' which does not exist"@
}

/// Why an action is invalid in a workflow with the given Slurm schedulers.
pub open spec fn action_failure(a: WorkflowActionSpec, ss: Option<Vec<SlurmSchedulerSpec>>) -> Option<Seq<char>> {
    let t = a.trigger_type@;
    if !is_valid_trigger(t) {
        Some(unknown_trigger_message(t))
    } else if is_job_gated(t) && !non_empty(a.jobs) && !non_empty(a.job_name_regexes) {
        Some(missing_jobs_message(t))
    } else if a.action_type@ == "schedule_nodes"@ {
        match a.scheduler_type {
            None => Some("schedule_nodes action requires scheduler_type"@),
            Some(st) => match a.scheduler {
                None => Some("schedule_nodes action requires scheduler"@),
                Some(s) => if st@ == "slurm"@ {
                    match ss {
                        None => Some(
                            "schedule_nodes action with scheduler_type=slurm requires slurm_schedulers to be defined"@,
                        ),
                        Some(v) => if has_scheduler_named(v@, s@) {
                            None
                        } else {
                            Some(missing_scheduler_message(s@))
                        },
                    }
                } else {
                    None
                },
            },
        }
    } else {
        None
    }
}

/// The failure of the first invalid action.
pub open spec fn first_action_failure(acts: Seq<WorkflowActionSpec>, ss: Option<Vec<SlurmSchedulerSpec>>) -> Option<Seq<char>>
    decreases acts.len(),
{
    if acts.len() == 0 {
        None
    } else {
        match action_failure(acts[0], ss) {
            Some(e) => Some(e),
            None => first_action_failure(acts.drop_first(), ss),
        }
    }
}

fn str_is(s: &String, lit: &str) -> (b: bool)
    ensures
        b == (s@ == lit@),
{
    chars_eq(&chars_of(s.as_str()), &chars_of(lit))
}

fn is_valid_trigger_exec(t: &String) -> (b: bool)
    ensures
        b == is_valid_trigger(t@),
{
    str_is(t, "on_workflow_start") || str_is(t, "on_workflow_complete") || str_is(
        t,
        "on_worker_start",
    ) || str_is(t, "on_worker_complete") || str_is(t, "on_jobs_ready") || str_is(
        t,
        "on_jobs_complete",
    )
}

fn non_empty_exec(o: &Option<Vec<String>>) -> (b: bool)
    ensures
        b == non_empty(*o),
{
    match o {
        Some(v) => v.len() > 0,
        None => false,
    }
}

fn has_scheduler_named_exec(ss: &Vec<SlurmSchedulerSpec>, name: &String) -> (b: bool)
    ensures
        b == has_scheduler_named(ss@, name@),
{
    let mut i: usize = 0;
    while i < ss.len()
        invariant
            i <= ss.len(),
            forall|k: int| 0 <= k < i ==> opt_view((#[trigger] ss@[k]).name) != Some(name@),
        decreases ss.len() - i,
    {
        if let Some(n) = &ss[i].name {
            if chars_eq(&chars_of(n.as_str()), &chars_of(name.as_str())) {
                return true;
            }
        }
        i = i + 1;
    }
    false
}

fn action_failure_exec(a: &WorkflowActionSpec, ss: &Option<Vec<SlurmSchedulerSpec>>) -> (r: Option<String>)
    ensures
        match r {
            Some(m) => action_failure(*a, *ss) == Some(m@),
            None => action_failure(*a, *ss) is None,
        },
{
    let t = &a.trigger_type;
    if !is_valid_trigger_exec(t) {
        return Some(concat3(
            "action has unknown trigger_type '",
            t.as_str(),
            "'; valid trigger types are: on_workflow_start, on_workflow_complete, on_worker_start, on_worker_complete, on_jobs_ready, on_jobs_complete",
        ));
    }
    let gated = str_is(t, "on_jobs_ready") || str_is(t, "on_jobs_complete");
    if gated && !non_empty_exec(&a.jobs) && !non_empty_exec(&a.job_name_regexes) {
        return Some(concat3(
            "action with trigger_type '",
            t.as_str(),
            "' must specify at least one job via 'jobs' or 'job_name_regexes'",
        ));
    }
    if !str_is(&a.action_type, "schedule_nodes") {
        return None;
    }
    let st = match &a.scheduler_type {
        None => {
            return Some(crate::text::lit("schedule_nodes action requires scheduler_type"));
        },
        Some(st) => st,
    };
    let s = match &a.scheduler {
        None => {
            return Some(crate::text::lit("schedule_nodes action requires scheduler"));
        },
        Some(s) => s,
    };
    if !str_is(st, "slurm") {
        return None;
    }
    match ss {
        None => Some(
            crate::text::lit(
                "schedule_nodes action with scheduler_type=slurm requires slurm_schedulers to be defined",
            ),
        ),
        Some(v) => if has_scheduler_named_exec(v, s) {
            None
        } else {
            Some(
                concat3(
                    "schedule_nodes action references slurm_scheduler '",
                    s.as_str(),
                    "' which does not exist",
                ),
            )
        },
    }
}

/// Whether an action schedules nodes on a trigger that submission fires.
pub open spec fn is_submittable_schedule(a: WorkflowActionSpec) -> bool {
    a.action_type@ == "schedule_nodes"@ && (a.trigger_type@ == "on_workflow_start"@
        || a.trigger_type@ == "on_jobs_ready"@ || a.trigger_type@ == "on_jobs_complete"@)
}

/// Whether some action schedules nodes on a trigger that submission fires.
pub open spec fn has_submittable_schedule(acts: Seq<WorkflowActionSpec>) -> bool {
    exists|i: int| 0 <= i < acts.len() && is_submittable_schedule(#[trigger] acts[i])
}

/// What the check of the actions says of a workflow.
pub open spec fn actions_verdict(w: WorkflowSpec) -> Result<(), Seq<char>> {
    match w.actions {
        None => Ok(()),
        Some(acts) => match first_action_failure(acts@, w.slurm_schedulers) {
            Some(e) => Err(e),
            None => Ok(()),
        },
    }
}

impl WorkflowSpec {
    /// Checks every action: its trigger is known, a job-gated trigger names
    /// jobs, and a node-scheduling action names its scheduler type and a
    /// scheduler that exists. The first invalid action is reported.
    pub fn validate_actions(&self) -> (r: Result<(), String>)
        ensures
            unit_view(r) == actions_verdict(*self),
    {
        if let Some(acts) = &self.actions {
            let mut i: usize = 0;
            proof {
                assert(acts@.skip(0) =~= acts@);
            }
            while i < acts.len()
                invariant
                    i <= acts.len(),
                    self.actions == Some(*acts),
                    first_action_failure(acts@, self.slurm_schedulers) == first_action_failure(
                        acts@.skip(i as int),
                        self.slurm_schedulers,
                    ),
                decreases acts.len() - i,
            {
                proof {
                    assert(acts@.skip(i as int)[0] == acts@[i as int]);
                    assert(acts@.skip(i as int).drop_first() =~= acts@.skip(i + 1));
                }
                match action_failure_exec(&acts[i], &self.slurm_schedulers) {
                    Some(m) => {
                        return Err(m);
                    },
                    None => {},
                }
                i = i + 1;
            }
        }
        Ok(())
    }

    /// Whether some action schedules nodes on workflow start or on jobs
    /// becoming ready or complete.
    pub fn has_schedule_nodes_action(&self) -> (b: bool)
        ensures
            b == match self.actions {
                None => false,
                Some(acts) => has_submittable_schedule(acts@),
            },
    {
        match &self.actions {
            None => false,
            Some(acts) => {
                let mut i: usize = 0;
                while i < acts.len()
                    invariant
                        i <= acts.len(),
                        self.actions == Some(*acts),
                        forall|k: int| 0 <= k < i ==> !is_submittable_schedule(#[trigger] acts@[k]),
                    decreases acts.len() - i,
                {
                    let a = &acts[i];
                    if str_is(&a.action_type, "schedule_nodes") && (str_is(
                        &a.trigger_type,
                        "on_workflow_start",
                    ) || str_is(&a.trigger_type, "on_jobs_ready") || str_is(
                        &a.trigger_type,
                        "on_jobs_complete",
                    )) {
                        proof {
                            assert(is_submittable_schedule(acts@[i as int]));
                            assert(has_submittable_schedule(acts@));
                        }
                        return true;
                    }
                    i = i + 1;
                }
                false
            },
        }
    }
}

} // verus!
