//! The records a workflow specification is submitted as: the workflow
//! record with its settings checked, and the file and user data records.
//! Sending them to the server, and reading the ids it assigns, is left to
//! the caller; the checks on what the server answers are here.

use vstd::prelude::*;

use crate::combinations::{map_view, opt_view};
use crate::execution::{is_default_config, same_config, ExecutionConfig, ExecutionMode};
use crate::json::{json_same, JsonValue};
use crate::checks::{
    file_names, first_repeat, first_repeat_from, names_of_files, names_of_user_data, referenced_as_exec,
    referenced_as_input, user_data_names,
};
use crate::creation::{added_ids, ids_matching, ids_view, lookup_id, lookup_id_exec, opt_ids};
use crate::dry_run::or_none;
use crate::execution::{
    bool_or, i64_or, JobMonitorConfig, MonitorGranularity, ResourceMonitorConfig, StdioConfig,
};
use crate::checks::{identifiers_verdict, node_verdict, unique_names_verdict};
use crate::references::substituted_as;
use crate::resources::{scheduler_resource_warnings, ResourceParses};
use crate::templates::Bindings;
use crate::validation::{actions_verdict, dynamic_jobs_verdict, env_maps_verdict};
use crate::json_view::{entry_views, jv, lemma_jv_array, lemma_jv_object, push_item, views, JsonView};
use crate::models::{
    FailureHandlerModel, FileModel, ResourceRequirementsModel, SlurmSchedulerModel, UserDataModel,
    WorkflowActionModel, WorkflowModel,
};
use crate::patterns::{compile_regex, regex_compile_error, regex_compiles, regex_matches};
use crate::slurm_defaults::{check_slurm_defaults, slurm_defaults_verdict};
use crate::text::{
    concat2, concat3, concat5, copy_string, i64_to_string, int_text, join, join_strings, lit, nat_digits, str_eq,
    string_eq, string_of, trim, u128_digits,
};
use crate::workflow::{expanded_as, tables_well_formed, ParameterTables, WorkflowSpec};
use crate::workflow_spec::{
    copy_map, copy_opt_string, copy_opt_strings, files_view, jobs_view, opt_map_view, opt_strs_view,
    srun_mpi_pattern, user_data_same,
    srun_mpi_verdict, strs_view, unit_view, validate_srun_mpi_value, FailureHandlerSpec, FileSpec, JobSpec,
    ResourceRequirementsSpec, SlurmSchedulerSpec, UserDataSpec, WorkflowActionSpec,
};

verus! {

// ---------------------------------------------------------------------------
// The workflow record
// ---------------------------------------------------------------------------

/// Entries with the same keys and the same values, in the same order.
pub open spec fn entries_same(a: Seq<(String, JsonValue)>, b: Seq<(String, JsonValue)>) -> bool {
    a.len() == b.len() && forall|i: int|
        0 <= i < a.len() ==> (#[trigger] a[i]).0@ == b[i].0@ && json_same(a[i].1, b[i].1)
}

pub open spec fn opt_entries_same(a: Option<Vec<(String, JsonValue)>>, b: Option<Vec<(String, JsonValue)>>) -> bool {
    match (a, b) {
        (Some(x), Some(y)) => entries_same(x@, y@),
        (None, None) => true,
        _ => false,
    }
}

fn copy_entries(m: &Vec<(String, JsonValue)>) -> (r: Vec<(String, JsonValue)>)
    ensures
        entries_same(m@, r@),
{
    let mut r: Vec<(String, JsonValue)> = Vec::new();
    let mut i: usize = 0;
    while i < m.len()
        invariant
            i <= m.len(),
            r.len() == i,
            forall|k: int| 0 <= k < i ==> (#[trigger] m@[k]).0@ == r@[k].0@ && json_same(m@[k].1, r@[k].1),
        decreases m.len() - i,
    {
        r.push((copy_string(&m[i].0), m[i].1.copy()));
        i = i + 1;
    }
    r
}

fn copy_opt_entries(o: &Option<Vec<(String, JsonValue)>>) -> (r: Option<Vec<(String, JsonValue)>>)
    ensures
        opt_entries_same(*o, r),
{
    match o {
        Some(m) => Some(copy_entries(m)),
        None => None,
    }
}

/// An action that schedules nodes with one worker per node.
pub open spec fn starts_worker_per_node(a: WorkflowActionSpec) -> bool {
    a.action_type@ == "schedule_nodes"@ && a.start_one_worker_per_node == Some(true)
}

pub open spec fn has_worker_per_node_action(spec: WorkflowSpec) -> bool {
    match spec.actions {
        Some(a) => exists|i: int| 0 <= i < a@.len() && #[trigger] starts_worker_per_node(a@[i]),
        None => false,
    }
}

/// Whether jobs will run under Slurm: mode `slurm`, or `auto` with a Slurm scheduler.
pub open spec fn uses_slurm(spec: WorkflowSpec, ec: ExecutionConfig) -> bool {
    match ec.mode {
        ExecutionMode::Slurm => true,
        ExecutionMode::Auto => spec.slurm_schedulers matches Some(s) && s@.len() > 0,
        ExecutionMode::Direct => false,
    }
}

/// Whether jobs will run directly: mode `direct`, or `auto` without a Slurm scheduler.
pub open spec fn uses_direct(spec: WorkflowSpec, ec: ExecutionConfig) -> bool {
    match ec.mode {
        ExecutionMode::Direct => true,
        ExecutionMode::Auto => !uses_slurm(spec, ec),
        ExecutionMode::Slurm => false,
    }
}

pub open spec fn when(c: bool, message: Seq<char>) -> Seq<Seq<char>> {
    if c {
        seq![message]
    } else {
        Seq::empty()
    }
}

/// The verdict on an MPI mode, as `validate_srun_mpi_value` gives it.
pub open spec fn srun_mpi_outcome(v: Seq<char>) -> Result<(), Seq<char>> {
    if regex_compiles(srun_mpi_pattern()) {
        srun_mpi_verdict(v, regex_matches(srun_mpi_pattern(), trim(v)))
    } else {
        srun_mpi_verdict(v, false)
    }
}

pub open spec fn srun_mpi_worker_message() -> Seq<char> {
    "srun_mpi requires schedule_nodes.start_one_worker_per_node = true. It only applies to the outer srun that launches one job runner per node."@
}

pub open spec fn limit_resources_message() -> Seq<char> {
    "limit_resources: false is only supported in direct mode. Slurm mode requires resource limits for correct srun behavior."@
}

pub open spec fn termination_signal_message() -> Seq<char> {
    "termination_signal is only supported in direct mode. In slurm mode, use srun_termination_signal instead."@
}

pub open spec fn sigterm_lead_message() -> Seq<char> {
    "sigterm_lead_seconds is only supported in direct mode. In slurm mode, termination timing is controlled by srun_termination_signal."@
}

pub open spec fn oom_exit_code_message() -> Seq<char> {
    "oom_exit_code is only supported in direct mode. In slurm mode, Slurm manages OOM detection."@
}

pub open spec fn srun_termination_signal_message() -> Seq<char> {
    "srun_termination_signal is only supported in slurm mode. In direct mode, use termination_signal instead."@
}

pub open spec fn enable_cpu_bind_message() -> Seq<char> {
    "enable_cpu_bind is only supported in slurm mode. It has no effect in direct mode."@
}

pub open spec fn worker_mode_message() -> Seq<char> {
    "start_one_worker_per_node requires execution_config.mode to be 'direct'"@
}

/// The problems of an MPI mode: malformed, or with no worker-per-node
/// action to apply to.
pub open spec fn mpi_errors(spec: WorkflowSpec, ec: ExecutionConfig) -> Seq<Seq<char>> {
    match ec.srun_mpi {
        Some(v) => (match srun_mpi_outcome(v@) {
            Err(e) => seq![e],
            Ok(_) => Seq::empty(),
        }) + when(!has_worker_per_node_action(spec), srun_mpi_worker_message()),
        None => Seq::empty(),
    }
}

/// The settings that Slurm mode does not support, when jobs run under Slurm.
pub open spec fn slurm_errors(spec: WorkflowSpec, ec: ExecutionConfig) -> Seq<Seq<char>> {
    if uses_slurm(spec, ec) {
        when(ec.limit_resources == Some(false), limit_resources_message()) + when(
            ec.termination_signal is Some,
            termination_signal_message(),
        ) + when(ec.sigterm_lead_seconds is Some, sigterm_lead_message()) + when(
            ec.oom_exit_code is Some,
            oom_exit_code_message(),
        )
    } else {
        Seq::empty()
    }
}

/// The settings that direct mode does not support, when jobs run directly.
pub open spec fn direct_errors(spec: WorkflowSpec, ec: ExecutionConfig) -> Seq<Seq<char>> {
    if uses_direct(spec, ec) {
        when(ec.srun_termination_signal is Some, srun_termination_signal_message()) + when(
            ec.enable_cpu_bind == Some(true),
            enable_cpu_bind_message(),
        )
    } else {
        Seq::empty()
    }
}

/// The problems of an execution configuration, given the mode the jobs
/// will run in.
pub open spec fn mode_errors(spec: WorkflowSpec, ec: ExecutionConfig) -> Seq<Seq<char>> {
    mpi_errors(spec, ec) + slurm_errors(spec, ec) + direct_errors(spec, ec)
}

/// Why a specification cannot be submitted as a workflow record, if it
/// cannot: excluded Slurm defaults, then the execution configuration's
/// problems (joined by spaces), then a worker-per-node action outside
/// direct mode.
pub open spec fn workflow_model_error(spec: WorkflowSpec) -> Option<Seq<char>> {
    let defaults = match spec.slurm_defaults {
        Some(e) => slurm_defaults_verdict(e@),
        None => Ok(()),
    };
    if defaults is Err {
        Some(defaults->Err_0)
    } else if spec.execution_config is Some && mode_errors(spec, spec.execution_config->0).len() > 0 {
        Some(join(mode_errors(spec, spec.execution_config->0), " "@))
    } else if has_worker_per_node_action(spec) && (spec.execution_config matches Some(c) && c.mode
        != ExecutionMode::Direct) {
        Some(worker_mode_message())
    } else {
        None
    }
}

pub open spec fn or_value<T>(o: Option<T>, d: T) -> Option<T> {
    match o {
        Some(v) => Some(v),
        None => Some(d),
    }
}

/// `m` is the workflow record of `spec` submitted from `dir`.
pub open spec fn model_of(spec: WorkflowSpec, dir: Option<String>, m: WorkflowModel) -> bool {
    &&& m.id is None
    &&& m.name@ == spec.name@
    &&& m.user@ == (match spec.user {
        Some(u) => u@,
        None => "unknown"@,
    })
    &&& opt_view(m.description) == opt_view(spec.description)
    &&& opt_map_view(m.env) == (match spec.env {
        Some(e) => if e@.len() > 0 {
            Some(map_view(e@))
        } else {
            None
        },
        None => None,
    })
    &&& m.timestamp is None
    &&& m.compute_node_expiration_buffer_seconds is None
    &&& m.compute_node_wait_for_new_jobs_seconds == or_value(spec.compute_node_wait_for_new_jobs_seconds, 90i64)
    &&& m.compute_node_ignore_workflow_completion == or_value(spec.compute_node_ignore_workflow_completion, false)
    &&& m.compute_node_wait_for_healthy_database_minutes == or_value(
        spec.compute_node_wait_for_healthy_database_minutes,
        20i64,
    )
    &&& m.compute_node_min_time_for_new_jobs_seconds == Some(300i64)
    &&& m.resource_monitor_config == spec.resource_monitor
    &&& opt_entries_same(spec.slurm_defaults, m.slurm_defaults)
    &&& m.use_pending_failed == or_value(spec.use_pending_failed, false)
    &&& m.enable_ro_crate == spec.enable_ro_crate
    &&& opt_view(m.project) == opt_view(spec.project)
    &&& opt_entries_same(spec.metadata, m.metadata)
    &&& (match spec.execution_config {
        Some(c) => if is_default_config(c) {
            m.execution_config is None
        } else {
            m.execution_config matches Some(d) && same_config(c, d)
        },
        None => m.execution_config is None,
    })
    &&& m.run_id is None
    &&& m.is_canceled is None
    &&& m.is_archived is None
    &&& m.dynamic_jobs == spec.dynamic_jobs
    &&& opt_strs_view(m.access_groups) == opt_strs_view(spec.access_groups)
    &&& opt_view(m.submission_directory) == opt_view(dir)
}

fn has_worker_per_node_action_of(spec: &WorkflowSpec) -> (b: bool)
    ensures
        b == has_worker_per_node_action(*spec),
{
    match &spec.actions {
        Some(a) => {
            let mut i: usize = 0;
            while i < a.len()
                invariant
                    i <= a.len(),
                    spec.actions matches Some(x) && x@ == a@,
                    forall|k: int| 0 <= k < i ==> !#[trigger] starts_worker_per_node(a@[k]),
                decreases a.len() - i,
            {
                if str_eq(a[i].action_type.as_str(), "schedule_nodes") && a[i].start_one_worker_per_node
                    == Some(true) {
                    proof {
                        assert(starts_worker_per_node(a@[i as int]));
                    }
                    return true;
                }
                i = i + 1;
            }
            false
        },
        None => false,
    }
}

fn push_when(errors: &mut Vec<String>, c: bool, message: &str)
    ensures
        strs_view(final(errors)@) == strs_view(old(errors)@) + when(c, message@),
{
    if c {
        let ghost before = strs_view(errors@);
        let m = lit(message);
        errors.push(m);
        proof {
            assert(strs_view(errors@) =~= before + when(c, message@));
        }
    } else {
        proof {
            assert(strs_view(errors@) =~= strs_view(errors@) + when(c, message@));
        }
    }
}

fn mpi_errors_of(spec: &WorkflowSpec, ec: &ExecutionConfig, errors: &mut Vec<String>)
    ensures
        strs_view(final(errors)@) == strs_view(old(errors)@) + mpi_errors(*spec, *ec),
{
    match &ec.srun_mpi {
        Some(v) => {
            let ghost before = strs_view(errors@);
            let worker = has_worker_per_node_action_of(spec);
            match validate_srun_mpi_value(v.as_str()) {
                Err(e) => {
                    errors.push(e);
                },
                Ok(()) => {},
            }
            let ghost middle = strs_view(errors@);
            proof {
                assert(middle =~= before + (match srun_mpi_outcome(v@) {
                    Err(e) => seq![e],
                    Ok(_) => Seq::<Seq<char>>::empty(),
                }));
            }
            push_when(
                errors,
                !worker,
                "srun_mpi requires schedule_nodes.start_one_worker_per_node = true. It only applies to the outer srun that launches one job runner per node.",
            );
            proof {
                assert(strs_view(errors@) =~= before + mpi_errors(*spec, *ec));
            }
        },
        None => {
            proof {
                assert(strs_view(errors@) =~= strs_view(errors@) + mpi_errors(*spec, *ec));
            }
        },
    }
}

fn slurm_errors_of(slurm: bool, ec: &ExecutionConfig, errors: &mut Vec<String>)
    ensures
        strs_view(final(errors)@) == strs_view(old(errors)@) + (if slurm {
            when(ec.limit_resources == Some(false), limit_resources_message()) + when(
                ec.termination_signal is Some,
                termination_signal_message(),
            ) + when(ec.sigterm_lead_seconds is Some, sigterm_lead_message()) + when(
                ec.oom_exit_code is Some,
                oom_exit_code_message(),
            )
        } else {
            Seq::empty()
        }),
{
    let ghost before = strs_view(errors@);
    if slurm {
        push_when(
            errors,
            ec.limit_resources == Some(false),
            "limit_resources: false is only supported in direct mode. Slurm mode requires resource limits for correct srun behavior.",
        );
        push_when(
            errors,
            ec.termination_signal.is_some(),
            "termination_signal is only supported in direct mode. In slurm mode, use srun_termination_signal instead.",
        );
        push_when(
            errors,
            ec.sigterm_lead_seconds.is_some(),
            "sigterm_lead_seconds is only supported in direct mode. In slurm mode, termination timing is controlled by srun_termination_signal.",
        );
        push_when(
            errors,
            ec.oom_exit_code.is_some(),
            "oom_exit_code is only supported in direct mode. In slurm mode, Slurm manages OOM detection.",
        );
        proof {
            reveal_strlit("");
            assert(strs_view(errors@) =~= before + (when(ec.limit_resources == Some(false), limit_resources_message()) + when(
                ec.termination_signal is Some,
                termination_signal_message(),
            ) + when(ec.sigterm_lead_seconds is Some, sigterm_lead_message()) + when(
                ec.oom_exit_code is Some,
                oom_exit_code_message(),
            )));
        }
    } else {
        proof {
            assert(strs_view(errors@) =~= before + Seq::<Seq<char>>::empty());
        }
    }
}

fn direct_errors_of(direct: bool, ec: &ExecutionConfig, errors: &mut Vec<String>)
    ensures
        strs_view(final(errors)@) == strs_view(old(errors)@) + (if direct {
            when(ec.srun_termination_signal is Some, srun_termination_signal_message()) + when(
                ec.enable_cpu_bind == Some(true),
                enable_cpu_bind_message(),
            )
        } else {
            Seq::empty()
        }),
{
    let ghost before = strs_view(errors@);
    if direct {
        push_when(
            errors,
            ec.srun_termination_signal.is_some(),
            "srun_termination_signal is only supported in slurm mode. In direct mode, use termination_signal instead.",
        );
        push_when(
            errors,
            ec.enable_cpu_bind == Some(true),
            "enable_cpu_bind is only supported in slurm mode. It has no effect in direct mode.",
        );
        proof {
            assert(strs_view(errors@) =~= before + (when(ec.srun_termination_signal is Some, srun_termination_signal_message()) + when(
                ec.enable_cpu_bind == Some(true),
                enable_cpu_bind_message(),
            )));
        }
    } else {
        proof {
            assert(strs_view(errors@) =~= before + Seq::<Seq<char>>::empty());
        }
    }
}

fn mode_errors_of(spec: &WorkflowSpec, ec: &ExecutionConfig) -> (r: Vec<String>)
    ensures
        strs_view(r@) == mode_errors(*spec, *ec),
{
    let mut errors: Vec<String> = Vec::new();
    proof {
        assert(strs_view(errors@) =~= Seq::empty());
    }
    mpi_errors_of(spec, ec, &mut errors);
    let slurm = match ec.mode {
        ExecutionMode::Slurm => true,
        ExecutionMode::Auto => match &spec.slurm_schedulers {
            Some(s) => s.len() > 0,
            None => false,
        },
        ExecutionMode::Direct => false,
    };
    let direct = match ec.mode {
        ExecutionMode::Direct => true,
        ExecutionMode::Auto => !slurm,
        ExecutionMode::Slurm => false,
    };
    proof {
        assert(slurm == uses_slurm(*spec, *ec));
        assert(direct == uses_direct(*spec, *ec));
    }
    slurm_errors_of(slurm, ec, &mut errors);
    direct_errors_of(direct, ec, &mut errors);
    proof {
        assert(strs_view(errors@) =~= mode_errors(*spec, *ec));
    }
    errors
}

impl WorkflowSpec {
    /// The workflow record this specification is submitted as, from
    /// directory `submission_directory`: its settings, with the record's
    /// defaults where it has none (jobs are waited for 90 s), an empty
    /// environment left out, and the execution configuration kept only
    /// when it changes a default. Refused when `workflow_model_error` says so.
    pub fn to_workflow_model(&self, submission_directory: Option<String>) -> (r: Result<WorkflowModel, String>)
        ensures
            match workflow_model_error(*self) {
                Some(e) => r matches Err(x) && x@ == e,
                None => r matches Ok(m) && model_of(*self, submission_directory, m),
            },
    {
        let user = match &self.user {
            Some(u) => copy_string(u),
            None => lit("unknown"),
        };
        let mut m = WorkflowModel::new(copy_string(&self.name), user);
        m.description = copy_opt_string(&self.description);
        m.env = match &self.env {
            Some(e) => if e.len() > 0 {
                Some(copy_map(e))
            } else {
                None
            },
            None => None,
        };
        m.compute_node_wait_for_new_jobs_seconds = match self.compute_node_wait_for_new_jobs_seconds {
            Some(v) => Some(v),
            None => Some(90),
        };
        match self.compute_node_ignore_workflow_completion {
            Some(v) => {
                m.compute_node_ignore_workflow_completion = Some(v);
            },
            None => {},
        }
        match self.compute_node_wait_for_healthy_database_minutes {
            Some(v) => {
                m.compute_node_wait_for_healthy_database_minutes = Some(v);
            },
            None => {},
        }
        m.resource_monitor_config = self.resource_monitor;
        match &self.slurm_defaults {
            Some(d) => {
                match check_slurm_defaults(d) {
                    Err(e) => {
                        return Err(e);
                    },
                    Ok(()) => {},
                }
                m.slurm_defaults = Some(copy_entries(d));
            },
            None => {},
        }
        m.dynamic_jobs = self.dynamic_jobs;
        match self.use_pending_failed {
            Some(v) => {
                m.use_pending_failed = Some(v);
            },
            None => {},
        }
        match &self.execution_config {
            Some(c) => {
                if !c.is_default() {
                    m.execution_config = Some(c.copy());
                }
                let errors = mode_errors_of(self, c);
                if errors.len() > 0 {
                    return Err(join_strings(&errors, " "));
                }
            },
            None => {},
        }
        if has_worker_per_node_action_of(self) {
            let direct = match &self.execution_config {
                Some(c) => c.mode == ExecutionMode::Direct,
                None => true,
            };
            if !direct {
                return Err(lit("start_one_worker_per_node requires execution_config.mode to be 'direct'"));
            }
        }
        m.enable_ro_crate = self.enable_ro_crate;
        m.project = copy_opt_string(&self.project);
        m.metadata = copy_opt_entries(&self.metadata);
        m.access_groups = copy_opt_strings(&self.access_groups);
        m.submission_directory = submission_directory;
        Ok(m)
    }
}

// ---------------------------------------------------------------------------
// File and user data records
// ---------------------------------------------------------------------------

/// The record a file is submitted as, and whether a job reads it as input
/// (by name or by a pattern that compiles). The modification time of an
/// input file that the specification leaves unset is read from disk by the
/// caller; an output file's stays unset, which marks it as an output.
#[derive(Debug)]
pub struct FilePlan {
    pub model: FileModel,
    pub is_input: bool,
}

pub open spec fn plan_of(f: FileSpec, js: Seq<JobSpec>, wid: i64, p: FilePlan) -> bool {
    &&& p.model.id is None
    &&& p.model.workflow_id == wid
    &&& p.model.name@ == f.name@
    &&& p.model.path@ == f.path@
    &&& p.model.st_mtime_bits == f.st_mtime_bits
    &&& p.is_input == referenced_as_input(js, f.name@)
}

pub open spec fn duplicate_file_message(name: Seq<char>) -> Seq<char> {
    "Duplicate file name: "@ + name
}

pub open spec fn duplicate_user_data_message(name: Seq<char>) -> Seq<char> {
    "Duplicate user data name: "@ + name
}

/// The user data records that have a name, in order.
pub open spec fn named_user_data(uds: Seq<UserDataSpec>) -> Seq<UserDataSpec>
    decreases uds.len(),
{
    if uds.len() == 0 {
        Seq::empty()
    } else if uds.last().name is Some {
        named_user_data(uds.drop_last()).push(uds.last())
    } else {
        named_user_data(uds.drop_last())
    }
}

pub open spec fn user_data_model_of(u: UserDataSpec, wid: i64, m: UserDataModel) -> bool {
    &&& m.id is None
    &&& m.workflow_id == wid
    &&& m.is_ephemeral == u.is_ephemeral
    &&& u.name matches Some(n) && m.name@ == n@
    &&& match u.data {
        Some(d) => m.data matches Some(e) && json_same(d, e),
        None => m.data is None,
    }
}

impl WorkflowSpec {
    /// The records of the specification's files, in order, each with
    /// whether a job reads it as input. Refused when two files share a
    /// name: the error names the first file whose name was used before.
    pub fn plan_file_models(&self, workflow_id: i64) -> (r: Result<Vec<FilePlan>, String>)
        ensures
            match self.files {
                None => r matches Ok(v) && v@.len() == 0,
                Some(fs) => match first_repeat_from(file_names(fs@), 0) {
                    Some(i) => r matches Err(e) && e@ == duplicate_file_message(fs@[i].name@),
                    None => r matches Ok(v) && v@.len() == fs@.len() && forall|k: int|
                        0 <= k < fs@.len() ==> plan_of(fs@[k], self.jobs@, workflow_id, #[trigger] v@[k]),
                },
            },
    {
        match &self.files {
            None => Ok(Vec::new()),
            Some(fs) => {
                let names = names_of_files(fs);
                match first_repeat(&names) {
                    Some(i) => {
                        proof {
                            assert(strs_view(names@)[i as int] == fs@[i as int].name@);
                        }
                        return Err(concat2("Duplicate file name: ", fs[i].name.as_str()));
                    },
                    None => {},
                }
                let mut out: Vec<FilePlan> = Vec::new();
                let mut k: usize = 0;
                while k < fs.len()
                    invariant
                        k <= fs.len(),
                        out@.len() == k,
                        forall|m: int| 0 <= m < k ==> plan_of(fs@[m], self.jobs@, workflow_id, #[trigger] out@[m]),
                    decreases fs.len() - k,
                {
                    let f = &fs[k];
                    let is_input = referenced_as_exec(&self.jobs, &f.name, false);
                    let model = FileModel {
                        id: None,
                        workflow_id,
                        name: copy_string(&f.name),
                        path: copy_string(&f.path),
                        st_mtime_bits: f.st_mtime_bits,
                    };
                    out.push(FilePlan { model, is_input });
                    k = k + 1;
                }
                Ok(out)
            },
        }
    }

    /// The records of the specification's named user data, in order (a
    /// record with no name cannot be referenced and is left out). Refused
    /// when two share a name: the error names the first repeated one.
    pub fn user_data_models(&self, workflow_id: i64) -> (r: Result<Vec<UserDataModel>, String>)
        ensures
            match self.user_data {
                None => r matches Ok(v) && v@.len() == 0,
                Some(uds) => match first_repeat_from(user_data_names(uds@), 0) {
                    Some(i) => r matches Err(e) && e@ == duplicate_user_data_message(
                        user_data_names(uds@)[i],
                    ),
                    None => r matches Ok(v) && v@.len() == named_user_data(uds@).len() && forall|k: int|
                        0 <= k < v@.len() ==> user_data_model_of(
                            named_user_data(uds@)[k],
                            workflow_id,
                            #[trigger] v@[k],
                        ),
                },
            },
    {
        match &self.user_data {
            None => Ok(Vec::new()),
            Some(uds) => {
                let names = names_of_user_data(uds);
                match first_repeat(&names) {
                    Some(i) => {
                        return Err(concat2("Duplicate user data name: ", names[i].as_str()));
                    },
                    None => {},
                }
                let mut out: Vec<UserDataModel> = Vec::new();
                let mut k: usize = 0;
                proof {
                    assert(uds@.take(0) =~= Seq::<UserDataSpec>::empty());
                }
                while k < uds.len()
                    invariant
                        k <= uds.len(),
                        out@.len() == named_user_data(uds@.take(k as int)).len(),
                        forall|m: int|
                            0 <= m < out@.len() ==> user_data_model_of(
                                named_user_data(uds@.take(k as int))[m],
                                workflow_id,
                                #[trigger] out@[m],
                            ),
                    decreases uds.len() - k,
                {
                    proof {
                        assert(uds@.take(k + 1).drop_last() =~= uds@.take(k as int));
                    }
                    let u = &uds[k];
                    match &u.name {
                        Some(n) => {
                            let data = match &u.data {
                                Some(d) => Some(d.copy()),
                                None => None,
                            };
                            let model = UserDataModel {
                                id: None,
                                workflow_id,
                                is_ephemeral: u.is_ephemeral,
                                name: copy_string(n),
                                data,
                            };
                            out.push(model);
                        },
                        None => {},
                    }
                    k = k + 1;
                }
                proof {
                    assert(uds@.take(uds.len() as int) =~= uds@);
                }
                Ok(out)
            },
        }
    }
}

// ---------------------------------------------------------------------------
// The ids the server assigns
// ---------------------------------------------------------------------------

/// Which records a batch created.
#[derive(Clone, Copy, Debug, PartialEq, Eq, Structural)]
pub enum RecordKind {
    Files,
    UserData,
}

pub open spec fn count_message(k: RecordKind, got: int, expected: int) -> Seq<char> {
    match k {
        RecordKind::Files => "create_files returned "@ + int_text(got) + " files, expected "@ + int_text(expected),
        RecordKind::UserData => "create_user_data_list returned "@ + int_text(got) + " records, expected "@
            + int_text(expected),
    }
}

pub open spec fn missing_id_message(k: RecordKind) -> Seq<char> {
    match k {
        RecordKind::Files => "Created file missing ID"@,
        RecordKind::UserData => "Created user data missing ID"@,
    }
}

pub open spec fn unknown_name_message(k: RecordKind, name: Seq<char>) -> Seq<char> {
    match k {
        RecordKind::Files => "create_files returned unknown file name '"@ + name + "'"@,
        RecordKind::UserData => "create_user_data_list returned unknown user_data name '"@ + name + "'"@,
    }
}

pub open spec fn unassigned_message(k: RecordKind, name: Seq<char>) -> Seq<char> {
    match k {
        RecordKind::Files => "create_files did not return an id for file '"@ + name
            + "'; the server response omitted this name (possible API contract violation)"@,
        RecordKind::UserData => "create_user_data_list did not return an id for user_data '"@ + name
            + "'; the server response omitted this name (possible API contract violation)"@,
    }
}

/// The index of the first entry named `name` at or after `i`.
pub open spec fn name_index(m: Seq<(Seq<char>, i64)>, name: Seq<char>, i: nat) -> Option<nat>
    decreases m.len() - i,
{
    if i >= m.len() {
        None
    } else if m[i as int].0 == name {
        Some(i)
    } else {
        name_index(m, name, i + 1)
    }
}

/// The ids after taking in the first `k` created records, and the error
/// that stopped it, if any: a record without an id, or with a name that
/// was not asked for.
pub open spec fn record_fold(
    m: Seq<(Seq<char>, i64)>,
    created: Seq<(Option<i64>, Seq<char>)>,
    kind: RecordKind,
    k: nat,
) -> (Seq<(Seq<char>, i64)>, Option<Seq<char>>)
    decreases k,
{
    if k == 0 || k > created.len() {
        (m, None)
    } else {
        let (ids, err) = record_fold(m, created, kind, (k - 1) as nat);
        if err is Some {
            (ids, err)
        } else {
            match created[k - 1].0 {
                None => (ids, Some(missing_id_message(kind))),
                Some(id) => match name_index(ids, created[k - 1].1, 0) {
                    Some(i) => (ids.update(i as int, (created[k - 1].1, id)), None),
                    None => (ids, Some(unknown_name_message(kind, created[k - 1].1))),
                },
            }
        }
    }
}

pub open spec fn created_view(c: Seq<(Option<i64>, String)>) -> Seq<(Option<i64>, Seq<char>)> {
    c.map_values(|e: (Option<i64>, String)| (e.0, e.1@))
}

/// Takes in the records the server created for a batch of `batch_len`
/// records: each record's id is stored under its name (the order of the
/// answer does not matter). Refused when the count differs from the batch,
/// when a record has no id, or when a name was not asked for; the ids
/// taken in before the refusal stay.
pub fn record_created_ids(
    ids: &mut Vec<(String, i64)>,
    created: &Vec<(Option<i64>, String)>,
    batch_len: usize,
    kind: RecordKind,
) -> (r: Result<(), String>)
    ensures
        created@.len() != batch_len ==> (r matches Err(e) && e@ == count_message(
            kind,
            created@.len() as int,
            batch_len as int,
        )) && ids_view(final(ids)@) == ids_view(old(ids)@),
        created@.len() == batch_len ==> ({
            let (m, err) = record_fold(ids_view(old(ids)@), created_view(created@), kind, created@.len());
            &&& ids_view(final(ids)@) == m
            &&& match err {
                Some(e) => r matches Err(x) && x@ == e,
                None => r is Ok,
            }
        }),
{
    if created.len() != batch_len {
        let got = i64_digits_of_usize(created.len());
        let expected = i64_digits_of_usize(batch_len);
        let e = match kind {
            RecordKind::Files => concat5("create_files returned ", got.as_str(), " files, expected ", expected.as_str(), ""),
            RecordKind::UserData => concat5(
                "create_user_data_list returned ",
                got.as_str(),
                " records, expected ",
                expected.as_str(),
                "",
            ),
        };
        proof {
            reveal_strlit("");
            assert(e@ =~= count_message(kind, created@.len() as int, batch_len as int));
        }
        return Err(e);
    }
    let ghost start = ids_view(ids@);
    let ghost cv = created_view(created@);
    let mut k: usize = 0;
    while k < created.len()
        invariant
            k <= created.len(),
            created@.len() == batch_len,
            start == ids_view(old(ids)@),
            cv == created_view(created@),
            record_fold(start, cv, kind, k as nat) == (ids_view(ids@), None::<Seq<char>>),
        decreases created.len() - k,
    {
        match created[k].0 {
            None => {
                proof {
                    lemma_record_error_stays(start, cv, kind, (k + 1) as nat, cv.len());
                }
                return Err(
                    match kind {
                        RecordKind::Files => lit("Created file missing ID"),
                        RecordKind::UserData => lit("Created user data missing ID"),
                    },
                );
            },
            Some(id) => {
                let ghost before = ids_view(ids@);
                let mut j: usize = 0;
                let mut found = false;
                while j < ids.len() && !found
                    invariant
                        j <= ids.len(),
                        k < created.len(),
                        before == ids_view(ids@),
                        !found ==> name_index(before, created@[k as int].1@, 0) == name_index(
                            before,
                            created@[k as int].1@,
                            j as nat,
                        ),
                        found ==> j < ids.len() && name_index(before, created@[k as int].1@, 0) == Some(
                            j as nat,
                        ),
                    decreases ids.len() - j + (if found { 0int } else { 1int }),
                {
                    if string_eq(&ids[j].0, &created[k].1) {
                        proof {
                            assert(name_index(before, created@[k as int].1@, j as nat) == Some(j as nat));
                        }
                        found = true;
                    } else {
                        j = j + 1;
                    }
                }
                if !found {
                    proof {
                        assert(name_index(before, created@[k as int].1@, 0) is None);
                        assert(cv[k as int] == (created@[k as int].0, created@[k as int].1@));
                        assert(record_fold(start, cv, kind, (k + 1) as nat).1 is Some);
                        lemma_record_error_stays(start, cv, kind, (k + 1) as nat, cv.len());
                    }
                    return Err(
                        match kind {
                            RecordKind::Files => concat3(
                                "create_files returned unknown file name '",
                                created[k].1.as_str(),
                                "'",
                            ),
                            RecordKind::UserData => concat3(
                                "create_user_data_list returned unknown user_data name '",
                                created[k].1.as_str(),
                                "'",
                            ),
                        },
                    );
                }
                ids[j] = (copy_string(&created[k].1), id);
                proof {
                    assert(ids_view(ids@) =~= before.update(j as int, (created@[k as int].1@, id)));
                }
            },
        }
        k = k + 1;
    }
    Ok(())
}

proof fn lemma_record_error_stays(
    m: Seq<(Seq<char>, i64)>,
    created: Seq<(Option<i64>, Seq<char>)>,
    kind: RecordKind,
    k: nat,
    j: nat,
)
    requires
        k <= j <= created.len(),
        record_fold(m, created, kind, k).1 is Some,
    ensures
        record_fold(m, created, kind, j) == record_fold(m, created, kind, k),
    decreases j - k,
{
    if j > k {
        lemma_record_error_stays(m, created, kind, k, (j - 1) as nat);
    }
}

/// The index of the first entry whose id is still 0 (not assigned by the server).
pub open spec fn first_unassigned(m: Seq<(Seq<char>, i64)>, i: nat) -> Option<nat>
    decreases m.len() - i,
{
    if i >= m.len() {
        None
    } else if m[i as int].1 == 0 {
        Some(i)
    } else {
        first_unassigned(m, i + 1)
    }
}

/// The error for the first name whose id the server never gave (still 0), if any.
pub fn unassigned_error(ids: &Vec<(String, i64)>, kind: RecordKind) -> (r: Option<String>)
    ensures
        match first_unassigned(ids_view(ids@), 0) {
            Some(i) => r matches Some(e) && e@ == unassigned_message(kind, ids_view(ids@)[i as int].0),
            None => r is None,
        },
{
    let ghost v = ids_view(ids@);
    let mut i: usize = 0;
    while i < ids.len()
        invariant
            i <= ids.len(),
            v == ids_view(ids@),
            first_unassigned(v, 0) == first_unassigned(v, i as nat),
        decreases ids.len() - i,
    {
        if ids[i].1 == 0 {
            proof {
                assert(first_unassigned(v, i as nat) == Some(i as nat));
            }
            return Some(
                match kind {
                    RecordKind::Files => concat3(
                        "create_files did not return an id for file '",
                        ids[i].0.as_str(),
                        "'; the server response omitted this name (possible API contract violation)",
                    ),
                    RecordKind::UserData => concat3(
                        "create_user_data_list did not return an id for user_data '",
                        ids[i].0.as_str(),
                        "'; the server response omitted this name (possible API contract violation)",
                    ),
                },
            );
        }
        i = i + 1;
    }
    None
}

fn i64_digits_of_usize(n: usize) -> (s: String)
    ensures
        s@ == int_text(n as int),
{
    let v = u128_digits(n as u128);
    proof {
        assert(int_text(n as int) == nat_digits(n as nat));
    }
    string_of(&v)
}

// ---------------------------------------------------------------------------
// Action records
// ---------------------------------------------------------------------------

/// The ids of the exact job names, in order, or the error for the first unknown one.
pub open spec fn action_exact_ids(names: Seq<Seq<char>>, m: Seq<(Seq<char>, i64)>) -> Result<Seq<i64>, Seq<char>>
    decreases names.len(),
{
    if names.len() == 0 {
        Ok(Seq::empty())
    } else {
        match action_exact_ids(names.drop_last(), m) {
            Err(e) => Err(e),
            Ok(ids) => match lookup_id(m, names.last()) {
                Some(id) => Ok(ids.push(id)),
                None => Err("Action references job '"@ + names.last() + "' which does not exist"@),
            },
        }
    }
}

/// `ids` followed by the ids of the jobs each pattern matches (each id
/// once), or the error for the first pattern that does not compile.
pub open spec fn action_pattern_ids(ps: Seq<Seq<char>>, m: Seq<(Seq<char>, i64)>, ids: Seq<i64>) -> Result<
    Seq<i64>,
    Seq<char>,
>
    decreases ps.len(),
{
    if ps.len() == 0 {
        Ok(ids)
    } else {
        match action_pattern_ids(ps.drop_last(), m, ids) {
            Err(e) => Err(e),
            Ok(so_far) => match regex_compile_error(ps.last()) {
                Some(e) => Err("Invalid regex '"@ + ps.last() + "': "@ + e),
                None => Ok(so_far + added_ids(m, ps.last(), so_far)),
            },
        }
    }
}

/// The jobs an action applies to: none named (`None`), or the ids of its
/// job names and of the jobs its patterns match, which must not be empty.
pub open spec fn action_job_ids(a: WorkflowActionSpec, m: Seq<(Seq<char>, i64)>) -> Result<Option<Seq<i64>>, Seq<char>> {
    if a.jobs is None && a.job_name_regexes is None {
        Ok(None)
    } else {
        match action_exact_ids(or_none(a.jobs), m) {
            Err(e) => Err(e),
            Ok(ids) => match action_pattern_ids(or_none(a.job_name_regexes), m, ids) {
                Err(e) => Err(e),
                Ok(all) => if all.len() == 0 {
                    Err("Action did not match any jobs"@)
                } else {
                    Ok(Some(all))
                },
            },
        }
    }
}

pub open spec fn strings_json(v: Seq<Seq<char>>) -> Seq<JsonView> {
    v.map_values(|s: Seq<char>| JsonView::Str(s))
}

/// The configuration of an action: the commands to run, or the scheduler
/// to schedule nodes with (a Slurm scheduler by its id, another type with
/// id 0) and how.
pub open spec fn action_config(a: WorkflowActionSpec, schedulers: Seq<(Seq<char>, i64)>) -> Result<JsonView, Seq<char>> {
    if a.action_type@ == "run_commands"@ {
        match a.commands {
            None => Err("run_commands action requires 'commands' field"@),
            Some(c) => Ok(JsonView::Object(seq![("commands"@, JsonView::Array(strings_json(strs_view(c@))))])),
        }
    } else if a.action_type@ == "schedule_nodes"@ {
        match a.scheduler_type {
            None => Err("schedule_nodes action requires 'scheduler_type' field"@),
            Some(t) => match a.scheduler {
                None => Err("schedule_nodes action requires 'scheduler' field"@),
                Some(s) => {
                    let id = if t@ == "slurm"@ {
                        lookup_id(schedulers, s@)
                    } else {
                        Some(0i64)
                    };
                    match id {
                        None => Err("Slurm scheduler '"@ + s@ + "' not found"@),
                        Some(i) => Ok(
                            JsonView::Object(
                                seq![
                                    ("scheduler_type"@, JsonView::Str(t@)),
                                    ("scheduler_id"@, JsonView::Number(int_text(i as int))),
                                    ("num_allocations"@, JsonView::Number(int_text(i64_or(a.num_allocations, 1) as int))),
                                    ("start_one_worker_per_node"@, JsonView::Bool(bool_or(a.start_one_worker_per_node, false))),
                                ] + match a.max_parallel_jobs {
                                    Some(n) => seq![("max_parallel_jobs"@, JsonView::Number(int_text(n as int)))],
                                    None => Seq::empty(),
                                },
                            ),
                        ),
                    }
                },
            },
        }
    } else {
        Err("Unknown action_type: "@ + a.action_type@)
    }
}

pub open spec fn action_model_of(
    m: WorkflowActionModel,
    wid: i64,
    a: WorkflowActionSpec,
    job_ids: Option<Seq<i64>>,
    config: JsonView,
) -> bool {
    &&& m.id is None
    &&& m.workflow_id == wid
    &&& m.trigger_type@ == a.trigger_type@
    &&& m.action_type@ == a.action_type@
    &&& jv(m.action_config) == config
    &&& opt_ids(m.job_ids) == job_ids
    &&& m.trigger_count == 0
    &&& m.required_triggers == 1
    &&& !m.executed
    &&& m.executed_at is None
    &&& m.executed_by is None
    &&& m.persistent == bool_or(a.persistent, false)
    &&& !m.is_recovery
}

fn action_job_ids_of(a: &WorkflowActionSpec, jobs: &Vec<(String, i64)>) -> (r: Result<Option<Vec<i64>>, String>)
    ensures
        match action_job_ids(*a, ids_view(jobs@)) {
            Err(e) => r matches Err(x) && x@ == e,
            Ok(ids) => r matches Ok(v) && opt_ids(v) == ids,
        },
{
    if a.jobs.is_none() && a.job_name_regexes.is_none() {
        return Ok(None);
    }
    let ghost mv = ids_view(jobs@);
    let mut ids: Vec<i64> = Vec::new();
    match &a.jobs {
        Some(names) => {
            let ghost nv = strs_view(names@);
            let mut i: usize = 0;
            proof {
                assert(nv.take(0) =~= Seq::<Seq<char>>::empty());
            }
            while i < names.len()
                invariant
                    i <= names.len(),
                    nv == strs_view(names@),
                    mv == ids_view(jobs@),
                    a.jobs == Some(*names),
                    action_exact_ids(nv.take(i as int), mv) == Ok::<Seq<i64>, Seq<char>>(ids@),
                decreases names.len() - i,
            {
                proof {
                    assert(nv.take(i + 1).drop_last() =~= nv.take(i as int));
                }
                match lookup_id_exec(jobs, &names[i]) {
                    Some(id) => {
                        ids.push(id);
                    },
                    None => {
                        proof {
                            lemma_action_exact_error_persists(nv, mv, (i + 1) as int);
                        }
                        return Err(
                            concat3("Action references job '", names[i].as_str(), "' which does not exist"),
                        );
                    },
                }
                i = i + 1;
            }
            proof {
                assert(nv.take(names.len() as int) =~= nv);
            }
        },
        None => {},
    }
    let ghost start = ids@;
    match &a.job_name_regexes {
        Some(ps) => {
            let ghost pv = strs_view(ps@);
            let mut i: usize = 0;
            proof {
                assert(pv.take(0) =~= Seq::<Seq<char>>::empty());
            }
            while i < ps.len()
                invariant
                    i <= ps.len(),
                    pv == strs_view(ps@),
                    mv == ids_view(jobs@),
                    action_exact_ids(or_none(a.jobs), mv) == Ok::<Seq<i64>, Seq<char>>(start),
                    action_pattern_ids(pv.take(i as int), mv, start) == Ok::<Seq<i64>, Seq<char>>(ids@),
                    a.job_name_regexes == Some(*ps),
                    !(a.jobs is None && a.job_name_regexes is None),
                decreases ps.len() - i,
            {
                proof {
                    assert(pv.take(i + 1).drop_last() =~= pv.take(i as int));
                }
                let re = match compile_regex(ps[i].as_str()) {
                    Ok(re) => re,
                    Err(e) => {
                        proof {
                            reveal_strlit("");
                            lemma_action_pattern_error_persists(pv, mv, start, (i + 1) as int);
                        }
                        return Err(concat5("Invalid regex '", ps[i].as_str(), "': ", e.as_str(), ""));
                    },
                };
                let added = ids_matching(&re, jobs, &ids);
                let ghost before = ids@;
                let mut k: usize = 0;
                while k < added.len()
                    invariant
                        k <= added.len(),
                        ids@ == before + added@.take(k as int),
                    decreases added.len() - k,
                {
                    ids.push(added[k]);
                    proof {
                        assert(ids@ =~= before + added@.take(k + 1));
                    }
                    k = k + 1;
                }
                proof {
                    assert(added@.take(added.len() as int) =~= added@);
                }
                i = i + 1;
            }
            proof {
                assert(pv.take(ps.len() as int) =~= pv);
            }
        },
        None => {
            proof {
                assert(or_none(a.job_name_regexes) =~= Seq::<Seq<char>>::empty());
            }
        },
    }
    if ids.len() == 0 {
        return Err(lit("Action did not match any jobs"));
    }
    Ok(Some(ids))
}

proof fn lemma_action_exact_error_persists(names: Seq<Seq<char>>, m: Seq<(Seq<char>, i64)>, k: int)
    requires
        0 <= k <= names.len(),
        action_exact_ids(names.take(k), m) is Err,
    ensures
        action_exact_ids(names, m) == action_exact_ids(names.take(k), m),
    decreases names.len() - k,
{
    if k < names.len() {
        assert(names.take(k + 1).drop_last() =~= names.take(k));
        lemma_action_exact_error_persists(names, m, k + 1);
    } else {
        assert(names.take(k) =~= names);
    }
}

proof fn lemma_action_pattern_error_persists(ps: Seq<Seq<char>>, m: Seq<(Seq<char>, i64)>, ids: Seq<i64>, k: int)
    requires
        0 <= k <= ps.len(),
        action_pattern_ids(ps.take(k), m, ids) is Err,
    ensures
        action_pattern_ids(ps, m, ids) == action_pattern_ids(ps.take(k), m, ids),
    decreases ps.len() - k,
{
    if k < ps.len() {
        assert(ps.take(k + 1).drop_last() =~= ps.take(k));
        lemma_action_pattern_error_persists(ps, m, ids, k + 1);
    } else {
        assert(ps.take(k) =~= ps);
    }
}

fn string_items(v: &Vec<String>) -> (r: Vec<JsonValue>)
    ensures
        views(r@) == strings_json(strs_view(v@)),
{
    let mut out: Vec<JsonValue> = Vec::new();
    let mut i: usize = 0;
    while i < v.len()
        invariant
            i <= v.len(),
            views(out@) == strings_json(strs_view(v@.take(i as int))),
        decreases v.len() - i,
    {
        push_item(&mut out, JsonValue::String(copy_string(&v[i])));
        proof {
            assert(strings_json(strs_view(v@.take(i + 1))) =~= strings_json(strs_view(v@.take(i as int))).push(
                JsonView::Str(v@[i as int]@),
            ));
        }
        i = i + 1;
    }
    proof {
        assert(v@.take(v.len() as int) =~= v@);
    }
    out
}

fn action_config_of(a: &WorkflowActionSpec, schedulers: &Vec<(String, i64)>) -> (r: Result<JsonValue, String>)
    ensures
        match action_config(*a, ids_view(schedulers@)) {
            Err(e) => r matches Err(x) && x@ == e,
            Ok(c) => r matches Ok(v) && jv(v) == c,
        },
{
    if str_eq(a.action_type.as_str(), "run_commands") {
        match &a.commands {
            None => Err(lit("run_commands action requires 'commands' field")),
            Some(c) => {
                let items = string_items(c);
                proof {
                    lemma_jv_array(items);
                }
                let mut m: Vec<(String, JsonValue)> = Vec::new();
                m.push((lit("commands"), JsonValue::Array(items)));
                proof {
                    lemma_jv_object(m);
                    assert(entry_views(m@) =~= seq![("commands"@, JsonView::Array(strings_json(strs_view(c@))))]);
                }
                Ok(JsonValue::Object(m))
            },
        }
    } else if str_eq(a.action_type.as_str(), "schedule_nodes") {
        match &a.scheduler_type {
            None => Err(lit("schedule_nodes action requires 'scheduler_type' field")),
            Some(t) => match &a.scheduler {
                None => Err(lit("schedule_nodes action requires 'scheduler' field")),
                Some(s) => {
                    let id = if str_eq(t.as_str(), "slurm") {
                        lookup_id_exec(schedulers, s)
                    } else {
                        Some(0)
                    };
                    match id {
                        None => Err(concat3("Slurm scheduler '", s.as_str(), "' not found")),
                        Some(i) => {
                            let mut m: Vec<(String, JsonValue)> = Vec::new();
                            m.push((lit("scheduler_type"), JsonValue::String(copy_string(t))));
                            m.push((lit("scheduler_id"), JsonValue::Number(i64_to_string(i))));
                            let n = match a.num_allocations {
                                Some(n) => n,
                                None => 1,
                            };
                            m.push((lit("num_allocations"), JsonValue::Number(i64_to_string(n))));
                            let w = match a.start_one_worker_per_node {
                                Some(w) => w,
                                None => false,
                            };
                            m.push((lit("start_one_worker_per_node"), JsonValue::Bool(w)));
                            match a.max_parallel_jobs {
                                Some(p) => {
                                    m.push((lit("max_parallel_jobs"), JsonValue::Number(i64_to_string(p as i64))));
                                },
                                None => {},
                            }
                            proof {
                                lemma_jv_object(m);
                                assert(entry_views(m@) =~= seq![
                                    ("scheduler_type"@, JsonView::Str(t@)),
                                    ("scheduler_id"@, JsonView::Number(int_text(i as int))),
                                    ("num_allocations"@, JsonView::Number(int_text(i64_or(a.num_allocations, 1) as int))),
                                    ("start_one_worker_per_node"@, JsonView::Bool(bool_or(a.start_one_worker_per_node, false))),
                                ] + match a.max_parallel_jobs {
                                    Some(n) => seq![("max_parallel_jobs"@, JsonView::Number(int_text(n as int)))],
                                    None => Seq::<(Seq<char>, JsonView)>::empty(),
                                });
                            }
                            Ok(JsonValue::Object(m))
                        },
                    }
                },
            },
        }
    } else {
        Err(concat2("Unknown action_type: ", a.action_type.as_str()))
    }
}

/// The record an action is submitted as, its job names and patterns
/// resolved to the ids of `jobs` and its scheduler to the ids of
/// `schedulers`. The jobs are resolved first, then the configuration.
pub fn action_model_for(
    workflow_id: i64,
    a: &WorkflowActionSpec,
    schedulers: &Vec<(String, i64)>,
    jobs: &Vec<(String, i64)>,
) -> (r: Result<WorkflowActionModel, String>)
    ensures
        match action_job_ids(*a, ids_view(jobs@)) {
            Err(e) => r matches Err(x) && x@ == e,
            Ok(job_ids) => match action_config(*a, ids_view(schedulers@)) {
                Err(e) => r matches Err(x) && x@ == e,
                Ok(config) => r matches Ok(m) && action_model_of(m, workflow_id, *a, job_ids, config),
            },
        },
{
    let job_ids = match action_job_ids_of(a, jobs) {
        Err(e) => {
            return Err(e);
        },
        Ok(ids) => ids,
    };
    let config = match action_config_of(a, schedulers) {
        Err(e) => {
            return Err(e);
        },
        Ok(c) => c,
    };
    let mut m = WorkflowActionModel::new(
        workflow_id,
        copy_string(&a.trigger_type),
        copy_string(&a.action_type),
        config,
    );
    m.job_ids = job_ids;
    m.persistent = match a.persistent {
        Some(p) => p,
        None => false,
    };
    Ok(m)
}

// ---------------------------------------------------------------------------
// Resource requirements, schedulers and failure handlers
// ---------------------------------------------------------------------------

pub open spec fn requirement_names(rs: Seq<ResourceRequirementsSpec>) -> Seq<Seq<char>> {
    rs.map_values(|r: ResourceRequirementsSpec| r.name@)
}

pub open spec fn handler_names(hs: Seq<FailureHandlerSpec>) -> Seq<Seq<char>> {
    hs.map_values(|h: FailureHandlerSpec| h.name@)
}

/// The Slurm schedulers that have a name, in order.
pub open spec fn named_schedulers(ss: Seq<SlurmSchedulerSpec>) -> Seq<SlurmSchedulerSpec>
    decreases ss.len(),
{
    if ss.len() == 0 {
        Seq::empty()
    } else if ss.last().name is Some {
        named_schedulers(ss.drop_last()).push(ss.last())
    } else {
        named_schedulers(ss.drop_last())
    }
}

pub open spec fn scheduler_names(ss: Seq<SlurmSchedulerSpec>) -> Seq<Seq<char>> {
    named_schedulers(ss).map_values(|s: SlurmSchedulerSpec| s.name->0@)
}

pub open spec fn requirement_model_of(r: ResourceRequirementsSpec, wid: i64, m: ResourceRequirementsModel) -> bool {
    &&& m.id is None
    &&& m.workflow_id == wid
    &&& m.name@ == r.name@
    &&& m.num_cpus == r.num_cpus
    &&& m.num_gpus == r.num_gpus
    &&& m.num_nodes == r.num_nodes
    &&& m.memory@ == r.memory@
    &&& m.runtime@ == r.runtime@
}

pub open spec fn scheduler_model_of(s: SlurmSchedulerSpec, wid: i64, m: SlurmSchedulerModel) -> bool {
    &&& m.id is None
    &&& m.workflow_id == wid
    &&& opt_view(m.name) == opt_view(s.name)
    &&& m.account@ == s.account@
    &&& opt_view(m.gres) == opt_view(s.gres)
    &&& opt_view(m.mem) == opt_view(s.mem)
    &&& m.nodes == s.nodes
    &&& m.ntasks_per_node == s.ntasks_per_node
    &&& opt_view(m.partition) == opt_view(s.partition)
    &&& opt_view(m.qos) == opt_view(s.qos)
    &&& opt_view(m.tmp) == opt_view(s.tmp)
    &&& m.walltime@ == s.walltime@
    &&& opt_view(m.extra) == opt_view(s.extra)
}

impl WorkflowSpec {
    /// The records of the resource requirements, in order. Refused when two
    /// share a name: the error names the first repeated one.
    pub fn resource_requirements_models(&self, workflow_id: i64) -> (r: Result<Vec<ResourceRequirementsModel>, String>)
        ensures
            match self.resource_requirements {
                None => r matches Ok(v) && v@.len() == 0,
                Some(rs) => match first_repeat_from(requirement_names(rs@), 0) {
                    Some(i) => r matches Err(e) && e@ == "Duplicate resource requirements name: "@ + rs@[i].name@,
                    None => r matches Ok(v) && v@.len() == rs@.len() && forall|k: int|
                        0 <= k < rs@.len() ==> requirement_model_of(rs@[k], workflow_id, #[trigger] v@[k]),
                },
            },
    {
        match &self.resource_requirements {
            None => Ok(Vec::new()),
            Some(rs) => {
                let mut names: Vec<String> = Vec::new();
                let mut i: usize = 0;
                while i < rs.len()
                    invariant
                        i <= rs.len(),
                        strs_view(names@) == requirement_names(rs@).take(i as int),
                    decreases rs.len() - i,
                {
                    let c = copy_string(&rs[i].name);
                    let ghost prev = names@;
                    names.push(c);
                    proof {
                        assert(names@ == prev.push(c));
                        assert(strs_view(names@) =~= strs_view(prev).push(c@));
                        assert(strs_view(names@) =~= requirement_names(rs@).take(i + 1));
                    }
                    i = i + 1;
                }
                proof {
                    assert(requirement_names(rs@).take(rs.len() as int) =~= requirement_names(rs@));
                }
                match first_repeat(&names) {
                    Some(i) => {
                        return Err(concat2("Duplicate resource requirements name: ", rs[i].name.as_str()));
                    },
                    None => {},
                }
                let mut out: Vec<ResourceRequirementsModel> = Vec::new();
                let mut k: usize = 0;
                while k < rs.len()
                    invariant
                        k <= rs.len(),
                        out@.len() == k,
                        forall|m: int| 0 <= m < k ==> requirement_model_of(rs@[m], workflow_id, #[trigger] out@[m]),
                    decreases rs.len() - k,
                {
                    let q = &rs[k];
                    out.push(
                        ResourceRequirementsModel {
                            id: None,
                            workflow_id,
                            name: copy_string(&q.name),
                            num_cpus: q.num_cpus,
                            num_gpus: q.num_gpus,
                            num_nodes: q.num_nodes,
                            memory: copy_string(&q.memory),
                            runtime: copy_string(&q.runtime),
                        },
                    );
                    k = k + 1;
                }
                Ok(out)
            },
        }
    }

    /// The records of the Slurm schedulers that have a name, in order (one
    /// without a name cannot be referenced and is left out). Refused when
    /// two share a name: the error names the first repeated one.
    pub fn slurm_scheduler_models(&self, workflow_id: i64) -> (r: Result<Vec<SlurmSchedulerModel>, String>)
        ensures
            match self.slurm_schedulers {
                None => r matches Ok(v) && v@.len() == 0,
                Some(ss) => match first_repeat_from(scheduler_names(ss@), 0) {
                    Some(i) => r matches Err(e) && e@ == "Duplicate slurm scheduler name: "@ + scheduler_names(ss@)[i],
                    None => r matches Ok(v) && v@.len() == named_schedulers(ss@).len() && forall|k: int|
                        0 <= k < v@.len() ==> scheduler_model_of(named_schedulers(ss@)[k], workflow_id, #[trigger] v@[k]),
                },
            },
    {
        match &self.slurm_schedulers {
            None => Ok(Vec::new()),
            Some(ss) => {
                let mut names: Vec<String> = Vec::new();
                let mut out: Vec<SlurmSchedulerModel> = Vec::new();
                let mut i: usize = 0;
                proof {
                    assert(ss@.take(0) =~= Seq::<SlurmSchedulerSpec>::empty());
                    assert(strs_view(names@) =~= scheduler_names(ss@.take(0)));
                }
                while i < ss.len()
                    invariant
                        i <= ss.len(),
                        strs_view(names@) == scheduler_names(ss@.take(i as int)),
                        out@.len() == named_schedulers(ss@.take(i as int)).len(),
                        forall|m: int|
                            0 <= m < out@.len() ==> scheduler_model_of(
                                named_schedulers(ss@.take(i as int))[m],
                                workflow_id,
                                #[trigger] out@[m],
                            ),
                    decreases ss.len() - i,
                {
                    proof {
                        assert(ss@.take(i + 1).drop_last() =~= ss@.take(i as int));
                    }
                    let q = &ss[i];
                    match &q.name {
                        Some(n) => {
                            let c = copy_string(n);
                            let ghost prev = names@;
                            names.push(c);
                            proof {
                                assert(names@ == prev.push(c));
                                assert(strs_view(names@) =~= strs_view(prev).push(c@));
                                assert(ss@.take(i + 1).last() == ss@[i as int]);
                                assert(named_schedulers(ss@.take(i + 1)) == named_schedulers(ss@.take(i as int)).push(
                                    ss@[i as int],
                                ));
                                assert(strs_view(names@) =~= scheduler_names(ss@.take(i + 1)));
                            }
                            out.push(
                                SlurmSchedulerModel {
                                    id: None,
                                    workflow_id,
                                    name: Some(copy_string(n)),
                                    account: copy_string(&q.account),
                                    gres: copy_opt_string(&q.gres),
                                    mem: copy_opt_string(&q.mem),
                                    nodes: q.nodes,
                                    ntasks_per_node: q.ntasks_per_node,
                                    partition: copy_opt_string(&q.partition),
                                    qos: copy_opt_string(&q.qos),
                                    tmp: copy_opt_string(&q.tmp),
                                    walltime: copy_string(&q.walltime),
                                    extra: copy_opt_string(&q.extra),
                                },
                            );
                        },
                        None => {
                            proof {
                                assert(scheduler_names(ss@.take(i + 1)) =~= scheduler_names(ss@.take(i as int)));
                            }
                        },
                    }
                    i = i + 1;
                }
                proof {
                    assert(ss@.take(ss.len() as int) =~= ss@);
                }
                match first_repeat(&names) {
                    Some(i) => {
                        return Err(concat2("Duplicate slurm scheduler name: ", names[i].as_str()));
                    },
                    None => {},
                }
                Ok(out)
            },
        }
    }

    /// The records of the failure handlers, in order, each with the JSON
    /// text of its rules from `rules_texts` (one per handler, in order).
    /// Refused when two share a name: the error names the first repeated one.
    pub fn failure_handler_models(&self, workflow_id: i64, rules_texts: &Vec<String>) -> (r: Result<
        Vec<FailureHandlerModel>,
        String,
    >)
        requires
            self.failure_handlers matches Some(hs) ==> rules_texts@.len() == hs@.len(),
        ensures
            match self.failure_handlers {
                None => r matches Ok(v) && v@.len() == 0,
                Some(hs) => match first_repeat_from(handler_names(hs@), 0) {
                    Some(i) => r matches Err(e) && e@ == "Duplicate failure handler name: "@ + hs@[i].name@,
                    None => r matches Ok(v) && v@.len() == hs@.len() && forall|k: int|
                        0 <= k < hs@.len() ==> {
                            &&& (#[trigger] v@[k]).id is None
                            &&& v@[k].workflow_id == workflow_id
                            &&& v@[k].name@ == hs@[k].name@
                            &&& v@[k].rules@ == rules_texts@[k]@
                        },
                },
            },
    {
        match &self.failure_handlers {
            None => Ok(Vec::new()),
            Some(hs) => {
                let mut names: Vec<String> = Vec::new();
                let mut i: usize = 0;
                while i < hs.len()
                    invariant
                        i <= hs.len(),
                        strs_view(names@) == handler_names(hs@).take(i as int),
                    decreases hs.len() - i,
                {
                    let c = copy_string(&hs[i].name);
                    let ghost prev = names@;
                    names.push(c);
                    proof {
                        assert(names@ == prev.push(c));
                        assert(strs_view(names@) =~= strs_view(prev).push(c@));
                        assert(strs_view(names@) =~= handler_names(hs@).take(i + 1));
                    }
                    i = i + 1;
                }
                proof {
                    assert(handler_names(hs@).take(hs.len() as int) =~= handler_names(hs@));
                }
                match first_repeat(&names) {
                    Some(i) => {
                        return Err(concat2("Duplicate failure handler name: ", hs[i].name.as_str()));
                    },
                    None => {},
                }
                let mut out: Vec<FailureHandlerModel> = Vec::new();
                let mut k: usize = 0;
                while k < hs.len()
                    invariant
                        k <= hs.len(),
                        rules_texts@.len() == hs@.len(),
                        out@.len() == k,
                        forall|m: int|
                            0 <= m < k ==> {
                                &&& (#[trigger] out@[m]).id is None
                                &&& out@[m].workflow_id == workflow_id
                                &&& out@[m].name@ == hs@[m].name@
                                &&& out@[m].rules@ == rules_texts@[m]@
                            },
                    decreases hs.len() - k,
                {
                    out.push(FailureHandlerModel::new(workflow_id, copy_string(&hs[k].name), copy_string(&rules_texts[k])));
                    k = k + 1;
                }
                Ok(out)
            },
        }
    }
}

// ---------------------------------------------------------------------------
// Preparing a specification for creation
// ---------------------------------------------------------------------------

/// The monitoring switched on by the command line when a specification
/// has none: job monitoring with summaries, sampled every 10 s.
pub open spec fn default_job_monitoring() -> ResourceMonitorConfig {
    ResourceMonitorConfig {
        enabled: true,
        granularity: MonitorGranularity::Summary,
        sample_interval_seconds: 10,
        flush_interval_seconds: 300,
        generate_plots: false,
        jobs: Some(JobMonitorConfig { enabled: true, granularity: MonitorGranularity::Summary }),
        compute_node: None,
    }
}

/// The specification with its owner set, and with monitoring when asked
/// for and it has none.
pub open spec fn with_owner(w: WorkflowSpec, user: String, monitoring: bool) -> WorkflowSpec {
    WorkflowSpec {
        user: Some(user),
        resource_monitor: if monitoring && w.resource_monitor is None {
            Some(default_job_monitoring())
        } else {
            w.resource_monitor
        },
        ..w
    }
}

/// `after` is `before` prepared for creation, ending with `r`: owner and
/// monitoring set, parameters expanded, then the names, environments and
/// actions checked; the first failure ends it. When all pass, the
/// variables are substituted and the file identifiers checked.
pub open spec fn prepared_as(
    before: WorkflowSpec,
    after: WorkflowSpec,
    user: String,
    monitoring: bool,
    tables: Seq<(String, Vec<Bindings>)>,
    r: Result<(), String>,
) -> bool {
    exists|s1: WorkflowSpec, r1: Result<(), String>|
        #[trigger] expanded_as(with_owner(before, user, monitoring), s1, tables, r1) && prepared_after(
            s1,
            r1,
            after,
            r,
        )
}

pub open spec fn prepared_after(s1: WorkflowSpec, r1: Result<(), String>, after: WorkflowSpec, r: Result<(), String>) -> bool {
    if r1 is Err {
        after == s1 && unit_view(r) == unit_view(r1)
    } else if unique_names_verdict(s1) is Err {
        after == s1 && unit_view(r) == unique_names_verdict(s1)
    } else if env_maps_verdict(s1) is Err {
        after == s1 && unit_view(r) == env_maps_verdict(s1)
    } else if actions_verdict(s1) is Err {
        after == s1 && unit_view(r) == actions_verdict(s1)
    } else {
        substituted_as(s1, after) && unit_view(r) == identifiers_verdict(after)
    }
}

/// The per-job stdio settings, by job name; a later job of a name
/// replaces an earlier one's setting in place.
pub open spec fn stdio_overrides(jobs: Seq<JobSpec>) -> Seq<(Seq<char>, StdioConfig)>
    decreases jobs.len(),
{
    if jobs.len() == 0 {
        Seq::empty()
    } else {
        let before = stdio_overrides(jobs.drop_last());
        match jobs.last().stdio {
            Some(c) => override_insert(before, jobs.last().name@, c),
            None => before,
        }
    }
}

pub open spec fn override_index(m: Seq<(Seq<char>, StdioConfig)>, k: Seq<char>, i: nat) -> Option<nat>
    decreases m.len() - i,
{
    if i >= m.len() {
        None
    } else if m[i as int].0 == k {
        Some(i)
    } else {
        override_index(m, k, i + 1)
    }
}

pub open spec fn override_insert(m: Seq<(Seq<char>, StdioConfig)>, k: Seq<char>, c: StdioConfig) -> Seq<
    (Seq<char>, StdioConfig),
> {
    match override_index(m, k, 0) {
        Some(i) => m.update(i as int, (k, c)),
        None => m.push((k, c)),
    }
}

pub open spec fn pairs_view(v: Seq<(String, StdioConfig)>) -> Seq<(Seq<char>, StdioConfig)> {
    v.map_values(|p: (String, StdioConfig)| (p.0@, p.1))
}

/// Every setting of `c` other than the per-job stdio equals that of `o`.
pub open spec fn same_but_overrides(c: ExecutionConfig, o: ExecutionConfig) -> bool {
    c == (ExecutionConfig { job_stdio_overrides: c.job_stdio_overrides, ..o })
}

impl WorkflowSpec {
    /// Prepares the specification for creation (see `prepared_as`) with
    /// the parameter tables its sources name: sets the owner, adds job
    /// monitoring when `enable_resource_monitoring` is set and it has
    /// none, expands parameters, checks names, environments and actions,
    /// substitutes variables and checks the file identifiers.
    pub fn prepare_for_creation(
        &mut self,
        user: String,
        enable_resource_monitoring: bool,
        tables: &ParameterTables,
    ) -> (r: Result<(), String>)
        requires
            tables_well_formed(tables@),
        ensures
            prepared_as(*old(self), *final(self), user, enable_resource_monitoring, tables@, r),
    {
        let ghost u = user;
        self.user = Some(user);
        if enable_resource_monitoring && self.resource_monitor.is_none() {
            self.resource_monitor = Some(
                ResourceMonitorConfig {
                    enabled: true,
                    granularity: MonitorGranularity::Summary,
                    sample_interval_seconds: 10,
                    flush_interval_seconds: 300,
                    generate_plots: false,
                    jobs: Some(JobMonitorConfig { enabled: true, granularity: MonitorGranularity::Summary }),
                    compute_node: None,
                },
            );
        }
        proof {
            assert(*self == with_owner(*old(self), u, enable_resource_monitoring));
        }
        let r1 = self.expand_parameters_with_tables(tables);
        let ghost s1 = *self;
        let ghost g1 = r1;
        proof {
            assert(expanded_as(with_owner(*old(self), u, enable_resource_monitoring), s1, tables@, g1));
        }
        match r1 {
            Err(e) => {
                proof {
                    assert(prepared_after(s1, g1, *self, Err::<(), String>(e)));
                }
                return Err(e);
            },
            Ok(()) => {},
        }
        match self.validate_unique_names_after_expansion() {
            Err(e) => {
                proof {
                    assert(prepared_after(s1, g1, *self, Err::<(), String>(e)));
                }
                return Err(e);
            },
            Ok(()) => {},
        }
        match self.validate_env_maps() {
            Err(e) => {
                proof {
                    assert(prepared_after(s1, g1, *self, Err::<(), String>(e)));
                }
                return Err(e);
            },
            Ok(()) => {},
        }
        match self.validate_actions() {
            Err(e) => {
                proof {
                    assert(prepared_after(s1, g1, *self, Err::<(), String>(e)));
                }
                return Err(e);
            },
            Ok(()) => {},
        }
        let _ = self.substitute_variables();
        let r = self.validate_file_identifiers();
        proof {
            assert(prepared_after(s1, g1, *self, r));
        }
        r
    }

    /// Gathers the jobs' stdio settings into the execution configuration's
    /// per-job overrides (creating a default configuration when there is
    /// none); nothing changes when no job has one.
    pub fn collect_stdio_overrides(&mut self)
        ensures
            stdio_overrides(old(self).jobs@).len() == 0 ==> *final(self) == *old(self),
            stdio_overrides(old(self).jobs@).len() > 0 ==> {
                &&& final(self).execution_config matches Some(c) && c.job_stdio_overrides matches Some(o)
                    && pairs_view(o@) == stdio_overrides(old(self).jobs@) && match old(self).execution_config {
                    Some(e) => same_but_overrides(c, e),
                    None => c.mode == ExecutionMode::Direct && c.sigkill_headroom_seconds is None
                        && c.timeout_exit_code is None && c.staggered_start is None && c.limit_resources is None
                        && c.termination_signal is None && c.sigterm_lead_seconds is None && c.oom_exit_code is None
                        && c.srun_termination_signal is None && c.srun_mpi is None && c.enable_cpu_bind is None
                        && c.stdio is None,
                }
                &&& (WorkflowSpec { execution_config: final(self).execution_config, ..*old(self) }) == *final(self)
            },
    {
        let mut overrides: Vec<(String, StdioConfig)> = Vec::new();
        let mut i: usize = 0;
        proof {
            assert(self.jobs@.take(0) =~= Seq::<JobSpec>::empty());
            assert(pairs_view(overrides@) =~= Seq::empty());
        }
        while i < self.jobs.len()
            invariant
                i <= self.jobs.len(),
                *self == *old(self),
                pairs_view(overrides@) == stdio_overrides(self.jobs@.take(i as int)),
            decreases self.jobs.len() - i,
        {
            proof {
                assert(self.jobs@.take(i + 1).drop_last() =~= self.jobs@.take(i as int));
            }
            match self.jobs[i].stdio {
                Some(c) => {
                    let ghost before = pairs_view(overrides@);
                    let name = copy_string(&self.jobs[i].name);
                    let mut j: usize = 0;
                    let mut found = false;
                    while j < overrides.len() && !found
                        invariant
                            j <= overrides.len(),
                            before == pairs_view(overrides@),
                            !found ==> override_index(before, name@, 0) == override_index(before, name@, j as nat),
                            found ==> j < overrides.len() && override_index(before, name@, 0) == Some(j as nat),
                        decreases overrides.len() - j + (if found { 0int } else { 1int }),
                    {
                        if string_eq(&overrides[j].0, &name) {
                            proof {
                                assert(override_index(before, name@, j as nat) == Some(j as nat));
                            }
                            found = true;
                        } else {
                            j = j + 1;
                        }
                    }
                    let ghost nm = name@;
                    if found {
                        overrides[j] = (name, c);
                        proof {
                            assert(pairs_view(overrides@) =~= before.update(j as int, (nm, c)));
                        }
                    } else {
                        overrides.push((name, c));
                        proof {
                            assert(pairs_view(overrides@) =~= before.push((nm, c)));
                        }
                    }
                },
                None => {},
            }
            i = i + 1;
        }
        proof {
            assert(self.jobs@.take(self.jobs.len() as int) =~= self.jobs@);
        }
        if overrides.len() > 0 {
            let mut ec = match self.execution_config.take() {
                Some(e) => e,
                None => ExecutionConfig::default(),
            };
            ec.job_stdio_overrides = Some(overrides);
            self.execution_config = Some(ec);
        }
    }
}

// ---------------------------------------------------------------------------
// The order of creation
// ---------------------------------------------------------------------------

/// The records created for a workflow, in the order they are created.
#[derive(Clone, Copy, Debug, PartialEq, Eq, Structural)]
pub enum CreationStage {
    Workflow,
    Files,
    UserData,
    ResourceRequirements,
    SlurmSchedulers,
    FailureHandlers,
    Jobs,
    Actions,
}

/// What to do next while creating a workflow.
#[derive(Clone, Copy, Debug, PartialEq, Eq, Structural)]
pub enum CreationStep {
    /// Create the records of this stage.
    Create(CreationStage),
    /// Every record is created: the workflow's id is the result.
    Finish,
    /// Delete the workflow (which removes what was created with it), then
    /// report the stage's error.
    RollBack,
    /// Report the error; nothing was created.
    Fail,
}

/// The stage after `s`, if any.
pub open spec fn next_stage(s: CreationStage) -> Option<CreationStage> {
    match s {
        CreationStage::Workflow => Some(CreationStage::Files),
        CreationStage::Files => Some(CreationStage::UserData),
        CreationStage::UserData => Some(CreationStage::ResourceRequirements),
        CreationStage::ResourceRequirements => Some(CreationStage::SlurmSchedulers),
        CreationStage::SlurmSchedulers => Some(CreationStage::FailureHandlers),
        CreationStage::FailureHandlers => Some(CreationStage::Jobs),
        CreationStage::Jobs => Some(CreationStage::Actions),
        CreationStage::Actions => None,
    }
}

/// The first step of creating a workflow: its own record.
pub fn creation_start() -> (r: CreationStep)
    ensures
        r == CreationStep::Create(CreationStage::Workflow),
{
    CreationStep::Create(CreationStage::Workflow)
}

/// The step after stage `s` ended, `succeeded` or not: the next stage, or
/// the end; a failure after the workflow record exists rolls it back.
pub fn after_stage(s: CreationStage, succeeded: bool) -> (r: CreationStep)
    ensures
        succeeded ==> r == match next_stage(s) {
            Some(n) => CreationStep::Create(n),
            None => CreationStep::Finish,
        },
        !succeeded ==> r == if s == CreationStage::Workflow {
            CreationStep::Fail
        } else {
            CreationStep::RollBack
        },
{
    if !succeeded {
        return match s {
            CreationStage::Workflow => CreationStep::Fail,
            _ => CreationStep::RollBack,
        };
    }
    match s {
        CreationStage::Workflow => CreationStep::Create(CreationStage::Files),
        CreationStage::Files => CreationStep::Create(CreationStage::UserData),
        CreationStage::UserData => CreationStep::Create(CreationStage::ResourceRequirements),
        CreationStage::ResourceRequirements => CreationStep::Create(CreationStage::SlurmSchedulers),
        CreationStage::SlurmSchedulers => CreationStep::Create(CreationStage::FailureHandlers),
        CreationStage::FailureHandlers => CreationStep::Create(CreationStage::Jobs),
        CreationStage::Jobs => CreationStep::Create(CreationStage::Actions),
        CreationStage::Actions => CreationStep::Finish,
    }
}

// ---------------------------------------------------------------------------
// Checking a specification before creation
// ---------------------------------------------------------------------------

/// `c` holds what the file identifier check reads of `a`: the same jobs,
/// files and user data, and the same RO-Crate switch.
pub open spec fn copied_for_identifiers(a: WorkflowSpec, c: WorkflowSpec) -> bool {
    &&& jobs_view(c.jobs@) == jobs_view(a.jobs@)
    &&& match (a.files, c.files) {
        (Some(x), Some(y)) => files_view(y@) == files_view(x@),
        (None, None) => true,
        _ => false,
    }
    &&& match (a.user_data, c.user_data) {
        (Some(x), Some(y)) => y@.len() == x@.len() && forall|i: int|
            0 <= i < x@.len() ==> user_data_same(#[trigger] x@[i], y@[i]),
        (None, None) => true,
        _ => false,
    }
    &&& c.enable_ro_crate == a.enable_ro_crate
}

/// `rc` is the verdict of the file identifier check on a copy of `s` with
/// its variables substituted (`s` itself stays as it is).
pub open spec fn identifiers_on_copy(s: WorkflowSpec, rc: Result<(), String>) -> bool {
    exists|c: WorkflowSpec, w: WorkflowSpec|
        copied_for_identifiers(s, c) && #[trigger] substituted_as(c, w) && unit_view(rc) == identifiers_verdict(w)
}

/// The error that lists every resource warning.
pub open spec fn resource_failure_message(w: Seq<Seq<char>>) -> Seq<char> {
    "Resource validation failed:\n  - "@ + join(w, "\n  - "@)
}

/// The checks after expansion, in order; the first failure decides. The
/// resource check comes last, with the parsers' results in `p`.
pub open spec fn checked_after(s: WorkflowSpec, rc: Result<(), String>, p: ResourceParses, r: Result<(), String>) -> bool {
    if unique_names_verdict(s) is Err {
        unit_view(r) == unique_names_verdict(s)
    } else if env_maps_verdict(s) is Err {
        unit_view(r) == env_maps_verdict(s)
    } else if dynamic_jobs_verdict(s) is Err {
        unit_view(r) == dynamic_jobs_verdict(s)
    } else if rc is Err {
        unit_view(r) == unit_view(rc)
    } else if node_verdict(s) is Err {
        unit_view(r) == node_verdict(s)
    } else if scheduler_resource_warnings(s, p).len() > 0 {
        unit_view(r) == Err::<(), Seq<char>>(resource_failure_message(scheduler_resource_warnings(s, p)))
    } else {
        r is Ok
    }
}

/// `after` is `before` with its parameters expanded, and `r` the verdict of
/// the checks before creation: the expansion, unique names, environments,
/// dynamic jobs, file identifiers (on a substituted copy), node
/// requirements and resources, the first failure deciding.
pub open spec fn validated_for_creation(
    before: WorkflowSpec,
    after: WorkflowSpec,
    tables: Seq<(String, Vec<Bindings>)>,
    p: ResourceParses,
    r: Result<(), String>,
) -> bool {
    exists|r1: Result<(), String>, rc: Result<(), String>| #[trigger]
        validation_steps(before, after, tables, p, r1, rc, r)
}

/// The expansion ended with `r1`, the identifier check on a copy with
/// `rc`, and the checks with `r`.
pub open spec fn validation_steps(
    before: WorkflowSpec,
    after: WorkflowSpec,
    tables: Seq<(String, Vec<Bindings>)>,
    p: ResourceParses,
    r1: Result<(), String>,
    rc: Result<(), String>,
    r: Result<(), String>,
) -> bool {
    &&& expanded_as(before, after, tables, r1)
    &&& r1 is Err ==> unit_view(r) == unit_view(r1)
    &&& r1 is Ok ==> identifiers_on_copy(after, rc) && checked_after(after, rc, p, r)
}

fn copy_jobs(v: &Vec<JobSpec>) -> (r: Vec<JobSpec>)
    ensures
        jobs_view(r@) == jobs_view(v@),
{
    let mut r: Vec<JobSpec> = Vec::new();
    let mut i: usize = 0;
    while i < v.len()
        invariant
            i <= v.len(),
            r@.len() == i,
            forall|k: int| 0 <= k < i ==> (#[trigger] r@[k])@ == v@[k]@,
        decreases v.len() - i,
    {
        r.push(v[i].copy());
        i = i + 1;
    }
    proof {
        assert(jobs_view(r@) =~= jobs_view(v@));
    }
    r
}

fn copy_files(v: &Vec<FileSpec>) -> (r: Vec<FileSpec>)
    ensures
        files_view(r@) == files_view(v@),
{
    let mut r: Vec<FileSpec> = Vec::new();
    let mut i: usize = 0;
    while i < v.len()
        invariant
            i <= v.len(),
            r@.len() == i,
            forall|k: int| 0 <= k < i ==> (#[trigger] r@[k])@ == v@[k]@,
        decreases v.len() - i,
    {
        r.push(v[i].copy());
        i = i + 1;
    }
    proof {
        assert(files_view(r@) =~= files_view(v@));
    }
    r
}

fn copy_user_data(v: &Vec<UserDataSpec>) -> (r: Vec<UserDataSpec>)
    ensures
        r@.len() == v@.len(),
        forall|i: int| 0 <= i < v@.len() ==> user_data_same(#[trigger] v@[i], r@[i]),
{
    let mut r: Vec<UserDataSpec> = Vec::new();
    let mut i: usize = 0;
    while i < v.len()
        invariant
            i <= v.len(),
            r@.len() == i,
            forall|k: int| 0 <= k < i ==> user_data_same(#[trigger] v@[k], r@[k]),
        decreases v.len() - i,
    {
        r.push(v[i].copy());
        i = i + 1;
    }
    r
}

impl WorkflowSpec {
    /// The file identifier check on a copy with the variables substituted,
    /// so that the jobs' `${files.*}` references count; the specification
    /// itself is left as it is.
    pub fn validate_file_identifiers_on_clone(&self) -> (r: Result<(), String>)
        ensures
            identifiers_on_copy(*self, r),
    {
        let mut c = WorkflowSpec::new(copy_string(&self.name), lit(""), None, copy_jobs(&self.jobs));
        c.files = match &self.files {
            Some(fs) => Some(copy_files(fs)),
            None => None,
        };
        c.user_data = match &self.user_data {
            Some(uds) => Some(copy_user_data(uds)),
            None => None,
        };
        c.enable_ro_crate = self.enable_ro_crate;
        let ghost c0 = c;
        let _ = c.substitute_variables();
        let r = c.validate_file_identifiers();
        proof {
            assert(copied_for_identifiers(*self, c0));
            assert(substituted_as(c0, c));
        }
        r
    }

    /// Expands the parameters with the tables their sources name and checks
    /// the specification before creation (see `validated_for_creation`);
    /// `parses` holds the parsers' results for the resource check.
    pub fn validate_for_creation(&mut self, tables: &ParameterTables, parses: &ResourceParses) -> (r: Result<
        (),
        String,
    >)
        requires
            tables_well_formed(tables@),
        ensures
            validated_for_creation(*old(self), *final(self), tables@, *parses, r),
    {
        let r1 = self.expand_parameters_with_tables(tables);
        let ghost g1 = r1;
        match r1 {
            Err(e) => {
                let ghost gc: Result<(), String> = Ok(());
                proof {
                    assert(validation_steps(*old(self), *self, tables@, *parses, g1, gc, Err::<(), String>(e)));
                }
                return Err(e);
            },
            Ok(()) => {},
        }
        let rc = self.validate_file_identifiers_on_clone();
        let ghost gc = rc;
        let r = match self.validate_unique_names_after_expansion() {
            Err(e) => Err(e),
            Ok(()) => match self.validate_env_maps() {
                Err(e) => Err(e),
                Ok(()) => match self.validate_dynamic_jobs() {
                    Err(e) => Err(e),
                    Ok(()) => match rc {
                        Err(e) => Err(e),
                        Ok(()) => match self.validate_scheduler_node_requirements() {
                            Err(e) => Err(e),
                            Ok(()) => {
                                let w = self.validate_scheduler_resources_with(parses);
                                if w.len() > 0 {
                                    let joined = join_strings(&w, "\n  - ");
                                    proof {
                                        assert(w@.map_values(|x: String| x@) =~= strs_view(w@));
                                    }
                                    Err(concat2("Resource validation failed:\n  - ", joined.as_str()))
                                } else {
                                    Ok(())
                                }
                            },
                        },
                    },
                },
            },
        };
        proof {
            assert(validation_steps(*old(self), *self, tables@, *parses, g1, gc, r));
        }
        r
    }
}

/// `after` is a specification already expanded and checked (`before`)
/// prepared for creation, ending with `r`: owner and monitoring set, then
/// the environments and actions checked, the first failure ending it; when
/// both pass, the variables are substituted and the file identifiers checked.
pub open spec fn prepared_validated_as(
    before: WorkflowSpec,
    after: WorkflowSpec,
    user: String,
    monitoring: bool,
    r: Result<(), String>,
) -> bool {
    let s0 = with_owner(before, user, monitoring);
    if env_maps_verdict(s0) is Err {
        after == s0 && unit_view(r) == env_maps_verdict(s0)
    } else if actions_verdict(s0) is Err {
        after == s0 && unit_view(r) == actions_verdict(s0)
    } else {
        substituted_as(s0, after) && unit_view(r) == identifiers_verdict(after)
    }
}

impl WorkflowSpec {
    /// Prepares a specification that `validate_for_creation` has expanded
    /// and checked (see `prepared_validated_as`): sets the owner and the
    /// monitoring, checks environments and actions, substitutes variables
    /// and checks the file identifiers.
    pub fn prepare_validated_for_creation(&mut self, user: String, enable_resource_monitoring: bool) -> (r:
        Result<(), String>)
        ensures
            prepared_validated_as(*old(self), *final(self), user, enable_resource_monitoring, r),
    {
        let ghost u = user;
        self.user = Some(user);
        if enable_resource_monitoring && self.resource_monitor.is_none() {
            self.resource_monitor = Some(
                ResourceMonitorConfig {
                    enabled: true,
                    granularity: MonitorGranularity::Summary,
                    sample_interval_seconds: 10,
                    flush_interval_seconds: 300,
                    generate_plots: false,
                    jobs: Some(JobMonitorConfig { enabled: true, granularity: MonitorGranularity::Summary }),
                    compute_node: None,
                },
            );
        }
        proof {
            assert(*self == with_owner(*old(self), u, enable_resource_monitoring));
        }
        match self.validate_env_maps() {
            Err(e) => {
                return Err(e);
            },
            Ok(()) => {},
        }
        match self.validate_actions() {
            Err(e) => {
                return Err(e);
            },
            Ok(()) => {},
        }
        let _ = self.substitute_variables();
        self.validate_file_identifiers()
    }
}

} // verus!
