//! The API data model: jobs and their statuses, execution and monitoring
//! configuration, and the records the server exchanges.
//!
//! Maps keyed by name are held as vectors of pairs whose names are distinct.

use vstd::prelude::*;

use crate::execution::{
    is_default_config, same_config, DynamicJobsConfig, ExecutionConfig, ResourceMonitorConfig,
};
use crate::json::JsonValue;
use crate::text::{
    chars_eq, chars_of, copy_string, i64_to_string, int_text, is_identifier_chars, lit, spec_is_identifier, str_eq, string_of,
};

verus! {

/// Whether `name` is a valid POSIX-style environment variable name: a letter
/// or underscore, followed by letters, digits, or underscores.
pub fn is_valid_env_var_name(name: &str) -> (b: bool)
    ensures
        b == spec_is_identifier(name@),
{
    let v = chars_of(name);
    is_identifier_chars(&v)
}

/// Default number of times an action has been triggered.
pub fn default_trigger_count() -> (r: i64)
    ensures
        r == 0,
{
    0
}

/// Default number of triggers an action needs.
pub fn default_required_triggers() -> (r: i64)
    ensures
        r == 1,
{
    1
}

pub fn default_false() -> (r: bool)
    ensures
        r == false,
{
    false
}

pub fn default_num_cpus() -> (r: i64)
    ensures
        r == 1,
{
    1
}

pub fn default_num_gpus() -> (r: i64)
    ensures
        r == 0,
{
    0
}

pub fn default_num_nodes() -> (r: i64)
    ensures
        r == 1,
{
    1
}

pub fn default_memory() -> (r: String)
    ensures
        r@ == "1m"@,
{
    lit("1m")
}

pub fn default_runtime() -> (r: String)
    ensures
        r@ == "PT1M"@,
{
    lit("PT1M")
}

/// Whether two strings are equal, ignoring ASCII case.
pub open spec fn ascii_lower(c: char) -> char {
    if 'A' <= c && c <= 'Z' {
        ((c as u32) + 32) as char
    } else {
        c
    }
}

pub open spec fn eq_ignore_ascii_case(a: Seq<char>, b: Seq<char>) -> bool {
    a.len() == b.len() && forall|i: int| 0 <= i < a.len() ==> ascii_lower(#[trigger] a[i])
        == ascii_lower(b[i])
}

pub(crate) fn lower_char(c: char) -> (r: char)
    ensures
        r == ascii_lower(c),
{
    if 'A' <= c && c <= 'Z' {
        ((c as u32) + 32) as u8 as char
    } else {
        c
    }
}

pub fn eq_ignore_ascii_case_exec(a: &str, b: &str) -> (r: bool)
    ensures
        r == eq_ignore_ascii_case(a@, b@),
{
    let va = chars_of(a);
    let vb = chars_of(b);
    if va.len() != vb.len() {
        return false;
    }
    let mut i: usize = 0;
    while i < va.len()
        invariant
            va@ == a@,
            vb@ == b@,
            va.len() == vb.len(),
            i <= va.len(),
            forall|k: int| 0 <= k < i ==> ascii_lower(#[trigger] va@[k]) == ascii_lower(vb@[k]),
        decreases va.len() - i,
    {
        if lower_char(va[i]) != lower_char(vb[i]) {
            return false;
        }
        i = i + 1;
    }
    true
}

// ---------------------------------------------------------------------------
// Event severity
// ---------------------------------------------------------------------------

#[derive(Debug, Clone, Copy, PartialEq, Eq, Structural, PartialOrd, Ord, Hash)]
pub enum EventSeverity {
    Debug,
    Info,
    Warning,
    Error,
}

impl Default for EventSeverity {
    fn default() -> (r: Self)
        ensures
            r == EventSeverity::Info,
    {
        EventSeverity::Info
    }
}

pub open spec fn severity_text(s: EventSeverity) -> Seq<char> {
    match s {
        EventSeverity::Debug => "debug"@,
        EventSeverity::Info => "info"@,
        EventSeverity::Warning => "warning"@,
        EventSeverity::Error => "error"@,
    }
}

impl EventSeverity {
    /// The lowercase name of the severity.
    pub fn to_display_string(&self) -> (r: String)
        ensures
            r@ == severity_text(*self),
    {
        match self {
            EventSeverity::Debug => lit("debug"),
            EventSeverity::Info => lit("info"),
            EventSeverity::Warning => lit("warning"),
            EventSeverity::Error => lit("error"),
        }
    }

    /// Reads a severity by name, in any case.
    pub fn from_str(s: &str) -> (r: Result<EventSeverity, String>)
        ensures
            match r {
                Ok(v) => eq_ignore_ascii_case(s@, severity_text(v)),
                Err(e) => e@ == "Invalid severity level: "@ + s@ && (forall|v: EventSeverity|
                    !eq_ignore_ascii_case(s@, #[trigger] severity_text(v))),
            },
    {
        if eq_ignore_ascii_case_exec(s, "debug") {
            Ok(EventSeverity::Debug)
        } else if eq_ignore_ascii_case_exec(s, "info") {
            Ok(EventSeverity::Info)
        } else if eq_ignore_ascii_case_exec(s, "warning") {
            Ok(EventSeverity::Warning)
        } else if eq_ignore_ascii_case_exec(s, "error") {
            Ok(EventSeverity::Error)
        } else {
            proof {
                assert forall|v: EventSeverity| !eq_ignore_ascii_case(
                    s@,
                    #[trigger] severity_text(v),
                ) by {
                    match v {
                        EventSeverity::Debug => {},
                        EventSeverity::Info => {},
                        EventSeverity::Warning => {},
                        EventSeverity::Error => {},
                    }
                }
            }
            Err(crate::text::concat2("Invalid severity level: ", s))
        }
    }
}

// ---------------------------------------------------------------------------
// Job status
// ---------------------------------------------------------------------------

#[derive(Debug, Clone, Copy, PartialEq, Eq, Structural, Hash)]
pub enum JobStatus {
    Uninitialized,
    Blocked,
    Ready,
    Pending,
    Running,
    Completed,
    Failed,
    Canceled,
    Terminated,
    Disabled,
    PendingFailed,
}

/// The stored integer of each status.
pub open spec fn status_code(s: JobStatus) -> i32 {
    match s {
        JobStatus::Uninitialized => 0,
        JobStatus::Blocked => 1,
        JobStatus::Ready => 2,
        JobStatus::Pending => 3,
        JobStatus::Running => 4,
        JobStatus::Completed => 5,
        JobStatus::Failed => 6,
        JobStatus::Canceled => 7,
        JobStatus::Terminated => 8,
        JobStatus::Disabled => 9,
        JobStatus::PendingFailed => 10,
    }
}

/// The status stored as `value`, if any.
pub open spec fn status_of_code(value: i32) -> Option<JobStatus> {
    if value == 0 {
        Some(JobStatus::Uninitialized)
    } else if value == 1 {
        Some(JobStatus::Blocked)
    } else if value == 2 {
        Some(JobStatus::Ready)
    } else if value == 3 {
        Some(JobStatus::Pending)
    } else if value == 4 {
        Some(JobStatus::Running)
    } else if value == 5 {
        Some(JobStatus::Completed)
    } else if value == 6 {
        Some(JobStatus::Failed)
    } else if value == 7 {
        Some(JobStatus::Canceled)
    } else if value == 8 {
        Some(JobStatus::Terminated)
    } else if value == 9 {
        Some(JobStatus::Disabled)
    } else if value == 10 {
        Some(JobStatus::PendingFailed)
    } else {
        None
    }
}

pub open spec fn status_text(s: JobStatus) -> Seq<char> {
    match s {
        JobStatus::Uninitialized => "uninitialized"@,
        JobStatus::Blocked => "blocked"@,
        JobStatus::Ready => "ready"@,
        JobStatus::Pending => "pending"@,
        JobStatus::Running => "running"@,
        JobStatus::Completed => "completed"@,
        JobStatus::Failed => "failed"@,
        JobStatus::Canceled => "canceled"@,
        JobStatus::Terminated => "terminated"@,
        JobStatus::Disabled => "disabled"@,
        JobStatus::PendingFailed => "pending_failed"@,
    }
}

pub open spec fn spec_is_terminal(s: JobStatus) -> bool {
    s == JobStatus::Completed || s == JobStatus::Failed || s == JobStatus::Canceled || s
        == JobStatus::Terminated || s == JobStatus::PendingFailed
}

pub open spec fn spec_is_complete(s: JobStatus) -> bool {
    s == JobStatus::Completed || s == JobStatus::Failed || s == JobStatus::Canceled || s
        == JobStatus::Terminated
}

impl JobStatus {
    /// Whether the job will not run again without a reset (pending-failed included).
    pub fn is_terminal(&self) -> (b: bool)
        ensures
            b == spec_is_terminal(*self),
    {
        match self {
            JobStatus::Completed | JobStatus::Failed | JobStatus::Canceled
            | JobStatus::Terminated | JobStatus::PendingFailed => true,
            _ => false,
        }
    }

    /// Whether the job has finished: completed, failed, canceled or terminated.
    pub fn is_complete(&self) -> (b: bool)
        ensures
            b == spec_is_complete(*self),
    {
        match self {
            JobStatus::Completed | JobStatus::Failed | JobStatus::Canceled
            | JobStatus::Terminated => true,
            _ => false,
        }
    }

    pub fn to_int(&self) -> (r: i32)
        ensures
            r == status_code(*self),
    {
        match self {
            JobStatus::Uninitialized => 0,
            JobStatus::Blocked => 1,
            JobStatus::Ready => 2,
            JobStatus::Pending => 3,
            JobStatus::Running => 4,
            JobStatus::Completed => 5,
            JobStatus::Failed => 6,
            JobStatus::Canceled => 7,
            JobStatus::Terminated => 8,
            JobStatus::Disabled => 9,
            JobStatus::PendingFailed => 10,
        }
    }

    pub fn from_int(value: i32) -> (r: Result<JobStatus, String>)
        ensures
            match r {
                Ok(s) => status_of_code(value) == Some(s),
                Err(e) => status_of_code(value) is None && e@ == "Invalid JobStatus integer value: "@
                    + crate::text::int_text(value as int),
            },
    {
        if value == 0 {
            Ok(JobStatus::Uninitialized)
        } else if value == 1 {
            Ok(JobStatus::Blocked)
        } else if value == 2 {
            Ok(JobStatus::Ready)
        } else if value == 3 {
            Ok(JobStatus::Pending)
        } else if value == 4 {
            Ok(JobStatus::Running)
        } else if value == 5 {
            Ok(JobStatus::Completed)
        } else if value == 6 {
            Ok(JobStatus::Failed)
        } else if value == 7 {
            Ok(JobStatus::Canceled)
        } else if value == 8 {
            Ok(JobStatus::Terminated)
        } else if value == 9 {
            Ok(JobStatus::Disabled)
        } else if value == 10 {
            Ok(JobStatus::PendingFailed)
        } else {
            let n = crate::text::i64_to_string(value as i64);
            Err(crate::text::concat2("Invalid JobStatus integer value: ", n.as_str()))
        }
    }

    /// The status stored as `value`, read as a 32-bit integer (the value is truncated).
    pub fn from_i64(value: i64) -> (r: Result<JobStatus, String>)
        ensures
            match r {
                Ok(s) => status_of_code(value as i32) == Some(s),
                Err(_) => status_of_code(value as i32) is None,
            },
    {
        Self::from_int(value as i32)
    }

    /// The snake-case name of the status.
    pub fn to_display_string(&self) -> (r: String)
        ensures
            r@ == status_text(*self),
    {
        match self {
            JobStatus::Uninitialized => lit("uninitialized"),
            JobStatus::Blocked => lit("blocked"),
            JobStatus::Ready => lit("ready"),
            JobStatus::Pending => lit("pending"),
            JobStatus::Running => lit("running"),
            JobStatus::Completed => lit("completed"),
            JobStatus::Failed => lit("failed"),
            JobStatus::Canceled => lit("canceled"),
            JobStatus::Terminated => lit("terminated"),
            JobStatus::Disabled => lit("disabled"),
            JobStatus::PendingFailed => lit("pending_failed"),
        }
    }

    /// Reads a status by its snake-case name.
    pub fn from_str(s: &str) -> (r: Result<JobStatus, String>)
        ensures
            match r {
                Ok(v) => s@ == status_text(v),
                Err(e) => e@ == "Value not valid: "@ + s@ && (forall|v: JobStatus|
                    s@ != #[trigger] status_text(v)),
            },
    {
        let v = chars_of(s);
        if chars_eq(&v, &chars_of("uninitialized")) {
            Ok(JobStatus::Uninitialized)
        } else if chars_eq(&v, &chars_of("blocked")) {
            Ok(JobStatus::Blocked)
        } else if chars_eq(&v, &chars_of("ready")) {
            Ok(JobStatus::Ready)
        } else if chars_eq(&v, &chars_of("pending")) {
            Ok(JobStatus::Pending)
        } else if chars_eq(&v, &chars_of("running")) {
            Ok(JobStatus::Running)
        } else if chars_eq(&v, &chars_of("completed")) {
            Ok(JobStatus::Completed)
        } else if chars_eq(&v, &chars_of("failed")) {
            Ok(JobStatus::Failed)
        } else if chars_eq(&v, &chars_of("canceled")) {
            Ok(JobStatus::Canceled)
        } else if chars_eq(&v, &chars_of("terminated")) {
            Ok(JobStatus::Terminated)
        } else if chars_eq(&v, &chars_of("disabled")) {
            Ok(JobStatus::Disabled)
        } else if chars_eq(&v, &chars_of("pending_failed")) {
            Ok(JobStatus::PendingFailed)
        } else {
            proof {
                assert forall|t: JobStatus| s@ != #[trigger] status_text(t) by {
                    match t {
                        JobStatus::Uninitialized => {},
                        JobStatus::Blocked => {},
                        JobStatus::Ready => {},
                        JobStatus::Pending => {},
                        JobStatus::Running => {},
                        JobStatus::Completed => {},
                        JobStatus::Failed => {},
                        JobStatus::Canceled => {},
                        JobStatus::Terminated => {},
                        JobStatus::Disabled => {},
                        JobStatus::PendingFailed => {},
                    }
                }
            }
            Err(crate::text::concat2("Value not valid: ", s))
        }
    }
}

/// The status table, held as pairs of status and stored integer.
pub struct JobStatusMap;

pub open spec fn status_table() -> Seq<(JobStatus, i32)> {
    seq![
        (JobStatus::Uninitialized, 0i32),
        (JobStatus::Blocked, 1i32),
        (JobStatus::Ready, 2i32),
        (JobStatus::Pending, 3i32),
        (JobStatus::Running, 4i32),
        (JobStatus::Completed, 5i32),
        (JobStatus::Failed, 6i32),
        (JobStatus::Canceled, 7i32),
        (JobStatus::Terminated, 8i32),
        (JobStatus::Disabled, 9i32),
        (JobStatus::PendingFailed, 10i32),
    ]
}

impl JobStatusMap {
    /// Every status with its stored integer.
    pub fn enum_to_int_map() -> (r: Vec<(JobStatus, i32)>)
        ensures
            r@ == status_table(),
    {
        let r = vec![
            (JobStatus::Uninitialized, 0i32),
            (JobStatus::Blocked, 1i32),
            (JobStatus::Ready, 2i32),
            (JobStatus::Pending, 3i32),
            (JobStatus::Running, 4i32),
            (JobStatus::Completed, 5i32),
            (JobStatus::Failed, 6i32),
            (JobStatus::Canceled, 7i32),
            (JobStatus::Terminated, 8i32),
            (JobStatus::Disabled, 9i32),
            (JobStatus::PendingFailed, 10i32),
        ];
        proof {
            assert(r@ =~= status_table());
        }
        r
    }

    /// Every stored integer with its status.
    pub fn int_to_enum_map() -> (r: Vec<(i32, JobStatus)>)
        ensures
            r@ == status_table().map_values(|p: (JobStatus, i32)| (p.1, p.0)),
    {
        let r = vec![
            (0i32, JobStatus::Uninitialized),
            (1i32, JobStatus::Blocked),
            (2i32, JobStatus::Ready),
            (3i32, JobStatus::Pending),
            (4i32, JobStatus::Running),
            (5i32, JobStatus::Completed),
            (6i32, JobStatus::Failed),
            (7i32, JobStatus::Canceled),
            (8i32, JobStatus::Terminated),
            (9i32, JobStatus::Disabled),
            (10i32, JobStatus::PendingFailed),
        ];
        proof {
            assert(r@ =~= status_table().map_values(|p: (JobStatus, i32)| (p.1, p.0)));
        }
        r
    }

    /// The stored integer of a status (looked up in the table).
    pub fn to_int(status: &JobStatus) -> (r: i32)
        ensures
            r == status_code(*status),
    {
        let table = Self::enum_to_int_map();
        let mut i: usize = 0;
        while i < table.len()
            invariant
                i <= table.len(),
                table@ == status_table(),
                forall|k: int| 0 <= k < i ==> (#[trigger] table@[k]).0 != *status,
            decreases table.len() - i,
        {
            if table[i].0 == *status {
                proof {
                    assert(table@[i as int].1 == status_code(table@[i as int].0));
                }
                return table[i].1;
            }
            i = i + 1;
        }
        proof {
            match *status {
                JobStatus::Uninitialized => assert(table@[0].0 == *status),
                JobStatus::Blocked => assert(table@[1].0 == *status),
                JobStatus::Ready => assert(table@[2].0 == *status),
                JobStatus::Pending => assert(table@[3].0 == *status),
                JobStatus::Running => assert(table@[4].0 == *status),
                JobStatus::Completed => assert(table@[5].0 == *status),
                JobStatus::Failed => assert(table@[6].0 == *status),
                JobStatus::Canceled => assert(table@[7].0 == *status),
                JobStatus::Terminated => assert(table@[8].0 == *status),
                JobStatus::Disabled => assert(table@[9].0 == *status),
                JobStatus::PendingFailed => assert(table@[10].0 == *status),
            }
        }
        -1
    }

    /// The status stored as `value` (looked up in the table).
    pub fn from_int(value: i32) -> (r: Option<JobStatus>)
        ensures
            r == status_of_code(value),
    {
        let table = Self::int_to_enum_map();
        let mut i: usize = 0;
        while i < table.len()
            invariant
                i <= table.len(),
                table@ == status_table().map_values(|p: (JobStatus, i32)| (p.1, p.0)),
                forall|k: int| 0 <= k < i ==> (#[trigger] table@[k]).0 != value,
            decreases table.len() - i,
        {
            if table[i].0 == value {
                return Some(table[i].1);
            }
            i = i + 1;
        }
        proof {
            if 0 <= value <= 10 {
                assert(table@[value as int].0 == value);
            }
        }
        None
    }

    /// The status stored as `value`, read as a 32-bit integer (the value is truncated).
    pub fn from_i64(value: i64) -> (r: Option<JobStatus>)
        ensures
            r == status_of_code(value as i32),
    {
        Self::from_int(value as i32)
    }
}

// ---------------------------------------------------------------------------
// Records of the API
// ---------------------------------------------------------------------------

/// How many compute nodes to schedule for a job.
#[derive(Clone, Copy, Debug, PartialEq, Eq, Structural)]
pub struct ComputeNodeSchedule {
    pub max_parallel_jobs: Option<i64>,
    pub num_jobs: i64,
    pub scheduler_id: i64,
    pub start_one_worker_per_node: Option<bool>,
}

/// Answer of the health check.
#[derive(Clone, Debug)]
pub struct PingResponse {
    pub status: String,
}

/// Versions of the server.
#[derive(Clone, Debug)]
pub struct VersionResponse {
    pub version: String,
    pub api_version: String,
    pub git_hash: Option<String>,
}

/// How many records a delete removed.
#[derive(Clone, Copy, Debug, PartialEq, Eq, Structural)]
pub struct DeleteCountResponse {
    pub count: i64,
}

/// A job as the server stores it.
#[derive(Clone, Debug)]
pub struct JobModel {
    pub id: Option<i64>,
    pub workflow_id: i64,
    pub name: String,
    pub command: String,
    pub invocation_script: Option<String>,
    pub env: Option<Vec<(String, String)>>,
    pub status: Option<JobStatus>,
    pub start_time: Option<String>,
    pub compute_node_id: Option<i64>,
    pub schedule_compute_nodes: Option<ComputeNodeSchedule>,
    pub cancel_on_blocking_job_failure: Option<bool>,
    pub supports_termination: Option<bool>,
    pub depends_on_job_ids: Option<Vec<i64>>,
    pub input_file_ids: Option<Vec<i64>>,
    pub output_file_ids: Option<Vec<i64>>,
    pub input_user_data_ids: Option<Vec<i64>>,
    pub output_user_data_ids: Option<Vec<i64>>,
    pub resource_requirements_id: Option<i64>,
    pub scheduler_id: Option<i64>,
    pub failure_handler_id: Option<i64>,
    pub attempt_id: Option<i64>,
    pub priority: Option<i64>,
    pub origin: Option<String>,
}

/// A page of jobs.
#[derive(Clone, Debug)]
pub struct ListJobsResponse {
    pub items: Vec<JobModel>,
    pub offset: i64,
    pub max_limit: i64,
    pub count: i64,
    pub total_count: i64,
    pub has_more: bool,
}

/// Why one job of a batch could not be completed.
#[derive(Clone, Debug)]
pub struct JobCompletionError {
    pub job_id: i64,
    pub message: String,
}

/// Outcome of completing a batch of jobs.
#[derive(Clone, Debug)]
pub struct BatchCompleteJobsResponse {
    pub completed: Vec<i64>,
    pub errors: Vec<JobCompletionError>,
}

/// A job spawned by an orchestrator job.
#[derive(Clone, Debug)]
pub struct SpawnJobModel {
    pub name: String,
    pub command: String,
    pub resource_requirements: Option<String>,
    pub priority: Option<i64>,
    pub cancel_on_blocking_job_failure: Option<bool>,
    pub depends_on: Option<Vec<String>>,
}

/// Ids of spawned jobs and the spawn iteration.
#[derive(Clone, Debug)]
pub struct SpawnJobsResponse {
    pub spawned_job_ids: Vec<i64>,
    pub iteration: i64,
}

/// Compute nodes requested from a scheduler.
#[derive(Clone, Debug)]
pub struct ScheduledComputeNodesModel {
    pub id: Option<i64>,
    pub workflow_id: i64,
    pub scheduler_id: i64,
    pub scheduler_config_id: i64,
    pub scheduler_type: String,
    pub status: String,
}

/// A page of scheduled compute nodes.
#[derive(Clone, Debug)]
pub struct ListScheduledComputeNodesResponse {
    pub items: Vec<ScheduledComputeNodesModel>,
    pub offset: i64,
    pub max_limit: i64,
    pub count: i64,
    pub total_count: i64,
    pub has_more: bool,
}

/// A scheduler running jobs on the local machine.
#[derive(Clone, Debug)]
pub struct LocalSchedulerModel {
    pub id: Option<i64>,
    pub workflow_id: i64,
    pub name: Option<String>,
    pub memory: Option<String>,
    pub num_cpus: Option<i64>,
}

/// A page of local schedulers.
#[derive(Clone, Debug)]
pub struct ListLocalSchedulersResponse {
    pub items: Vec<LocalSchedulerModel>,
    pub offset: i64,
    pub max_limit: i64,
    pub count: i64,
    pub total_count: i64,
    pub has_more: bool,
}

/// A Slurm scheduler as the server stores it.
#[derive(Clone, Debug)]
pub struct SlurmSchedulerModel {
    pub id: Option<i64>,
    pub workflow_id: i64,
    pub name: Option<String>,
    pub account: String,
    pub gres: Option<String>,
    pub mem: Option<String>,
    pub nodes: i64,
    pub ntasks_per_node: Option<i64>,
    pub partition: Option<String>,
    pub qos: Option<String>,
    pub tmp: Option<String>,
    pub walltime: String,
    pub extra: Option<String>,
}

/// A page of Slurm schedulers.
#[derive(Clone, Debug)]
pub struct ListSlurmSchedulersResponse {
    pub items: Vec<SlurmSchedulerModel>,
    pub offset: i64,
    pub max_limit: i64,
    pub count: i64,
    pub total_count: i64,
    pub has_more: bool,
}

/// Archive or unarchive a workflow.
#[derive(Clone, Copy, Debug, PartialEq, Eq, Structural)]
pub struct ArchiveWorkflowRequest {
    pub is_archived: bool,
}

/// Jobs claimed for the resources of a compute node.
#[derive(Clone, Debug)]
pub struct ClaimJobsBasedOnResources {
    pub jobs: Option<Vec<JobModel>>,
    pub reason: Option<String>,
}

/// Jobs claimed in order.
#[derive(Clone, Debug)]
pub struct ClaimNextJobsResponse {
    pub jobs: Option<Vec<JobModel>>,
}

/// One job waiting for another.
#[derive(Clone, Debug)]
pub struct JobDependencyModel {
    pub job_id: i64,
    pub job_name: String,
    pub depends_on_job_id: i64,
    pub depends_on_job_name: String,
    pub workflow_id: i64,
}

/// A page of job dependencies.
#[derive(Clone, Debug)]
pub struct ListJobDependenciesResponse {
    pub items: Vec<JobDependencyModel>,
    pub offset: i64,
    pub max_limit: i64,
    pub count: i64,
    pub total_count: i64,
    pub has_more: bool,
}

/// A file with the jobs producing and consuming it.
#[derive(Clone, Debug)]
pub struct JobFileRelationshipModel {
    pub file_id: i64,
    pub file_name: String,
    pub file_path: String,
    pub producer_job_id: Option<i64>,
    pub producer_job_name: Option<String>,
    pub consumer_job_id: Option<i64>,
    pub consumer_job_name: Option<String>,
    pub workflow_id: i64,
}

/// A page of job/file relationships.
#[derive(Clone, Debug)]
pub struct ListJobFileRelationshipsResponse {
    pub items: Vec<JobFileRelationshipModel>,
    pub offset: i64,
    pub max_limit: i64,
    pub count: i64,
    pub total_count: i64,
    pub has_more: bool,
}

/// A user data record with the jobs producing and consuming it.
#[derive(Clone, Debug)]
pub struct JobUserDataRelationshipModel {
    pub user_data_id: i64,
    pub user_data_name: String,
    pub producer_job_id: Option<i64>,
    pub producer_job_name: Option<String>,
    pub consumer_job_id: Option<i64>,
    pub consumer_job_name: Option<String>,
    pub workflow_id: i64,
}

/// A page of job/user data relationships.
#[derive(Clone, Debug)]
pub struct ListJobUserDataRelationshipsResponse {
    pub items: Vec<JobUserDataRelationshipModel>,
    pub offset: i64,
    pub max_limit: i64,
    pub count: i64,
    pub total_count: i64,
    pub has_more: bool,
}

/// Job ids with their count.
#[derive(Clone, Debug)]
pub struct ListJobIdsResponse {
    pub job_ids: Vec<i64>,
    pub count: i64,
}

/// User data ids that are missing.
#[derive(Clone, Debug)]
pub struct ListMissingUserDataResponse {
    pub user_data: Vec<i64>,
}

/// Jobs reinitialized because their inputs changed.
#[derive(Clone, Debug)]
pub struct ProcessChangedJobInputsResponse {
    pub reinitialized_jobs: Vec<String>,
}

/// Files that must exist before the workflow starts.
#[derive(Clone, Debug)]
pub struct ListRequiredExistingFilesResponse {
    pub files: Vec<i64>,
}

/// A group of users.
#[derive(Clone, Debug)]
pub struct AccessGroupModel {
    pub id: Option<i64>,
    pub name: String,
    pub description: Option<String>,
    pub created_at: Option<String>,
}

/// A user's membership in a group.
#[derive(Clone, Debug)]
pub struct UserGroupMembershipModel {
    pub id: Option<i64>,
    pub user_name: String,
    pub group_id: i64,
    pub role: String,
    pub created_at: Option<String>,
}

/// A workflow shared with a group.
#[derive(Clone, Debug)]
pub struct WorkflowAccessGroupModel {
    pub workflow_id: i64,
    pub group_id: i64,
    pub created_at: Option<String>,
}

/// A page of access groups.
#[derive(Clone, Debug)]
pub struct ListAccessGroupsResponse {
    pub items: Vec<AccessGroupModel>,
    pub offset: i64,
    pub limit: i64,
    pub total_count: i64,
    pub has_more: bool,
}

/// A page of group memberships.
#[derive(Clone, Debug)]
pub struct ListUserGroupMembershipsResponse {
    pub items: Vec<UserGroupMembershipModel>,
    pub offset: i64,
    pub limit: i64,
    pub total_count: i64,
    pub has_more: bool,
}

/// Whether a user may access a workflow.
#[derive(Clone, Debug)]
pub struct AccessCheckResponse {
    pub has_access: bool,
    pub user_name: String,
    pub workflow_id: i64,
    pub reason: Option<String>,
}

/// Jobs to create in one request.
#[derive(Clone, Debug)]
pub struct JobsModel {
    pub jobs: Vec<JobModel>,
}

/// Jobs created by one request.
#[derive(Clone, Debug)]
pub struct CreateJobsResponse {
    pub jobs: Option<Vec<JobModel>>,
}

/// Resource requirements as the server stores them.
#[derive(Clone, Debug)]
pub struct ResourceRequirementsModel {
    pub id: Option<i64>,
    pub workflow_id: i64,
    pub name: String,
    pub num_cpus: i64,
    pub num_gpus: i64,
    pub num_nodes: i64,
    pub memory: String,
    pub runtime: String,
}

/// A page of resource requirements.
#[derive(Clone, Debug)]
pub struct ListResourceRequirementsResponse {
    pub items: Vec<ResourceRequirementsModel>,
    pub offset: i64,
    pub max_limit: i64,
    pub count: i64,
    pub total_count: i64,
    pub has_more: bool,
}

/// A failure handler; its rules are held as JSON text.
#[derive(Clone, Debug)]
pub struct FailureHandlerModel {
    pub id: Option<i64>,
    pub workflow_id: i64,
    pub name: String,
    pub rules: String,
}

/// A page of failure handlers.
#[derive(Clone, Debug)]
pub struct ListFailureHandlersResponse {
    pub items: Vec<FailureHandlerModel>,
    pub offset: i64,
    pub max_limit: i64,
    pub count: i64,
    pub total_count: i64,
    pub has_more: bool,
}

/// A compute node claiming an action.
#[derive(Clone, Copy, Debug, PartialEq, Eq, Structural)]
pub struct ClaimActionRequest {
    pub compute_node_id: Option<i64>,
}

/// Whether an action was claimed.
#[derive(Clone, Copy, Debug, PartialEq, Eq, Structural)]
pub struct ClaimActionResponse {
    pub action_id: i64,
    pub success: bool,
}

/// A remote worker of a workflow.
#[derive(Clone, Debug)]
pub struct RemoteWorkerModel {
    pub worker: String,
    pub workflow_id: i64,
}

/// A plain message.
#[derive(Clone, Debug)]
pub struct MessageResponse {
    pub message: String,
}

/// How many RO-Crate entities a delete removed.
#[derive(Clone, Debug)]
pub struct DeleteRoCrateEntitiesResponse {
    pub message: String,
    pub deleted_count: i64,
}

/// Outcome of reloading the user file.
#[derive(Clone, Debug)]
pub struct ReloadAuthResponse {
    pub message: String,
    pub user_count: i64,
}

/// A SQL statement an administrator runs.
#[derive(Clone, Debug)]
pub struct AdminSqlRequest {
    pub sql: String,
    pub write: bool,
    pub allow_full_table: bool,
    pub dry_run: bool,
    pub limit: Option<i64>,
}

/// A logged administrator SQL statement.
#[derive(Clone, Debug)]
pub struct AdminAuditLogEntry {
    pub id: i64,
    pub user_name: String,
    pub timestamp: i64,
    pub sql_text: String,
    pub is_write: bool,
    pub allow_full_table: bool,
    pub rows_affected: Option<i64>,
    pub committed: bool,
    pub success: bool,
    pub error: Option<String>,
}

/// A page of the administrator audit log.
#[derive(Clone, Debug)]
pub struct ListAdminAuditLogResponse {
    pub items: Vec<AdminAuditLogEntry>,
    pub offset: i64,
    pub max_limit: i64,
    pub count: i64,
    pub total_count: i64,
    pub has_more: bool,
}

/// Whether a workflow is complete or canceled.
#[derive(Clone, Copy, Debug, PartialEq, Eq, Structural)]
pub struct IsCompleteResponse {
    pub is_canceled: bool,
    pub is_complete: bool,
}

/// Whether a workflow is uninitialized.
#[derive(Clone, Copy, Debug, PartialEq, Eq, Structural)]
pub struct IsUninitializedResponse {
    pub is_uninitialized: bool,
}

/// Number of jobs in each status.
#[derive(Clone, Copy, Debug, PartialEq, Eq, Structural)]
pub struct JobStatusCounts {
    pub uninitialized: i64,
    pub blocked: i64,
    pub ready: i64,
    pub pending: i64,
    pub running: i64,
    pub completed: i64,
    pub failed: i64,
    pub canceled: i64,
    pub terminated: i64,
    pub disabled: i64,
    pub pending_failed: i64,
}

/// A Slurm job and the workflow job it runs.
#[derive(Clone, Debug)]
pub struct SlurmJobCorrelationModel {
    pub slurm_job_id: String,
    pub job_id: i64,
    pub job_name: String,
}

/// A page of Slurm job correlations.
#[derive(Clone, Debug)]
pub struct SlurmJobCorrelationsResponse {
    pub items: Vec<SlurmJobCorrelationModel>,
    pub offset: i64,
    pub max_limit: i64,
    pub count: i64,
    pub total_count: i64,
    pub has_more: bool,
}

/// A job that is running.
#[derive(Clone, Debug)]
pub struct RunningJobModel {
    pub job_id: i64,
    pub job_name: String,
    pub compute_node_name: String,
    pub scheduler_type: String,
    pub scheduler_job_id: Option<String>,
    pub start_time: Option<String>,
}

/// A page of running jobs.
#[derive(Clone, Debug)]
pub struct RunningJobsResponse {
    pub items: Vec<RunningJobModel>,
    pub offset: i64,
    pub max_limit: i64,
    pub count: i64,
    pub total_count: i64,
    pub has_more: bool,
}

/// Outcome of resetting job statuses.
#[derive(Clone, Debug)]
pub struct ResetJobStatusResponse {
    pub workflow_id: i64,
    pub updated_count: i64,
    pub status: String,
    pub reset_type: Option<String>,
}

/// A background task of the server.
#[derive(Clone, Debug)]
pub struct TaskModel {
    pub id: i64,
    pub workflow_id: i64,
    pub operation: String,
    pub status: TaskStatus,
    pub created_at_ms: i64,
    pub started_at_ms: Option<i64>,
    pub finished_at_ms: Option<i64>,
    pub error: Option<String>,
}

/// The running task of a workflow, if any.
#[derive(Clone, Debug)]
pub struct ActiveTaskResponse {
    pub task: Option<TaskModel>,
}

impl ListJobsResponse {
    /// An empty page with the given paging figures.
    pub fn new(offset: i64, max_limit: i64, count: i64, total_count: i64, has_more: bool) -> (r: ListJobsResponse)
        ensures
            r.items@.len() == 0,
            r.offset == offset,
            r.max_limit == max_limit,
            r.count == count,
            r.total_count == total_count,
            r.has_more == has_more,
    {
        ListJobsResponse {
            items: Vec::new(),
            offset,
            max_limit,
            count,
            total_count,
            has_more,
        }
    }
}

impl ListScheduledComputeNodesResponse {
    /// An empty page with the given paging figures.
    pub fn new(offset: i64, max_limit: i64, count: i64, total_count: i64, has_more: bool) -> (r: ListScheduledComputeNodesResponse)
        ensures
            r.items@.len() == 0,
            r.offset == offset,
            r.max_limit == max_limit,
            r.count == count,
            r.total_count == total_count,
            r.has_more == has_more,
    {
        ListScheduledComputeNodesResponse {
            items: Vec::new(),
            offset,
            max_limit,
            count,
            total_count,
            has_more,
        }
    }
}

impl ListLocalSchedulersResponse {
    /// An empty page with the given paging figures.
    pub fn new(offset: i64, max_limit: i64, count: i64, total_count: i64, has_more: bool) -> (r: ListLocalSchedulersResponse)
        ensures
            r.items@.len() == 0,
            r.offset == offset,
            r.max_limit == max_limit,
            r.count == count,
            r.total_count == total_count,
            r.has_more == has_more,
    {
        ListLocalSchedulersResponse {
            items: Vec::new(),
            offset,
            max_limit,
            count,
            total_count,
            has_more,
        }
    }
}

impl ListSlurmSchedulersResponse {
    /// An empty page with the given paging figures.
    pub fn new(offset: i64, max_limit: i64, count: i64, total_count: i64, has_more: bool) -> (r: ListSlurmSchedulersResponse)
        ensures
            r.items@.len() == 0,
            r.offset == offset,
            r.max_limit == max_limit,
            r.count == count,
            r.total_count == total_count,
            r.has_more == has_more,
    {
        ListSlurmSchedulersResponse {
            items: Vec::new(),
            offset,
            max_limit,
            count,
            total_count,
            has_more,
        }
    }
}

impl ListJobDependenciesResponse {
    /// An empty page with the given paging figures.
    pub fn new(offset: i64, max_limit: i64, count: i64, total_count: i64, has_more: bool) -> (r: ListJobDependenciesResponse)
        ensures
            r.items@.len() == 0,
            r.offset == offset,
            r.max_limit == max_limit,
            r.count == count,
            r.total_count == total_count,
            r.has_more == has_more,
    {
        ListJobDependenciesResponse {
            items: Vec::new(),
            offset,
            max_limit,
            count,
            total_count,
            has_more,
        }
    }
}

impl ListJobFileRelationshipsResponse {
    /// An empty page with the given paging figures.
    pub fn new(offset: i64, max_limit: i64, count: i64, total_count: i64, has_more: bool) -> (r: ListJobFileRelationshipsResponse)
        ensures
            r.items@.len() == 0,
            r.offset == offset,
            r.max_limit == max_limit,
            r.count == count,
            r.total_count == total_count,
            r.has_more == has_more,
    {
        ListJobFileRelationshipsResponse {
            items: Vec::new(),
            offset,
            max_limit,
            count,
            total_count,
            has_more,
        }
    }
}

impl ListJobUserDataRelationshipsResponse {
    /// An empty page with the given paging figures.
    pub fn new(offset: i64, max_limit: i64, count: i64, total_count: i64, has_more: bool) -> (r: ListJobUserDataRelationshipsResponse)
        ensures
            r.items@.len() == 0,
            r.offset == offset,
            r.max_limit == max_limit,
            r.count == count,
            r.total_count == total_count,
            r.has_more == has_more,
    {
        ListJobUserDataRelationshipsResponse {
            items: Vec::new(),
            offset,
            max_limit,
            count,
            total_count,
            has_more,
        }
    }
}

impl ListResourceRequirementsResponse {
    /// An empty page with the given paging figures.
    pub fn new(offset: i64, max_limit: i64, count: i64, total_count: i64, has_more: bool) -> (r: ListResourceRequirementsResponse)
        ensures
            r.items@.len() == 0,
            r.offset == offset,
            r.max_limit == max_limit,
            r.count == count,
            r.total_count == total_count,
            r.has_more == has_more,
    {
        ListResourceRequirementsResponse {
            items: Vec::new(),
            offset,
            max_limit,
            count,
            total_count,
            has_more,
        }
    }
}

impl ListFailureHandlersResponse {
    /// An empty page with the given paging figures.
    pub fn new(offset: i64, max_limit: i64, count: i64, total_count: i64, has_more: bool) -> (r: ListFailureHandlersResponse)
        ensures
            r.items@.len() == 0,
            r.offset == offset,
            r.max_limit == max_limit,
            r.count == count,
            r.total_count == total_count,
            r.has_more == has_more,
    {
        ListFailureHandlersResponse {
            items: Vec::new(),
            offset,
            max_limit,
            count,
            total_count,
            has_more,
        }
    }
}

impl CreateJobsResponse {
    /// A response that holds no jobs yet.
    pub fn new() -> (r: CreateJobsResponse)
        ensures
            r.jobs is None,
    {
        CreateJobsResponse {
            jobs: None,
        }
    }
}

impl ComputeNodeSchedule {
    /// A schedule for `num_jobs` jobs on a scheduler, one worker per allocation.
    pub fn new(num_jobs: i64, scheduler_id: i64) -> (r: ComputeNodeSchedule)
        ensures
            r.max_parallel_jobs is None,
            r.num_jobs == num_jobs,
            r.scheduler_id == scheduler_id,
            r.start_one_worker_per_node == Some(false),
    {
        ComputeNodeSchedule {
            max_parallel_jobs: None,
            num_jobs,
            scheduler_id,
            start_one_worker_per_node: Some(false),
        }
    }
}

impl FailureHandlerModel {
    /// A failure handler not yet stored.
    pub fn new(workflow_id: i64, name: String, rules: String) -> (r: FailureHandlerModel)
        ensures
            r.id is None,
            r.workflow_id == workflow_id,
            r.name == name,
            r.rules == rules,
    {
        FailureHandlerModel {
            id: None,
            workflow_id,
            name,
            rules,
        }
    }
}

impl IsCompleteResponse {
    /// The two flags.
    pub fn new(is_canceled: bool, is_complete: bool) -> (r: IsCompleteResponse)
        ensures
            r.is_canceled == is_canceled,
            r.is_complete == is_complete,
    {
        IsCompleteResponse {
            is_canceled,
            is_complete,
        }
    }
}

impl JobModel {
    /// A new job: uninitialized, first attempt, canceled when a blocking job fails.
    pub fn new(workflow_id: i64, name: String, command: String) -> (r: JobModel)
        ensures
            r.id is None,
            r.workflow_id == workflow_id,
            r.name == name,
            r.command == command,
            r.invocation_script is None,
            r.env is None,
            r.status == Some(JobStatus::Uninitialized),
            r.start_time is None,
            r.compute_node_id is None,
            r.schedule_compute_nodes is None,
            r.cancel_on_blocking_job_failure == Some(true),
            r.supports_termination == Some(false),
            r.depends_on_job_ids is None,
            r.input_file_ids is None,
            r.output_file_ids is None,
            r.input_user_data_ids is None,
            r.output_user_data_ids is None,
            r.resource_requirements_id is None,
            r.scheduler_id is None,
            r.failure_handler_id is None,
            r.attempt_id == Some(1i64),
            r.priority is None,
            r.origin is None,
    {
        JobModel {
            id: None,
            workflow_id,
            name,
            command,
            invocation_script: None,
            env: None,
            status: Some(JobStatus::Uninitialized),
            start_time: None,
            compute_node_id: None,
            schedule_compute_nodes: None,
            cancel_on_blocking_job_failure: Some(true),
            supports_termination: Some(false),
            depends_on_job_ids: None,
            input_file_ids: None,
            output_file_ids: None,
            input_user_data_ids: None,
            output_user_data_ids: None,
            resource_requirements_id: None,
            scheduler_id: None,
            failure_handler_id: None,
            attempt_id: Some(1),
            priority: None,
            origin: None,
        }
    }
}

impl JobsModel {
    /// Jobs to create.
    pub fn new(jobs: Vec<JobModel>) -> (r: JobsModel)
        ensures
            r.jobs == jobs,
    {
        JobsModel {
            jobs,
        }
    }
}

impl ListMissingUserDataResponse {
    /// A response listing no user data.
    pub fn new() -> (r: ListMissingUserDataResponse)
        ensures
            r.user_data@.len() == 0,
    {
        ListMissingUserDataResponse {
            user_data: Vec::new(),
        }
    }
}

impl ListRequiredExistingFilesResponse {
    /// A response listing no files.
    pub fn new() -> (r: ListRequiredExistingFilesResponse)
        ensures
            r.files@.len() == 0,
    {
        ListRequiredExistingFilesResponse {
            files: Vec::new(),
        }
    }
}

impl LocalSchedulerModel {
    /// The default local scheduler of a workflow.
    pub fn new(workflow_id: i64) -> (r: LocalSchedulerModel)
        ensures
            r.id is None,
            r.workflow_id == workflow_id,
            r.name matches Some(v) && v@ == "default"@,
            r.memory is None,
            r.num_cpus is None,
    {
        LocalSchedulerModel {
            id: None,
            workflow_id,
            name: Some(lit("default")),
            memory: None,
            num_cpus: None,
        }
    }
}

impl ClaimJobsBasedOnResources {
    /// A response that holds no jobs yet.
    pub fn new() -> (r: ClaimJobsBasedOnResources)
        ensures
            r.jobs is None,
            r.reason is None,
    {
        ClaimJobsBasedOnResources {
            jobs: None,
            reason: None,
        }
    }
}

impl ClaimNextJobsResponse {
    /// A response that holds no jobs yet.
    pub fn new() -> (r: ClaimNextJobsResponse)
        ensures
            r.jobs is None,
    {
        ClaimNextJobsResponse {
            jobs: None,
        }
    }
}

impl ProcessChangedJobInputsResponse {
    /// A response listing no jobs.
    pub fn new() -> (r: ProcessChangedJobInputsResponse)
        ensures
            r.reinitialized_jobs@.len() == 0,
    {
        ProcessChangedJobInputsResponse {
            reinitialized_jobs: Vec::new(),
        }
    }
}

impl ResourceRequirementsModel {
    /// Requirements with the defaults: one CPU, no GPU, one node, `1m` of memory, one minute.
    pub fn new(workflow_id: i64, name: String) -> (r: ResourceRequirementsModel)
        ensures
            r.id is None,
            r.workflow_id == workflow_id,
            r.name == name,
            r.num_cpus == 1,
            r.num_gpus == 0,
            r.num_nodes == 1,
            r.memory@ == "1m"@,
            r.runtime@ == "PT1M"@,
    {
        ResourceRequirementsModel {
            id: None,
            workflow_id,
            name,
            num_cpus: default_num_cpus(),
            num_gpus: default_num_gpus(),
            num_nodes: default_num_nodes(),
            memory: default_memory(),
            runtime: default_runtime(),
        }
    }
}

impl ScheduledComputeNodesModel {
    /// Scheduled nodes not yet stored.
    pub fn new(workflow_id: i64, scheduler_id: i64, scheduler_config_id: i64, scheduler_type: String, status: String) -> (r: ScheduledComputeNodesModel)
        ensures
            r.id is None,
            r.workflow_id == workflow_id,
            r.scheduler_id == scheduler_id,
            r.scheduler_config_id == scheduler_config_id,
            r.scheduler_type == scheduler_type,
            r.status == status,
    {
        ScheduledComputeNodesModel {
            id: None,
            workflow_id,
            scheduler_id,
            scheduler_config_id,
            scheduler_type,
            status,
        }
    }
}

impl SlurmSchedulerModel {
    /// A scheduler with the `normal` quality of service.
    pub fn new(workflow_id: i64, account: String, nodes: i64, walltime: String) -> (r: SlurmSchedulerModel)
        ensures
            r.id is None,
            r.workflow_id == workflow_id,
            r.name is None,
            r.account == account,
            r.gres is None,
            r.mem is None,
            r.nodes == nodes,
            r.ntasks_per_node is None,
            r.partition is None,
            r.qos matches Some(v) && v@ == "normal"@,
            r.tmp is None,
            r.walltime == walltime,
            r.extra is None,
    {
        SlurmSchedulerModel {
            id: None,
            workflow_id,
            name: None,
            account,
            gres: None,
            mem: None,
            nodes,
            ntasks_per_node: None,
            partition: None,
            qos: Some(lit("normal")),
            tmp: None,
            walltime,
            extra: None,
        }
    }
}

impl JobDependencyModel {
    /// A dependency of `job_id` on `depends_on_job_id`.
    pub fn new(job_id: i64, job_name: String, depends_on_job_id: i64, depends_on_job_name: String, workflow_id: i64) -> (r: JobDependencyModel)
        ensures
            r.job_id == job_id,
            r.job_name == job_name,
            r.depends_on_job_id == depends_on_job_id,
            r.depends_on_job_name == depends_on_job_name,
            r.workflow_id == workflow_id,
    {
        JobDependencyModel {
            job_id,
            job_name,
            depends_on_job_id,
            depends_on_job_name,
            workflow_id,
        }
    }
}

impl JobFileRelationshipModel {
    /// A file with no producer or consumer yet.
    pub fn new(file_id: i64, file_name: String, file_path: String, workflow_id: i64) -> (r: JobFileRelationshipModel)
        ensures
            r.file_id == file_id,
            r.file_name == file_name,
            r.file_path == file_path,
            r.producer_job_id is None,
            r.producer_job_name is None,
            r.consumer_job_id is None,
            r.consumer_job_name is None,
            r.workflow_id == workflow_id,
    {
        JobFileRelationshipModel {
            file_id,
            file_name,
            file_path,
            producer_job_id: None,
            producer_job_name: None,
            consumer_job_id: None,
            consumer_job_name: None,
            workflow_id,
        }
    }
}

impl JobUserDataRelationshipModel {
    /// A user data record with no producer or consumer yet.
    pub fn new(user_data_id: i64, user_data_name: String, workflow_id: i64) -> (r: JobUserDataRelationshipModel)
        ensures
            r.user_data_id == user_data_id,
            r.user_data_name == user_data_name,
            r.producer_job_id is None,
            r.producer_job_name is None,
            r.consumer_job_id is None,
            r.consumer_job_name is None,
            r.workflow_id == workflow_id,
    {
        JobUserDataRelationshipModel {
            user_data_id,
            user_data_name,
            producer_job_id: None,
            producer_job_name: None,
            consumer_job_id: None,
            consumer_job_name: None,
            workflow_id,
        }
    }
}

impl RemoteWorkerModel {
    /// A remote worker.
    pub fn new(worker: String, workflow_id: i64) -> (r: RemoteWorkerModel)
        ensures
            r.worker == worker,
            r.workflow_id == workflow_id,
    {
        RemoteWorkerModel {
            worker,
            workflow_id,
        }
    }
}

impl AccessGroupModel {
    /// A group not yet stored.
    pub fn new(name: String) -> (r: AccessGroupModel)
        ensures
            r.id is None,
            r.name == name,
            r.description is None,
            r.created_at is None,
    {
        AccessGroupModel {
            id: None,
            name,
            description: None,
            created_at: None,
        }
    }
}

impl UserGroupMembershipModel {
    /// A plain membership (role `member`).
    pub fn new(user_name: String, group_id: i64) -> (r: UserGroupMembershipModel)
        ensures
            r.id is None,
            r.user_name == user_name,
            r.group_id == group_id,
            r.role@ == "member"@,
            r.created_at is None,
    {
        UserGroupMembershipModel {
            id: None,
            user_name,
            group_id,
            role: lit("member"),
            created_at: None,
        }
    }
}

impl WorkflowAccessGroupModel {
    /// A sharing not yet stored.
    pub fn new(workflow_id: i64, group_id: i64) -> (r: WorkflowAccessGroupModel)
        ensures
            r.workflow_id == workflow_id,
            r.group_id == group_id,
            r.created_at is None,
    {
        WorkflowAccessGroupModel {
            workflow_id,
            group_id,
            created_at: None,
        }
    }
}

impl TaskModel {
    /// A task that has neither started nor finished.
    pub fn new(id: i64, workflow_id: i64, operation: String, status: TaskStatus, created_at_ms: i64) -> (r: TaskModel)
        ensures
            r.id == id,
            r.workflow_id == workflow_id,
            r.operation == operation,
            r.status == status,
            r.created_at_ms == created_at_ms,
            r.started_at_ms is None,
            r.finished_at_ms is None,
            r.error is None,
    {
        TaskModel {
            id,
            workflow_id,
            operation,
            status,
            created_at_ms,
            started_at_ms: None,
            finished_at_ms: None,
            error: None,
        }
    }
}


// ---------------------------------------------------------------------------
// Background tasks
// ---------------------------------------------------------------------------

/// State of a background task.
#[derive(Debug, Clone, Copy, PartialEq, Eq, Structural)]
pub enum TaskStatus {
    Queued,
    Running,
    Succeeded,
    Failed,
}

pub open spec fn task_status_text(s: TaskStatus) -> Seq<char> {
    match s {
        TaskStatus::Queued => "queued"@,
        TaskStatus::Running => "running"@,
        TaskStatus::Succeeded => "succeeded"@,
        TaskStatus::Failed => "failed"@,
    }
}

impl TaskStatus {
    /// The lowercase name of the status.
    pub fn to_display_string(&self) -> (r: String)
        ensures
            r@ == task_status_text(*self),
    {
        match self {
            TaskStatus::Queued => lit("queued"),
            TaskStatus::Running => lit("running"),
            TaskStatus::Succeeded => lit("succeeded"),
            TaskStatus::Failed => lit("failed"),
        }
    }

    /// Reads a status by its lowercase name.
    pub fn from_str(s: &str) -> (r: Result<TaskStatus, String>)
        ensures
            match r {
                Ok(v) => s@ == task_status_text(v),
                Err(e) => e@ == "Unknown task status: "@ + s@ && (forall|v: TaskStatus|
                    s@ != #[trigger] task_status_text(v)),
            },
    {
        let v = chars_of(s);
        if chars_eq(&v, &chars_of("queued")) {
            Ok(TaskStatus::Queued)
        } else if chars_eq(&v, &chars_of("running")) {
            Ok(TaskStatus::Running)
        } else if chars_eq(&v, &chars_of("succeeded")) {
            Ok(TaskStatus::Succeeded)
        } else if chars_eq(&v, &chars_of("failed")) {
            Ok(TaskStatus::Failed)
        } else {
            proof {
                assert forall|t: TaskStatus| s@ != #[trigger] task_status_text(t) by {
                    match t {
                        TaskStatus::Queued => {},
                        TaskStatus::Running => {},
                        TaskStatus::Succeeded => {},
                        TaskStatus::Failed => {},
                    }
                }
            }
            Err(crate::text::concat2("Unknown task status: ", s))
        }
    }
}

// ---------------------------------------------------------------------------
// Records with derived fields
// ---------------------------------------------------------------------------

impl ListJobIdsResponse {
    /// The ids with their count.
    pub fn new(job_ids: Vec<i64>) -> (r: ListJobIdsResponse)
        requires
            job_ids.len() <= i64::MAX,
        ensures
            r.job_ids == job_ids,
            r.count == job_ids.len(),
    {
        let count = job_ids.len() as i64;
        ListJobIdsResponse { job_ids, count }
    }
}

/// Whether a page that starts at `offset` and holds `len` items is followed
/// by more of `total_count`.
pub open spec fn page_has_more(offset: int, len: int, total_count: int) -> bool {
    offset + len < total_count
}

impl ListAccessGroupsResponse {
    /// A page of groups; `has_more` tells whether items follow it.
    pub fn new(items: Vec<AccessGroupModel>, offset: i64, limit: i64, total_count: i64) -> (r: Self)
        requires
            items.len() <= i64::MAX,
            i64::MIN <= offset + items.len() <= i64::MAX,
        ensures
            r.items == items,
            r.offset == offset,
            r.limit == limit,
            r.total_count == total_count,
            r.has_more == page_has_more(offset as int, items.len() as int, total_count as int),
    {
        let has_more = offset + (items.len() as i64) < total_count;
        ListAccessGroupsResponse { items, offset, limit, total_count, has_more }
    }
}

impl ListUserGroupMembershipsResponse {
    /// A page of memberships; `has_more` tells whether items follow it.
    pub fn new(items: Vec<UserGroupMembershipModel>, offset: i64, limit: i64, total_count: i64) -> (r: Self)
        requires
            items.len() <= i64::MAX,
            i64::MIN <= offset + items.len() <= i64::MAX,
        ensures
            r.items == items,
            r.offset == offset,
            r.limit == limit,
            r.total_count == total_count,
            r.has_more == page_has_more(offset as int, items.len() as int, total_count as int),
    {
        let has_more = offset + (items.len() as i64) < total_count;
        ListUserGroupMembershipsResponse { items, offset, limit, total_count, has_more }
    }
}

impl ResetJobStatusResponse {
    /// A reset of `updated_count` jobs to `status`, of no particular kind.
    pub fn new(workflow_id: i64, updated_count: i64, status: String) -> (r: ResetJobStatusResponse)
        ensures
            r.workflow_id == workflow_id,
            r.updated_count == updated_count,
            r.status == status,
            r.reset_type is None,
    {
        ResetJobStatusResponse { workflow_id, updated_count, status, reset_type: None }
    }

    /// The same response, with the kind of reset.
    pub fn with_reset_type(self, reset_type: String) -> (r: Self)
        ensures
            r.workflow_id == self.workflow_id,
            r.updated_count == self.updated_count,
            r.status == self.status,
            r.reset_type == Some(reset_type),
    {
        let mut s = self;
        s.reset_type = Some(reset_type);
        s
    }
}

impl VersionResponse {
    /// A version response reads as a JSON object.
    pub fn is_object(&self) -> (b: bool)
        ensures
            b,
    {
        true
    }

    /// Read as a string, a version response is its version.
    pub fn as_str(&self) -> (r: Option<&str>)
        ensures
            r matches Some(v) && v@ == self.version@,
    {
        Some(self.version.as_str())
    }
}

impl IsUninitializedResponse {
    /// Read as a boolean, the response is its flag.
    pub fn as_bool(&self) -> (r: Option<bool>)
        ensures
            r == Some(self.is_uninitialized),
    {
        Some(self.is_uninitialized)
    }
}

/// A workflow as the server stores it.
#[derive(Debug)]
pub struct WorkflowModel {
    pub id: Option<i64>,
    pub name: String,
    pub user: String,
    pub description: Option<String>,
    pub env: Option<Vec<(String, String)>>,
    pub timestamp: Option<String>,
    pub compute_node_expiration_buffer_seconds: Option<i64>,
    pub compute_node_wait_for_new_jobs_seconds: Option<i64>,
    pub compute_node_ignore_workflow_completion: Option<bool>,
    pub compute_node_wait_for_healthy_database_minutes: Option<i64>,
    pub compute_node_min_time_for_new_jobs_seconds: Option<i64>,
    pub resource_monitor_config: Option<ResourceMonitorConfig>,
    pub slurm_defaults: Option<Vec<(String, JsonValue)>>,
    pub use_pending_failed: Option<bool>,
    pub enable_ro_crate: Option<bool>,
    pub project: Option<String>,
    pub metadata: Option<Vec<(String, JsonValue)>>,
    pub execution_config: Option<ExecutionConfig>,
    /// Current run number; incremented on each restart. Read-only on the API.
    pub run_id: Option<i64>,
    /// Set when the workflow has been canceled. Read-only on the API.
    pub is_canceled: Option<bool>,
    /// Set when the workflow has been archived. Read-only on the API.
    pub is_archived: Option<bool>,
    pub dynamic_jobs: Option<DynamicJobsConfig>,
    /// Names of the access groups granted shared access.
    pub access_groups: Option<Vec<String>>,
    /// Directory the workflow was submitted from.
    pub submission_directory: Option<String>,
}

impl WorkflowModel {
    /// A new workflow record with the server's defaults: jobs are waited for
    /// 0 s, workflow completion is not ignored, the database is waited for
    /// 20 min, new jobs need 300 s, and pending-failed is off.
    pub fn new(name: String, user: String) -> (w: WorkflowModel)
        ensures
            w.id is None,
            w.name == name,
            w.user == user,
            w.description is None,
            w.env is None,
            w.timestamp is None,
            w.compute_node_expiration_buffer_seconds is None,
            w.compute_node_wait_for_new_jobs_seconds == Some(0i64),
            w.compute_node_ignore_workflow_completion == Some(false),
            w.compute_node_wait_for_healthy_database_minutes == Some(20i64),
            w.compute_node_min_time_for_new_jobs_seconds == Some(300i64),
            w.resource_monitor_config is None,
            w.slurm_defaults is None,
            w.use_pending_failed == Some(false),
            w.enable_ro_crate is None,
            w.project is None,
            w.metadata is None,
            w.execution_config is None,
            w.run_id is None,
            w.is_canceled is None,
            w.is_archived is None,
            w.dynamic_jobs is None,
            w.access_groups is None,
            w.submission_directory is None,
    {
        WorkflowModel {
            id: None,
            name,
            user,
            description: None,
            env: None,
            timestamp: None,
            compute_node_expiration_buffer_seconds: None,
            compute_node_wait_for_new_jobs_seconds: Some(0),
            compute_node_ignore_workflow_completion: Some(false),
            compute_node_wait_for_healthy_database_minutes: Some(20),
            compute_node_min_time_for_new_jobs_seconds: Some(300),
            resource_monitor_config: None,
            slurm_defaults: None,
            use_pending_failed: Some(false),
            enable_ro_crate: None,
            project: None,
            metadata: None,
            execution_config: None,
            run_id: None,
            is_canceled: None,
            is_archived: None,
            dynamic_jobs: None,
            access_groups: None,
            submission_directory: None,
        }
    }
}

impl ExecutionConfig {
    /// The execution configuration of a workflow record: its own, or the
    /// default when it has none.
    pub fn from_workflow_model(workflow: &WorkflowModel) -> (c: ExecutionConfig)
        ensures
            match workflow.execution_config {
                Some(e) => same_config(e, c),
                None => is_default_config(c),
            },
    {
        match &workflow.execution_config {
            Some(e) => e.copy(),
            None => ExecutionConfig::default(),
        }
    }
}

/// A file of a workflow as the server stores it. `st_mtime_bits` holds the
/// bits of the modification time in seconds (an `f64`), set for input files.
#[derive(Debug)]
pub struct FileModel {
    pub id: Option<i64>,
    pub workflow_id: i64,
    pub name: String,
    pub path: String,
    pub st_mtime_bits: Option<u64>,
}

impl FileModel {
    pub fn new(workflow_id: i64, name: String, path: String) -> (f: FileModel)
        ensures
            f.id is None,
            f.workflow_id == workflow_id,
            f.name == name,
            f.path == path,
            f.st_mtime_bits is None,
    {
        FileModel { id: None, workflow_id, name, path, st_mtime_bits: None }
    }
}

/// A user data record of a workflow as the server stores it.
#[derive(Debug)]
pub struct UserDataModel {
    pub id: Option<i64>,
    pub workflow_id: i64,
    pub is_ephemeral: Option<bool>,
    pub name: String,
    pub data: Option<JsonValue>,
}

impl UserDataModel {
    pub fn new(workflow_id: i64, name: String) -> (u: UserDataModel)
        ensures
            u.id is None,
            u.workflow_id == workflow_id,
            u.is_ephemeral == Some(false),
            u.name == name,
            u.data is None,
    {
        UserDataModel { id: None, workflow_id, is_ephemeral: Some(false), name, data: None }
    }
}

/// A workflow action as the server stores it.
#[derive(Debug)]
pub struct WorkflowActionModel {
    pub id: Option<i64>,
    pub workflow_id: i64,
    pub trigger_type: String,
    pub action_type: String,
    pub action_config: JsonValue,
    pub job_ids: Option<Vec<i64>>,
    pub trigger_count: i64,
    pub required_triggers: i64,
    pub executed: bool,
    pub executed_at: Option<String>,
    pub executed_by: Option<i64>,
    pub persistent: bool,
    pub is_recovery: bool,
}

impl WorkflowActionModel {
    /// A new action, not yet triggered, needing one trigger.
    pub fn new(workflow_id: i64, trigger_type: String, action_type: String, action_config: JsonValue) -> (a:
        WorkflowActionModel)
        ensures
            a.id is None,
            a.workflow_id == workflow_id,
            a.trigger_type == trigger_type,
            a.action_type == action_type,
            a.action_config == action_config,
            a.job_ids is None,
            a.trigger_count == 0,
            a.required_triggers == 1,
            !a.executed,
            a.executed_at is None,
            a.executed_by is None,
            !a.persistent,
            !a.is_recovery,
    {
        WorkflowActionModel {
            id: None,
            workflow_id,
            trigger_type,
            action_type,
            action_config,
            job_ids: None,
            trigger_count: 0,
            required_triggers: 1,
            executed: false,
            executed_at: None,
            executed_by: None,
            persistent: false,
            is_recovery: false,
        }
    }
}

// ---------------------------------------------------------------------------
// Responses read as JSON objects
// ---------------------------------------------------------------------------

impl DeleteCountResponse {
    /// The field `key` as a JSON value: `count`.
    pub fn get(&self, key: &str) -> (r: Option<JsonValue>)
        ensures
            key@ == "count"@ ==> (r matches Some(JsonValue::Number(n)) && n@ == int_text(self.count as int)),
            key@ != "count"@ ==> r is None,
    {
        if str_eq(key, "count") {
            Some(JsonValue::Number(i64_to_string(self.count)))
        } else {
            None
        }
    }
}

impl VersionResponse {
    /// The field `key` as a JSON value: `version`, `api_version`, or
    /// `git_hash` when it is set.
    pub fn get(&self, key: &str) -> (r: Option<JsonValue>)
        ensures
            key@ == "version"@ ==> (r matches Some(JsonValue::String(v)) && v@ == self.version@),
            key@ == "api_version"@ ==> (r matches Some(JsonValue::String(v)) && v@ == self.api_version@),
            key@ == "git_hash"@ ==> match self.git_hash {
                Some(h) => r matches Some(JsonValue::String(v)) && v@ == h@,
                None => r is None,
            },
            key@ != "version"@ && key@ != "api_version"@ && key@ != "git_hash"@ ==> r is None,
    {
        proof {
            reveal_strlit("version");
            reveal_strlit("api_version");
            reveal_strlit("git_hash");
            assert("version"@.len() == 7);
            assert("api_version"@.len() == 11);
            assert("git_hash"@.len() == 8);
        }
        if str_eq(key, "version") {
            Some(JsonValue::String(copy_string(&self.version)))
        } else if str_eq(key, "api_version") {
            Some(JsonValue::String(copy_string(&self.api_version)))
        } else if str_eq(key, "git_hash") {
            match &self.git_hash {
                Some(h) => Some(JsonValue::String(copy_string(h))),
                None => None,
            }
        } else {
            None
        }
    }
}

impl ClaimActionResponse {
    /// The field `key` as a JSON value: `claimed` and `success` (both the
    /// success flag), and `action_id`.
    pub fn get(&self, key: &str) -> (r: Option<JsonValue>)
        ensures
            (key@ == "claimed"@ || key@ == "success"@) ==> r == Some(JsonValue::Bool(self.success)),
            key@ == "action_id"@ ==> (r matches Some(JsonValue::Number(n)) && n@ == int_text(self.action_id as int)),
            key@ != "claimed"@ && key@ != "success"@ && key@ != "action_id"@ ==> r is None,
    {
        proof {
            reveal_strlit("claimed");
            reveal_strlit("success");
            reveal_strlit("action_id");
            assert("claimed"@.len() == 7);
            assert("success"@.len() == 7);
            assert("action_id"@.len() == 9);
        }
        if str_eq(key, "claimed") || str_eq(key, "success") {
            Some(JsonValue::Bool(self.success))
        } else if str_eq(key, "action_id") {
            Some(JsonValue::Number(i64_to_string(self.action_id)))
        } else {
            None
        }
    }
}

impl ReloadAuthResponse {
    /// The field `key` as a JSON value: `message` and `user_count`.
    pub fn get(&self, key: &str) -> (r: Option<JsonValue>)
        ensures
            key@ == "message"@ ==> (r matches Some(JsonValue::String(v)) && v@ == self.message@),
            key@ == "user_count"@ ==> (r matches Some(JsonValue::Number(n)) && n@ == int_text(self.user_count as int)),
            key@ != "message"@ && key@ != "user_count"@ ==> r is None,
    {
        proof {
            reveal_strlit("message");
            reveal_strlit("user_count");
            assert("message"@.len() == 7);
            assert("user_count"@.len() == 10);
        }
        if str_eq(key, "message") {
            Some(JsonValue::String(copy_string(&self.message)))
        } else if str_eq(key, "user_count") {
            Some(JsonValue::Number(i64_to_string(self.user_count)))
        } else {
            None
        }
    }
}

impl IsUninitializedResponse {
    /// The field `key` as a JSON value: `is_uninitialized`.
    pub fn get(&self, key: &str) -> (r: Option<JsonValue>)
        ensures
            key@ == "is_uninitialized"@ ==> r == Some(JsonValue::Bool(self.is_uninitialized)),
            key@ != "is_uninitialized"@ ==> r is None,
    {
        if str_eq(key, "is_uninitialized") {
            Some(JsonValue::Bool(self.is_uninitialized))
        } else {
            None
        }
    }
}

// ---------------------------------------------------------------------------
// Further records of the API
// ---------------------------------------------------------------------------

/// An error as the server reports it.
#[derive(Debug)]
pub struct ErrorResponse {
    pub error: JsonValue,
    pub error_num: Option<i64>,
    pub error_message: Option<String>,
    pub code: Option<i64>,
}

impl ErrorResponse {
    pub fn new(error: JsonValue) -> (r: ErrorResponse)
        ensures
            r.error == error,
            r.error_num is None,
            r.error_message is None,
            r.code is None,
    {
        ErrorResponse { error, error_num: None, error_message: None, code: None }
    }
}

/// `chrono::Utc::now`, as milliseconds since the Unix epoch
/// (`chrono::DateTime::timestamp_millis`). It is the time, so only that it
/// is not before the epoch is stated: chrono panics on a system clock set
/// before 1970 rather than return such a time.
#[verifier::external_body]
fn now_utc_millis() -> (r: i64)
    ensures
        r >= 0,
{
    chrono::Utc::now().timestamp_millis()
}

/// The rendering of a UTC time given in milliseconds since the Unix epoch,
/// as `chrono::DateTime::format` gives it with `%Y-%m-%dT%H:%M:%S%.3fZ`;
/// `None` where `chrono::DateTime::from_timestamp_millis` has no time.
pub uninterp spec fn utc_millis_iso_text(ms: i64) -> Option<Seq<char>>;

/// `chrono::DateTime::from_timestamp_millis`, then `format` with
/// `%Y-%m-%dT%H:%M:%S%.3fZ`: the contract names the text (or its absence)
/// and claims only that it depends on the milliseconds alone.
#[verifier::external_body]
fn utc_millis_text(ms: i64) -> (r: Option<String>)
    ensures
        match r {
            Some(t) => utc_millis_iso_text(ms) == Some(t@),
            None => utc_millis_iso_text(ms) is None,
        },
{
    match chrono::DateTime::from_timestamp_millis(ms) {
        Some(t) => Some(t.format("%Y-%m-%dT%H:%M:%S%.3fZ").to_string()),
        None => None,
    }
}

/// An event of a workflow; `timestamp` is in milliseconds since the Unix epoch.
#[derive(Debug)]
pub struct EventModel {
    pub id: Option<i64>,
    pub workflow_id: i64,
    pub timestamp: i64,
    pub data: JsonValue,
}

/// The text of a timestamp, given its rendering as a calendar time when it
/// has one: that rendering, or the milliseconds followed by `ms`.
pub fn timestamp_text(rendered: Option<String>, timestamp: i64) -> (r: String)
    ensures
        match rendered {
            Some(t) => r@ == t@,
            None => r@ == int_text(timestamp as int) + "ms"@,
        },
{
    match rendered {
        Some(t) => t,
        None => {
            let digits = i64_to_string(timestamp);
            let mut v = chars_of(digits.as_str());
            let ms = chars_of("ms");
            let mut k: usize = 0;
            let ghost start = v@;
            while k < ms.len()
                invariant
                    k <= ms.len(),
                    v@ == start + ms@.take(k as int),
                decreases ms.len() - k,
            {
                v.push(ms[k]);
                proof {
                    assert(v@ =~= start + ms@.take(k + 1));
                }
                k = k + 1;
            }
            proof {
                assert(ms@.take(ms.len() as int) =~= ms@);
            }
            string_of(&v)
        },
    }
}

impl EventModel {
    /// A new event, stamped with the current time.
    pub fn new(workflow_id: i64, data: JsonValue) -> (e: EventModel)
        ensures
            e.id is None,
            e.workflow_id == workflow_id,
            e.data == data,
    {
        EventModel { id: None, workflow_id, timestamp: now_utc_millis(), data }
    }

    /// The timestamp as an ISO 8601 UTC time with milliseconds, or as the
    /// milliseconds followed by `ms` when chrono cannot represent it.
    pub fn timestamp_as_string(&self) -> (r: String)
        ensures
            match utc_millis_iso_text(self.timestamp) {
                Some(t) => r@ == t,
                None => r@ == int_text(self.timestamp as int) + "ms"@,
            },
    {
        let rendered = utc_millis_text(self.timestamp);
        timestamp_text(rendered, self.timestamp)
    }
}

/// The files of a workflow, sent together.
#[derive(Debug)]
pub struct FilesModel {
    pub files: Vec<FileModel>,
}

impl FilesModel {
    pub fn new(files: Vec<FileModel>) -> (r: FilesModel)
        ensures
            r.files == files,
    {
        FilesModel { files }
    }
}

/// The files the server created.
#[derive(Debug)]
pub struct CreateFilesResponse {
    pub files: Option<Vec<FileModel>>,
}

impl CreateFilesResponse {
    pub fn new() -> (r: CreateFilesResponse)
        ensures
            r.files is None,
    {
        CreateFilesResponse { files: None }
    }
}

/// The user data of a workflow, sent together.
#[derive(Debug)]
pub struct UserDataListModel {
    pub user_data: Vec<UserDataModel>,
}

impl UserDataListModel {
    pub fn new(user_data: Vec<UserDataModel>) -> (r: UserDataListModel)
        ensures
            r.user_data == user_data,
    {
        UserDataListModel { user_data }
    }
}

/// The user data the server created.
#[derive(Debug)]
pub struct CreateUserDataListResponse {
    pub user_data: Option<Vec<UserDataModel>>,
}

impl CreateUserDataListResponse {
    pub fn new() -> (r: CreateUserDataListResponse)
        ensures
            r.user_data is None,
    {
        CreateUserDataListResponse { user_data: None }
    }
}

/// An RO-Crate entity of a workflow; `metadata` holds its JSON-LD fields by name.
#[derive(Debug)]
pub struct RoCrateEntityModel {
    pub id: Option<i64>,
    pub workflow_id: i64,
    pub file_id: Option<i64>,
    pub entity_id: String,
    pub entity_type: String,
    pub metadata: Vec<(String, JsonValue)>,
}

impl RoCrateEntityModel {
    pub fn new(workflow_id: i64, entity_id: String, entity_type: String, metadata: Vec<(String, JsonValue)>) -> (r:
        RoCrateEntityModel)
        ensures
            r.id is None,
            r.workflow_id == workflow_id,
            r.file_id is None,
            r.entity_id == entity_id,
            r.entity_type == entity_type,
            r.metadata == metadata,
    {
        RoCrateEntityModel { id: None, workflow_id, file_id: None, entity_id, entity_type, metadata }
    }
}

/// Jobs an orchestrator job asks to spawn, with its lineage and state.
#[derive(Debug)]
pub struct SpawnJobsRequest {
    pub lineage: Option<String>,
    pub jobs: Vec<SpawnJobModel>,
    pub state: Option<JsonValue>,
}

/// The result of an administrator's SQL statement.
#[derive(Debug)]
pub struct AdminSqlResponse {
    /// Column names of a query (empty for a write).
    pub columns: Vec<String>,
    /// Result rows, each aligned with `columns`.
    pub rows: Vec<Vec<JsonValue>>,
    /// Rows a write affected, when it applies.
    pub rows_affected: Option<i64>,
    /// Whether a write was committed.
    pub committed: bool,
}

/// A page of events.
#[derive(Debug)]
pub struct ListEventsResponse {
    pub items: Vec<EventModel>,
    pub offset: i64,
    pub max_limit: i64,
    pub count: i64,
    pub total_count: i64,
    pub has_more: bool,
}

impl ListEventsResponse {
    /// An empty page with the given paging figures.
    pub fn new(offset: i64, max_limit: i64, count: i64, total_count: i64, has_more: bool) -> (r: ListEventsResponse)
        ensures
            r.items@.len() == 0,
            r.offset == offset,
            r.max_limit == max_limit,
            r.count == count,
            r.total_count == total_count,
            r.has_more == has_more,
    {
        ListEventsResponse { items: Vec::new(), offset, max_limit, count, total_count, has_more }
    }
}

/// A page of files.
#[derive(Debug)]
pub struct ListFilesResponse {
    pub items: Vec<FileModel>,
    pub offset: i64,
    pub max_limit: i64,
    pub count: i64,
    pub total_count: i64,
    pub has_more: bool,
}

impl ListFilesResponse {
    /// An empty page with the given paging figures.
    pub fn new(offset: i64, max_limit: i64, count: i64, total_count: i64, has_more: bool) -> (r: ListFilesResponse)
        ensures
            r.items@.len() == 0,
            r.offset == offset,
            r.max_limit == max_limit,
            r.count == count,
            r.total_count == total_count,
            r.has_more == has_more,
    {
        ListFilesResponse { items: Vec::new(), offset, max_limit, count, total_count, has_more }
    }
}

/// A page of user data.
#[derive(Debug)]
pub struct ListUserDataResponse {
    pub items: Vec<UserDataModel>,
    pub offset: i64,
    pub max_limit: i64,
    pub count: i64,
    pub total_count: i64,
    pub has_more: bool,
}

impl ListUserDataResponse {
    /// An empty page with the given paging figures.
    pub fn new(offset: i64, max_limit: i64, count: i64, total_count: i64, has_more: bool) -> (r: ListUserDataResponse)
        ensures
            r.items@.len() == 0,
            r.offset == offset,
            r.max_limit == max_limit,
            r.count == count,
            r.total_count == total_count,
            r.has_more == has_more,
    {
        ListUserDataResponse { items: Vec::new(), offset, max_limit, count, total_count, has_more }
    }
}

/// A page of workflows.
#[derive(Debug)]
pub struct ListWorkflowsResponse {
    pub items: Vec<WorkflowModel>,
    pub offset: i64,
    pub max_limit: i64,
    pub count: i64,
    pub total_count: i64,
    pub has_more: bool,
}

impl ListWorkflowsResponse {
    /// An empty page with the given paging figures.
    pub fn new(offset: i64, max_limit: i64, count: i64, total_count: i64, has_more: bool) -> (r: ListWorkflowsResponse)
        ensures
            r.items@.len() == 0,
            r.offset == offset,
            r.max_limit == max_limit,
            r.count == count,
            r.total_count == total_count,
            r.has_more == has_more,
    {
        ListWorkflowsResponse { items: Vec::new(), offset, max_limit, count, total_count, has_more }
    }
}

/// A page of RO-Crate entities.
#[derive(Debug)]
pub struct ListRoCrateEntitiesResponse {
    pub items: Vec<RoCrateEntityModel>,
    pub offset: i64,
    pub max_limit: i64,
    pub count: i64,
    pub total_count: i64,
    pub has_more: bool,
}

impl ListRoCrateEntitiesResponse {
    /// An empty page with the given paging figures.
    pub fn new(offset: i64, max_limit: i64, count: i64, total_count: i64, has_more: bool) -> (r: ListRoCrateEntitiesResponse)
        ensures
            r.items@.len() == 0,
            r.offset == offset,
            r.max_limit == max_limit,
            r.count == count,
            r.total_count == total_count,
            r.has_more == has_more,
    {
        ListRoCrateEntitiesResponse { items: Vec::new(), offset, max_limit, count, total_count, has_more }
    }
}

} // verus!
