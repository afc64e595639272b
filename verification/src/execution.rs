//! How jobs are run: execution mode, termination settings, stdout/stderr
//! capture, resource monitoring and dynamic job spawning.
//!
//! Every optional setting has a documented default; the getters resolve it.

use vstd::prelude::*;

use crate::text::{chars_eq, chars_of, copy_string};

verus! {

/// Default seconds between the termination signal and SIGKILL.
pub const DEFAULT_SIGTERM_LEAD_SECONDS: i64 = 30;

/// Default seconds before the end time at which SIGKILL is sent.
pub const DEFAULT_SIGKILL_HEADROOM_SECONDS: i64 = 60;

/// Default exit code of a job that timed out (Slurm's TIMEOUT code).
pub const DEFAULT_TIMEOUT_EXIT_CODE: i32 = 152;

/// Default exit code of a job killed for memory (128 + SIGKILL).
pub const DEFAULT_OOM_EXIT_CODE: i32 = 137;

/// Dynamic job spawning configuration.
#[derive(Debug, Clone, Copy, PartialEq, Eq)]
pub struct DynamicJobsConfig {
    /// Cap on spawn calls per orchestrator lineage; `None` applies the server default.
    pub max_iterations: Option<i64>,
}

impl Default for DynamicJobsConfig {
    fn default() -> (r: Self)
        ensures
            r.max_iterations is None,
    {
        DynamicJobsConfig { max_iterations: None }
    }
}

/// How to capture stdout and stderr of job processes.
#[derive(Clone, Copy, Debug, PartialEq, Eq, Structural)]
pub enum StdioMode {
    /// Separate stdout and stderr files: the default.
    Separate,
    /// One file for both streams.
    Combined,
    /// Discard stdout, capture stderr.
    NoStdout,
    /// Discard stderr, capture stdout.
    NoStderr,
    /// Capture neither stream.
    NoCapture,
}

impl Default for StdioMode {
    fn default() -> (r: Self)
        ensures
            r == StdioMode::Separate,
    {
        StdioMode::Separate
    }
}

/// Configuration of stdout/stderr capture.
#[derive(Clone, Copy, Debug, PartialEq, Eq, Structural)]
pub struct StdioConfig {
    pub mode: StdioMode,
    /// Delete the captured files when the job succeeds.
    pub delete_on_success: Option<bool>,
}

impl Default for StdioConfig {
    fn default() -> (r: Self)
        ensures
            r == (StdioConfig { mode: StdioMode::Separate, delete_on_success: None }),
    {
        StdioConfig { mode: StdioMode::Separate, delete_on_success: None }
    }
}

/// How torc manages job processes.
#[derive(Clone, Copy, Debug, PartialEq, Eq, Structural)]
pub enum ExecutionMode {
    /// Torc runs the command and terminates it by signals: the default.
    Direct,
    /// Jobs are wrapped with `srun` and Slurm enforces limits.
    Slurm,
    /// Slurm inside a Slurm allocation, direct elsewhere.
    Auto,
}

impl Default for ExecutionMode {
    fn default() -> (r: Self)
        ensures
            r == ExecutionMode::Direct,
    {
        ExecutionMode::Direct
    }
}

/// Execution configuration of a workflow.
#[derive(Clone, Debug)]
pub struct ExecutionConfig {
    pub mode: ExecutionMode,
    pub sigkill_headroom_seconds: Option<i64>,
    pub timeout_exit_code: Option<i32>,
    pub staggered_start: Option<bool>,
    pub limit_resources: Option<bool>,
    pub termination_signal: Option<String>,
    pub sigterm_lead_seconds: Option<i64>,
    pub oom_exit_code: Option<i32>,
    pub srun_termination_signal: Option<String>,
    pub srun_mpi: Option<String>,
    pub enable_cpu_bind: Option<bool>,
    /// Workflow-wide stdio default.
    pub stdio: Option<StdioConfig>,
    /// Per-job stdio overrides by job name.
    pub job_stdio_overrides: Option<Vec<(String, StdioConfig)>>,
}

impl Default for ExecutionConfig {
    fn default() -> (r: Self)
        ensures
            r.mode == ExecutionMode::Direct,
            r.sigkill_headroom_seconds is None,
            r.timeout_exit_code is None,
            r.staggered_start is None,
            r.limit_resources is None,
            r.termination_signal is None,
            r.sigterm_lead_seconds is None,
            r.oom_exit_code is None,
            r.srun_termination_signal is None,
            r.srun_mpi is None,
            r.enable_cpu_bind is None,
            r.stdio is None,
            r.job_stdio_overrides is None,
    {
        ExecutionConfig {
            mode: ExecutionMode::Direct,
            sigkill_headroom_seconds: None,
            timeout_exit_code: None,
            staggered_start: None,
            limit_resources: None,
            termination_signal: None,
            sigterm_lead_seconds: None,
            oom_exit_code: None,
            srun_termination_signal: None,
            srun_mpi: None,
            enable_cpu_bind: None,
            stdio: None,
            job_stdio_overrides: None,
        }
    }
}

/// The mode jobs run in, given whether a Slurm job id is present.
pub open spec fn spec_effective_mode(mode: ExecutionMode, slurm_job_id_set: bool) -> ExecutionMode {
    match mode {
        ExecutionMode::Direct => ExecutionMode::Direct,
        ExecutionMode::Slurm => ExecutionMode::Slurm,
        ExecutionMode::Auto => if slurm_job_id_set {
            ExecutionMode::Slurm
        } else {
            ExecutionMode::Direct
        },
    }
}

/// The first override registered for `name`, if any.
pub open spec fn override_for(o: Seq<(String, StdioConfig)>, name: Seq<char>) -> Option<
    StdioConfig,
>
    decreases o.len(),
{
    if o.len() == 0 {
        None
    } else if o[0].0@ == name {
        Some(o[0].1)
    } else {
        override_for(o.drop_first(), name)
    }
}

/// The stdio configuration that applies to job `name`.
pub open spec fn spec_stdio_for_job(c: ExecutionConfig, name: Seq<char>) -> StdioConfig {
    let fallback = match c.stdio {
        Some(s) => s,
        None => StdioConfig { mode: StdioMode::Separate, delete_on_success: None },
    };
    match c.job_stdio_overrides {
        Some(o) => match override_for(o@, name) {
            Some(s) => s,
            None => fallback,
        },
        None => fallback,
    }
}

pub open spec fn bool_or(o: Option<bool>, d: bool) -> bool {
    match o {
        Some(b) => b,
        None => d,
    }
}

pub open spec fn i64_or(o: Option<i64>, d: i64) -> i64 {
    match o {
        Some(b) => b,
        None => d,
    }
}

pub open spec fn i32_or(o: Option<i32>, d: i32) -> i32 {
    match o {
        Some(b) => b,
        None => d,
    }
}

impl ExecutionConfig {
    /// The mode jobs actually run in. `Auto` resolves to `Slurm` inside a
    /// Slurm allocation (`slurm_job_id_set`: the `SLURM_JOB_ID` variable is
    /// set) and to `Direct` elsewhere.
    pub fn effective_mode(&self, slurm_job_id_set: bool) -> (m: ExecutionMode)
        ensures
            m == spec_effective_mode(self.mode, slurm_job_id_set),
    {
        match self.mode {
            ExecutionMode::Direct => ExecutionMode::Direct,
            ExecutionMode::Slurm => ExecutionMode::Slurm,
            ExecutionMode::Auto => if slurm_job_id_set {
                ExecutionMode::Slurm
            } else {
                ExecutionMode::Direct
            },
        }
    }

    /// Whether jobs are wrapped with `srun`: exactly when the effective mode is Slurm.
    pub fn use_srun(&self, slurm_job_id_set: bool) -> (b: bool)
        ensures
            b == (spec_effective_mode(self.mode, slurm_job_id_set) == ExecutionMode::Slurm),
    {
        match self.effective_mode(slurm_job_id_set) {
            ExecutionMode::Slurm => true,
            _ => false,
        }
    }

    /// Whether resource limits are enforced (default: true).
    pub fn limit_resources(&self) -> (b: bool)
        ensures
            b == bool_or(self.limit_resources, true),
    {
        match self.limit_resources {
            Some(b) => b,
            None => true,
        }
    }

    /// Whether Slurm may bind tasks to CPU cores (default: false).
    pub fn enable_cpu_bind(&self) -> (b: bool)
        ensures
            b == bool_or(self.enable_cpu_bind, false),
    {
        match self.enable_cpu_bind {
            Some(b) => b,
            None => false,
        }
    }

    /// The signal sent before SIGKILL (default: `SIGTERM`).
    pub fn termination_signal(&self) -> (s: &str)
        ensures
            s@ == (match self.termination_signal {
                Some(t) => t@,
                None => "SIGTERM"@,
            }),
    {
        match &self.termination_signal {
            Some(t) => t.as_str(),
            None => "SIGTERM",
        }
    }

    /// Seconds between the termination signal and SIGKILL (default: 30).
    pub fn sigterm_lead_seconds(&self) -> (r: i64)
        ensures
            r == i64_or(self.sigterm_lead_seconds, DEFAULT_SIGTERM_LEAD_SECONDS),
    {
        match self.sigterm_lead_seconds {
            Some(v) => v,
            None => DEFAULT_SIGTERM_LEAD_SECONDS,
        }
    }

    /// Seconds before the end time at which SIGKILL is sent (default: 60).
    pub fn sigkill_headroom_seconds(&self) -> (r: i64)
        ensures
            r == i64_or(self.sigkill_headroom_seconds, DEFAULT_SIGKILL_HEADROOM_SECONDS),
    {
        match self.sigkill_headroom_seconds {
            Some(v) => v,
            None => DEFAULT_SIGKILL_HEADROOM_SECONDS,
        }
    }

    /// Exit code of a timed-out job (default: 152).
    pub fn timeout_exit_code(&self) -> (r: i32)
        ensures
            r == i32_or(self.timeout_exit_code, DEFAULT_TIMEOUT_EXIT_CODE),
    {
        match self.timeout_exit_code {
            Some(v) => v,
            None => DEFAULT_TIMEOUT_EXIT_CODE,
        }
    }

    /// Exit code of a job killed for memory (default: 137).
    pub fn oom_exit_code(&self) -> (r: i32)
        ensures
            r == i32_or(self.oom_exit_code, DEFAULT_OOM_EXIT_CODE),
    {
        match self.oom_exit_code {
            Some(v) => v,
            None => DEFAULT_OOM_EXIT_CODE,
        }
    }

    /// Whether job runners start staggered (default: true).
    pub fn staggered_start(&self) -> (b: bool)
        ensures
            b == bool_or(self.staggered_start, true),
    {
        match self.staggered_start {
            Some(b) => b,
            None => true,
        }
    }

    /// The stdio configuration of a job: its override if it has one, else
    /// the workflow default, else separate files.
    pub fn stdio_for_job(&self, job_name: &str) -> (c: StdioConfig)
        ensures
            c == spec_stdio_for_job(*self, job_name@),
    {
        if self.job_stdio_overrides.is_some() {
            let overrides = self.job_stdio_overrides.as_ref().unwrap();
            let name = chars_of(job_name);
            let mut i: usize = 0;
            proof {
                assert(overrides@.skip(0) =~= overrides@);
            }
            while i < overrides.len()
                invariant
                    i <= overrides.len(),
                    name@ == job_name@,
                    self.job_stdio_overrides == Some(*overrides),
                    override_for(overrides@, job_name@) == override_for(
                        overrides@.skip(i as int),
                        job_name@,
                    ),
                decreases overrides.len() - i,
            {
                proof {
                    assert(overrides@.skip(i as int).drop_first() =~= overrides@.skip(i + 1));
                }
                let entry = chars_of(overrides[i].0.as_str());
                if chars_eq(&entry, &name) {
                    proof {
                        let rest = overrides@.skip(i as int);
                        assert(rest[0] == overrides@[i as int]);
                        assert(entry@ == overrides@[i as int].0@);
                        assert(rest[0].0@ == job_name@);
                        assert(override_for(rest, job_name@) == Some(overrides@[i as int].1));
                    }
                    return overrides[i].1;
                }
                i = i + 1;
            }
        }
        match self.stdio {
            Some(s) => s,
            None => StdioConfig { mode: StdioMode::Separate, delete_on_success: None },
        }
    }

    /// Whether a job's captured output is deleted when it succeeds (default: false).
    pub fn delete_stdio_on_success(&self, job_name: &str) -> (b: bool)
        ensures
            b == bool_or(spec_stdio_for_job(*self, job_name@).delete_on_success, false),
    {
        let c = self.stdio_for_job(job_name);
        match c.delete_on_success {
            Some(b) => b,
            None => false,
        }
    }
}

/// Sampling granularity of resource monitoring.
#[derive(Debug, Clone, Copy, PartialEq, Eq, Structural)]
pub enum MonitorGranularity {
    Summary,
    TimeSeries,
}

impl Default for MonitorGranularity {
    fn default() -> (r: Self)
        ensures
            r == MonitorGranularity::Summary,
    {
        MonitorGranularity::Summary
    }
}

/// Per-job resource monitoring.
#[derive(Debug, Clone, Copy, PartialEq, Eq, Structural)]
pub struct JobMonitorConfig {
    pub enabled: bool,
    pub granularity: MonitorGranularity,
}

impl Default for JobMonitorConfig {
    fn default() -> (r: Self)
        ensures
            r == (JobMonitorConfig { enabled: false, granularity: MonitorGranularity::Summary }),
    {
        JobMonitorConfig { enabled: false, granularity: MonitorGranularity::Summary }
    }
}

/// Compute-node resource monitoring.
#[derive(Debug, Clone, Copy, PartialEq, Eq, Structural)]
pub struct ComputeNodeMonitorConfig {
    pub enabled: bool,
    pub granularity: MonitorGranularity,
    pub cpu: bool,
    pub memory: bool,
}

impl Default for ComputeNodeMonitorConfig {
    fn default() -> (r: Self)
        ensures
            r == (ComputeNodeMonitorConfig {
                enabled: false,
                granularity: MonitorGranularity::Summary,
                cpu: true,
                memory: true,
            }),
    {
        ComputeNodeMonitorConfig {
            enabled: false,
            granularity: MonitorGranularity::Summary,
            cpu: true,
            memory: true,
        }
    }
}

/// Resource monitoring configuration.
#[derive(Debug, Clone, Copy, PartialEq, Eq, Structural)]
pub struct ResourceMonitorConfig {
    /// Older switch for job monitoring; `jobs` takes precedence.
    pub enabled: bool,
    /// Older granularity for job monitoring; `jobs` takes precedence.
    pub granularity: MonitorGranularity,
    pub sample_interval_seconds: i32,
    /// How often buffered samples are flushed, in seconds.
    pub flush_interval_seconds: i32,
    pub generate_plots: bool,
    pub jobs: Option<JobMonitorConfig>,
    pub compute_node: Option<ComputeNodeMonitorConfig>,
}

impl Default for ResourceMonitorConfig {
    fn default() -> (r: Self)
        ensures
            r == (ResourceMonitorConfig {
                enabled: false,
                granularity: MonitorGranularity::Summary,
                sample_interval_seconds: 10,
                flush_interval_seconds: 300,
                generate_plots: false,
                jobs: None,
                compute_node: None,
            }),
    {
        ResourceMonitorConfig {
            enabled: false,
            granularity: MonitorGranularity::Summary,
            sample_interval_seconds: 10,
            flush_interval_seconds: 300,
            generate_plots: false,
            jobs: None,
            compute_node: None,
        }
    }
}

/// The job monitoring that applies: `jobs` when set, else the older fields.
pub open spec fn spec_jobs_config(c: ResourceMonitorConfig) -> JobMonitorConfig {
    match c.jobs {
        Some(j) => j,
        None => JobMonitorConfig { enabled: c.enabled, granularity: c.granularity },
    }
}

/// The compute-node monitoring, when it is configured and enabled.
pub open spec fn spec_compute_node_config(c: ResourceMonitorConfig) -> Option<
    ComputeNodeMonitorConfig,
> {
    match c.compute_node {
        Some(n) => if n.enabled {
            Some(n)
        } else {
            None
        },
        None => None,
    }
}

impl ResourceMonitorConfig {
    pub fn jobs_config(&self) -> (r: JobMonitorConfig)
        ensures
            r == spec_jobs_config(*self),
    {
        match self.jobs {
            Some(j) => j,
            None => JobMonitorConfig { enabled: self.enabled, granularity: self.granularity },
        }
    }

    pub fn compute_node_config(&self) -> (r: Option<ComputeNodeMonitorConfig>)
        ensures
            r == spec_compute_node_config(*self),
    {
        match self.compute_node {
            Some(n) => if n.enabled {
                Some(n)
            } else {
                None
            },
            None => None,
        }
    }

    /// Whether any monitoring scope is enabled.
    pub fn is_enabled(&self) -> (b: bool)
        ensures
            b == (spec_jobs_config(*self).enabled || spec_compute_node_config(*self) is Some),
    {
        self.jobs_config().enabled || self.compute_node_config().is_some()
    }

    /// Whether an enabled scope samples as a time series.
    pub fn has_timeseries_db(&self) -> (b: bool)
        ensures
            b == ((spec_jobs_config(*self).enabled && spec_jobs_config(*self).granularity
                == MonitorGranularity::TimeSeries) || (match spec_compute_node_config(*self) {
                Some(n) => n.granularity == MonitorGranularity::TimeSeries,
                None => false,
            })),
    {
        let jobs = self.jobs_config();
        let jobs_ts = jobs.enabled && jobs.granularity == MonitorGranularity::TimeSeries;
        let node_ts = match self.compute_node_config() {
            Some(n) => n.granularity == MonitorGranularity::TimeSeries,
            None => false,
        };
        jobs_ts || node_ts
    }
}

pub open spec fn opt_text_view(o: Option<String>) -> Option<Seq<char>> {
    match o {
        Some(s) => Some(s@),
        None => None,
    }
}

pub open spec fn overrides_view(o: Option<Vec<(String, StdioConfig)>>) -> Option<
    Seq<(Seq<char>, StdioConfig)>,
> {
    match o {
        Some(v) => Some(v@.map_values(|p: (String, StdioConfig)| (p.0@, p.1))),
        None => None,
    }
}

/// Two configurations with the same settings.
pub open spec fn same_config(a: ExecutionConfig, b: ExecutionConfig) -> bool {
    &&& a.mode == b.mode
    &&& a.sigkill_headroom_seconds == b.sigkill_headroom_seconds
    &&& a.timeout_exit_code == b.timeout_exit_code
    &&& a.staggered_start == b.staggered_start
    &&& a.limit_resources == b.limit_resources
    &&& opt_text_view(a.termination_signal) == opt_text_view(b.termination_signal)
    &&& a.sigterm_lead_seconds == b.sigterm_lead_seconds
    &&& a.oom_exit_code == b.oom_exit_code
    &&& opt_text_view(a.srun_termination_signal) == opt_text_view(b.srun_termination_signal)
    &&& opt_text_view(a.srun_mpi) == opt_text_view(b.srun_mpi)
    &&& a.enable_cpu_bind == b.enable_cpu_bind
    &&& a.stdio == b.stdio
    &&& overrides_view(a.job_stdio_overrides) == overrides_view(b.job_stdio_overrides)
}

/// Whether every setting is left at its default.
pub open spec fn is_default_config(c: ExecutionConfig) -> bool {
    &&& c.mode == ExecutionMode::Direct
    &&& c.sigkill_headroom_seconds is None
    &&& c.timeout_exit_code is None
    &&& c.staggered_start is None
    &&& c.limit_resources is None
    &&& c.termination_signal is None
    &&& c.sigterm_lead_seconds is None
    &&& c.oom_exit_code is None
    &&& c.srun_termination_signal is None
    &&& c.srun_mpi is None
    &&& c.enable_cpu_bind is None
    &&& c.stdio is None
    &&& c.job_stdio_overrides is None
}

fn copy_text(o: &Option<String>) -> (r: Option<String>)
    ensures
        opt_text_view(r) == opt_text_view(*o),
{
    match o {
        Some(s) => Some(copy_string(s)),
        None => None,
    }
}

impl ExecutionConfig {
    /// A configuration with the same settings.
    pub fn copy(&self) -> (r: ExecutionConfig)
        ensures
            same_config(*self, r),
    {
        let overrides = match &self.job_stdio_overrides {
            Some(v) => {
                let mut out: Vec<(String, StdioConfig)> = Vec::new();
                let mut i: usize = 0;
                while i < v.len()
                    invariant
                        i <= v.len(),
                        out.len() == i,
                        forall|k: int| 0 <= k < i ==> (#[trigger] out@[k]).0@ == v@[k].0@ && out@[k].1 == v@[k].1,
                    decreases v.len() - i,
                {
                    out.push((copy_string(&v[i].0), v[i].1));
                    i = i + 1;
                }
                proof {
                    assert(out@.map_values(|p: (String, StdioConfig)| (p.0@, p.1)) =~= v@.map_values(
                        |p: (String, StdioConfig)| (p.0@, p.1),
                    ));
                }
                Some(out)
            },
            None => None,
        };
        ExecutionConfig {
            mode: self.mode,
            sigkill_headroom_seconds: self.sigkill_headroom_seconds,
            timeout_exit_code: self.timeout_exit_code,
            staggered_start: self.staggered_start,
            limit_resources: self.limit_resources,
            termination_signal: copy_text(&self.termination_signal),
            sigterm_lead_seconds: self.sigterm_lead_seconds,
            oom_exit_code: self.oom_exit_code,
            srun_termination_signal: copy_text(&self.srun_termination_signal),
            srun_mpi: copy_text(&self.srun_mpi),
            enable_cpu_bind: self.enable_cpu_bind,
            stdio: self.stdio,
            job_stdio_overrides: overrides,
        }
    }

    /// Whether every setting is left at its default (the configuration
    /// equals `ExecutionConfig::default()`).
    pub fn is_default(&self) -> (b: bool)
        ensures
            b == is_default_config(*self),
    {
        self.mode == ExecutionMode::Direct && self.sigkill_headroom_seconds.is_none()
            && self.timeout_exit_code.is_none() && self.staggered_start.is_none()
            && self.limit_resources.is_none() && self.termination_signal.is_none()
            && self.sigterm_lead_seconds.is_none() && self.oom_exit_code.is_none()
            && self.srun_termination_signal.is_none() && self.srun_mpi.is_none()
            && self.enable_cpu_bind.is_none() && self.stdio.is_none()
            && self.job_stdio_overrides.is_none()
    }
}

} // verus!
