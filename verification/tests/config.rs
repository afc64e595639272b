use torc_spec::execution::{
    ComputeNodeMonitorConfig, ExecutionConfig, ExecutionMode, JobMonitorConfig,
    MonitorGranularity, ResourceMonitorConfig, StdioConfig, StdioMode,
};

#[test]
fn test_execution_config_defaults() {
    let config = ExecutionConfig::default();
    assert_eq!(config.mode, ExecutionMode::Direct);
    assert!(config.limit_resources.is_none());
    assert!(config.termination_signal.is_none());
    assert!(config.sigterm_lead_seconds.is_none());
    assert!(config.sigkill_headroom_seconds.is_none());
    assert!(config.timeout_exit_code.is_none());
    assert!(config.oom_exit_code.is_none());
}

#[test]
fn test_execution_config_default_getters() {
    let config = ExecutionConfig::default();
    assert!(config.limit_resources());
    assert_eq!(config.termination_signal(), "SIGTERM");
    assert_eq!(config.sigterm_lead_seconds(), 30);
    assert_eq!(config.sigkill_headroom_seconds(), 60);
    assert_eq!(config.timeout_exit_code(), 152);
    assert_eq!(config.oom_exit_code(), 137);
}

#[test]
fn test_execution_config_custom_values() {
    let config = ExecutionConfig {
        mode: ExecutionMode::Direct,
        limit_resources: Some(false),
        termination_signal: Some("SIGUSR1".to_string()),
        sigterm_lead_seconds: Some(60),
        sigkill_headroom_seconds: Some(120),
        timeout_exit_code: Some(200),
        oom_exit_code: Some(201),
        srun_termination_signal: None,
        srun_mpi: None,
        enable_cpu_bind: None,
        staggered_start: None,
        stdio: None,
        job_stdio_overrides: None,
    };
    assert!(!config.limit_resources());
    assert_eq!(config.termination_signal(), "SIGUSR1");
    assert_eq!(config.sigterm_lead_seconds(), 60);
    assert_eq!(config.sigkill_headroom_seconds(), 120);
    assert_eq!(config.timeout_exit_code(), 200);
    assert_eq!(config.oom_exit_code(), 201);
}

#[test]
fn test_execution_config_use_srun_by_mode() {
    let config = ExecutionConfig { mode: ExecutionMode::Direct, ..Default::default() };
    assert!(!config.use_srun(false));

    let config = ExecutionConfig { mode: ExecutionMode::Slurm, ..Default::default() };
    assert!(config.use_srun(false));
}

#[test]
fn auto_mode_follows_the_slurm_allocation() {
    let config = ExecutionConfig { mode: ExecutionMode::Auto, ..Default::default() };
    assert_eq!(config.effective_mode(true), ExecutionMode::Slurm);
    assert_eq!(config.effective_mode(false), ExecutionMode::Direct);
    assert!(config.use_srun(true));
    assert!(!config.use_srun(false));
    let direct = ExecutionConfig { mode: ExecutionMode::Direct, ..Default::default() };
    assert_eq!(direct.effective_mode(true), ExecutionMode::Direct);
}

#[test]
fn other_getters_have_their_defaults() {
    let config = ExecutionConfig::default();
    assert!(!config.enable_cpu_bind());
    assert!(config.staggered_start());
    let config = ExecutionConfig {
        enable_cpu_bind: Some(true),
        staggered_start: Some(false),
        ..Default::default()
    };
    assert!(config.enable_cpu_bind());
    assert!(!config.staggered_start());
}

#[test]
fn stdio_overrides_win_over_the_workflow_default() {
    let combined = StdioConfig { mode: StdioMode::Combined, delete_on_success: Some(true) };
    let quiet = StdioConfig { mode: StdioMode::NoCapture, delete_on_success: None };
    let config = ExecutionConfig {
        stdio: Some(quiet),
        job_stdio_overrides: Some(vec![("train".to_string(), combined)]),
        ..Default::default()
    };
    assert_eq!(config.stdio_for_job("train"), combined);
    assert_eq!(config.stdio_for_job("other"), quiet);
    assert!(config.delete_stdio_on_success("train"));
    assert!(!config.delete_stdio_on_success("other"));

    let bare = ExecutionConfig::default();
    assert_eq!(
        bare.stdio_for_job("x"),
        StdioConfig { mode: StdioMode::Separate, delete_on_success: None }
    );
    assert!(!bare.delete_stdio_on_success("x"));
}

#[test]
fn resource_monitor_defaults_and_scopes() {
    let config = ResourceMonitorConfig::default();
    assert_eq!(config.sample_interval_seconds, 10);
    assert_eq!(config.flush_interval_seconds, 300);
    assert!(!config.is_enabled());
    assert!(!config.has_timeseries_db());
    assert_eq!(
        config.jobs_config(),
        JobMonitorConfig { enabled: false, granularity: MonitorGranularity::Summary }
    );

    let legacy = ResourceMonitorConfig {
        enabled: true,
        granularity: MonitorGranularity::TimeSeries,
        ..Default::default()
    };
    assert!(legacy.is_enabled());
    assert!(legacy.has_timeseries_db());

    let node = ComputeNodeMonitorConfig {
        enabled: true,
        granularity: MonitorGranularity::TimeSeries,
        ..Default::default()
    };
    let with_node = ResourceMonitorConfig {
        jobs: Some(JobMonitorConfig { enabled: false, granularity: MonitorGranularity::Summary }),
        compute_node: Some(node),
        ..legacy
    };
    assert_eq!(with_node.compute_node_config(), Some(node));
    assert!(with_node.is_enabled());
    assert!(with_node.has_timeseries_db());

    let disabled_node = ResourceMonitorConfig {
        compute_node: Some(ComputeNodeMonitorConfig::default()),
        ..Default::default()
    };
    assert_eq!(disabled_node.compute_node_config(), None);
    assert!(ComputeNodeMonitorConfig::default().cpu);
    assert!(ComputeNodeMonitorConfig::default().memory);
}
