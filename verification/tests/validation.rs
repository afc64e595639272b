use torc_spec::execution::DynamicJobsConfig;
use torc_spec::workflow::WorkflowSpec;
use torc_spec::workflow_spec::{
    build_parameter_combinations, validate_env_var_name, validate_parameter_source,
    validate_srun_mpi_value, JobSpec, SlurmSchedulerSpec, WorkflowActionSpec,
};

fn spec_with_action(action: WorkflowActionSpec) -> WorkflowSpec {
    let mut spec = WorkflowSpec::new(
        "wf".to_string(),
        "user".to_string(),
        None,
        vec![JobSpec::new("job1".to_string(), "exit 0".to_string())],
    );
    spec.actions = Some(vec![action]);
    spec
}

fn run_commands_action(trigger_type: &str, jobs: Option<Vec<String>>) -> WorkflowActionSpec {
    WorkflowActionSpec {
        trigger_type: trigger_type.to_string(),
        action_type: "run_commands".to_string(),
        jobs,
        job_name_regexes: None,
        commands: Some(vec!["echo hi".to_string()]),
        scheduler: None,
        scheduler_type: None,
        num_allocations: None,
        start_one_worker_per_node: None,
        max_parallel_jobs: None,
        persistent: None,
    }
}

#[test]
fn test_validate_actions_rejects_unknown_trigger_type() {
    let spec = spec_with_action(run_commands_action("on_ready_jobs", None));
    let msg = spec.validate_actions().expect_err("unknown trigger should fail");
    assert!(msg.contains("unknown trigger_type"), "got: {msg}");
    assert!(msg.contains("on_ready_jobs"), "got: {msg}");
}

#[test]
fn test_validate_actions_accepts_known_trigger_types() {
    for trigger in [
        "on_workflow_start",
        "on_workflow_complete",
        "on_worker_start",
        "on_worker_complete",
        "on_jobs_ready",
        "on_jobs_complete",
    ] {
        let spec = spec_with_action(run_commands_action(trigger, Some(vec!["job1".to_string()])));
        spec.validate_actions()
            .unwrap_or_else(|e| panic!("trigger '{trigger}' should be valid: {e}"));
    }
}

#[test]
fn test_validate_actions_rejects_job_gated_trigger_without_jobs() {
    for trigger in ["on_jobs_ready", "on_jobs_complete"] {
        let spec = spec_with_action(run_commands_action(trigger, None));
        let msg = spec.validate_actions().expect_err("job-gated trigger without jobs should fail");
        assert!(msg.contains("must specify at least one job"), "got: {msg}");
    }
}

#[test]
fn test_validate_actions_accepts_job_gated_trigger_with_regexes() {
    let mut action = run_commands_action("on_jobs_ready", None);
    action.job_name_regexes = Some(vec!["^job.*$".to_string()]);
    let spec = spec_with_action(action);
    spec.validate_actions().expect("regex-gated on_jobs_ready should be valid");
}

#[test]
fn test_validate_actions_rejects_job_gated_trigger_with_empty_jobs() {
    let spec = spec_with_action(run_commands_action("on_jobs_complete", Some(vec![])));
    let err = spec.validate_actions().expect_err("empty jobs list should fail");
    assert!(err.contains("must specify at least one job"));
}

#[test]
fn schedule_nodes_actions_need_an_existing_scheduler() {
    let mut action = run_commands_action("on_workflow_start", None);
    action.action_type = "schedule_nodes".to_string();
    let spec = spec_with_action(action.clone());
    assert_eq!(
        spec.validate_actions(),
        Err("schedule_nodes action requires scheduler_type".to_string())
    );
    action.scheduler_type = Some("slurm".to_string());
    assert_eq!(
        spec_with_action(action.clone()).validate_actions(),
        Err("schedule_nodes action requires scheduler".to_string())
    );
    action.scheduler = Some("gpu".to_string());
    assert_eq!(
        spec_with_action(action.clone()).validate_actions(),
        Err("schedule_nodes action with scheduler_type=slurm requires slurm_schedulers to be defined"
            .to_string())
    );
    let mut spec = spec_with_action(action.clone());
    let mut sched = SlurmSchedulerSpec {
        name: Some("cpu".to_string()),
        account: "acct".to_string(),
        gres: None,
        mem: None,
        nodes: 1,
        ntasks_per_node: None,
        partition: None,
        qos: None,
        tmp: None,
        walltime: "01:00:00".to_string(),
        extra: None,
        serialize_allocations: None,
    };
    spec.slurm_schedulers = Some(vec![sched.clone()]);
    assert_eq!(
        spec.validate_actions(),
        Err("schedule_nodes action references slurm_scheduler 'gpu' which does not exist".to_string())
    );
    sched.name = Some("gpu".to_string());
    spec.slurm_schedulers = Some(vec![sched]);
    assert_eq!(spec.validate_actions(), Ok(()));
    assert!(spec.has_schedule_nodes_action());
}

#[test]
fn has_schedule_nodes_action_needs_a_submission_trigger() {
    let mut action = run_commands_action("on_workflow_complete", None);
    action.action_type = "schedule_nodes".to_string();
    assert!(!spec_with_action(action.clone()).has_schedule_nodes_action());
    action.trigger_type = "on_jobs_ready".to_string();
    assert!(spec_with_action(action).has_schedule_nodes_action());
    let plain = WorkflowSpec::new("wf".to_string(), "u".to_string(), None, vec![]);
    assert!(!plain.has_schedule_nodes_action());
}

#[test]
fn test_validate_env_maps_rejects_invalid_names() {
    let mut job = JobSpec::new("job".to_string(), "echo hi".to_string());
    job.env = Some(vec![("BAD-NAME".to_string(), "value".to_string())]);
    let spec = WorkflowSpec::new("wf".to_string(), "user".to_string(), None, vec![job]);

    let err = spec.validate_env_maps().expect_err("expected validation error");
    assert!(err.contains("BAD-NAME"));
    assert_eq!(
        err,
        "Job 'job': invalid environment variable name 'BAD-NAME'; expected [A-Za-z_][A-Za-z0-9_]*"
    );
}

#[test]
fn test_validate_dynamic_jobs_rejects_non_positive_max_iterations() {
    let job = JobSpec::new("job".to_string(), "echo hi".to_string());
    let mut spec = WorkflowSpec::new("wf".to_string(), "user".to_string(), None, vec![job]);

    spec.dynamic_jobs = Some(DynamicJobsConfig { max_iterations: Some(0) });
    let err = spec.validate_dynamic_jobs().expect_err("expected validation error for max_iterations=0");
    assert!(err.contains("max_iterations must be >= 1"), "unexpected error message: {}", err);

    spec.dynamic_jobs = Some(DynamicJobsConfig { max_iterations: Some(-1) });
    let err = spec.validate_dynamic_jobs().expect_err("expected validation error for max_iterations=-1");
    assert!(err.contains("max_iterations must be >= 1"));
    assert_eq!(
        err,
        "dynamic_jobs.max_iterations must be >= 1 (got -1); omit the field to use the server default"
    );

    spec.dynamic_jobs = Some(DynamicJobsConfig { max_iterations: Some(1) });
    spec.validate_dynamic_jobs().expect("max_iterations=1 ok");
    spec.dynamic_jobs = None;
    spec.validate_dynamic_jobs().expect("no dynamic_jobs ok");
}

#[test]
fn env_var_name_messages() {
    assert_eq!(validate_env_var_name("OK_1"), Ok(()));
    assert_eq!(
        validate_env_var_name("9x"),
        Err("invalid environment variable name '9x'; expected [A-Za-z_][A-Za-z0-9_]*".to_string())
    );
}

#[test]
fn srun_mpi_values() {
    assert_eq!(validate_srun_mpi_value("pmix"), Ok(()));
    assert_eq!(validate_srun_mpi_value("pmi2_v1.0+x-y"), Ok(()));
    let empty = validate_srun_mpi_value("   ").unwrap_err();
    assert!(empty.starts_with("srun_mpi must not be empty when provided."));
    let spaced = validate_srun_mpi_value(" pmix").unwrap_err();
    assert!(spaced.starts_with("srun_mpi must be a single safe token"));
    // A value the pattern rejects although it has no surrounding whitespace.
    let bad = validate_srun_mpi_value("pm ix").unwrap_err();
    assert!(bad.starts_with("srun_mpi must be a single safe token"));
    let bad = validate_srun_mpi_value("pm;ix").unwrap_err();
    assert!(bad.starts_with("srun_mpi must be a single safe token"));
}

#[test]
fn parameter_sources_are_exclusive() {
    let inline = Some(vec![("i".to_string(), "1:2".to_string())]);
    let file = Some("t.csv".to_string());
    assert_eq!(
        validate_parameter_source("Job 'a'", &inline, &None, &None, &file, None, &None),
        Err("Job 'a': a CSV/JSON parameter table (`parameters_file`/`use_parameters_file`) cannot be combined with `parameters`, `parameter_mode`, or `use_parameters`".to_string())
    );
    assert_eq!(
        validate_parameter_source("Job 'a'", &None, &None, &None, &file, Some(true), &file),
        Err("Job 'a': set either a local `parameters_file` or `use_parameters_file: true`, not both".to_string())
    );
    assert_eq!(
        validate_parameter_source("File 'f'", &None, &None, &None, &None, Some(true), &None),
        Err("File 'f': `use_parameters_file: true` requires a workflow-level `parameters_file`".to_string())
    );
    assert_eq!(validate_parameter_source("x", &inline, &None, &None, &None, Some(false), &None), Ok(()));

    assert_eq!(
        build_parameter_combinations(&inline, &None, &None, &file, None).unwrap_err(),
        "`parameters_file` cannot be combined with `parameters`, `parameter_mode`, or `use_parameters`"
    );
    assert_eq!(
        build_parameter_combinations(&None, &None, &None, &file, None).unwrap_err(),
        "parameter table 't.csv' was not loaded"
    );
    assert!(build_parameter_combinations(&None, &None, &None, &None, None).unwrap().is_none());
    assert_eq!(
        build_parameter_combinations(&inline, &None, &None, &None, None).unwrap().unwrap().len(),
        2
    );
}
