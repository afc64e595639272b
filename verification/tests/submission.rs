use torc_spec::execution::{ExecutionConfig, ExecutionMode, MonitorGranularity, StdioConfig, StdioMode};
use torc_spec::json::JsonValue;
use torc_spec::models::{FileModel, UserDataModel, WorkflowModel};
use torc_spec::submission::{
    action_model_for, after_stage, creation_start, record_created_ids, unassigned_error, CreationStage,
    CreationStep, RecordKind,
};
use torc_spec::workflow::WorkflowSpec;
use torc_spec::workflow_spec::{
    FailureHandlerSpec, FileSpec, JobSpec, ResourceRequirementsSpec, SlurmSchedulerSpec, UserDataSpec,
    WorkflowActionSpec,
};

fn no_parses() -> torc_spec::resources::ResourceParses {
    torc_spec::resources::ResourceParses { walltimes: vec![], memories: vec![], durations: vec![], gpus: vec![] }
}

fn spec(jobs: Vec<JobSpec>) -> WorkflowSpec {
    WorkflowSpec::new("wf".to_string(), "alice".to_string(), Some("d".to_string()), jobs)
}

fn action(action_type: &str) -> WorkflowActionSpec {
    WorkflowActionSpec {
        trigger_type: "on_workflow_start".to_string(),
        action_type: action_type.to_string(),
        jobs: None,
        job_name_regexes: None,
        commands: None,
        scheduler: None,
        scheduler_type: None,
        num_allocations: None,
        start_one_worker_per_node: None,
        max_parallel_jobs: None,
        persistent: None,
    }
}

fn user_data(name: Option<&str>) -> UserDataSpec {
    UserDataSpec {
        is_ephemeral: Some(true),
        name: name.map(|n| n.to_string()),
        data: Some(JsonValue::Number("1".to_string())),
        parameters: None,
        parameter_mode: None,
        use_parameters: None,
        parameters_file: None,
        use_parameters_file: None,
    }
}

fn scheduler(name: Option<&str>) -> SlurmSchedulerSpec {
    SlurmSchedulerSpec {
        name: name.map(|n| n.to_string()),
        account: "acct".to_string(),
        gres: None,
        mem: None,
        nodes: 2,
        ntasks_per_node: None,
        partition: None,
        qos: None,
        tmp: None,
        walltime: "01:00:00".to_string(),
        extra: None,
        serialize_allocations: None,
    }
}

fn object_entry<'a>(v: &'a JsonValue, key: &str) -> &'a JsonValue {
    v.get(key).unwrap_or_else(|| panic!("missing {}", key))
}

#[test]
fn workflow_model_new_has_server_defaults() {
    let m = WorkflowModel::new("w".to_string(), "u".to_string());
    assert_eq!(m.compute_node_wait_for_new_jobs_seconds, Some(0));
    assert_eq!(m.compute_node_ignore_workflow_completion, Some(false));
    assert_eq!(m.compute_node_wait_for_healthy_database_minutes, Some(20));
    assert_eq!(m.compute_node_min_time_for_new_jobs_seconds, Some(300));
    assert_eq!(m.use_pending_failed, Some(false));
    assert!(m.id.is_none() && m.execution_config.is_none());
    let c = ExecutionConfig::from_workflow_model(&m);
    assert!(c.is_default());
}

#[test]
fn to_workflow_model_fills_defaults() {
    let mut w = spec(vec![JobSpec::new("a".to_string(), "echo".to_string())]);
    w.user = None;
    w.env = Some(vec![]);
    w.project = Some("p".to_string());
    w.execution_config = Some(ExecutionConfig::default());
    let m = w.to_workflow_model(Some("/work".to_string())).unwrap();
    assert_eq!(m.name, "wf");
    assert_eq!(m.user, "unknown");
    assert_eq!(m.description.as_deref(), Some("d"));
    assert!(m.env.is_none());
    assert_eq!(m.compute_node_wait_for_new_jobs_seconds, Some(90));
    assert_eq!(m.compute_node_wait_for_healthy_database_minutes, Some(20));
    assert_eq!(m.project.as_deref(), Some("p"));
    assert!(m.execution_config.is_none(), "a default configuration is not stored");
    assert_eq!(m.submission_directory.as_deref(), Some("/work"));
}

#[test]
fn to_workflow_model_keeps_settings() {
    let mut w = spec(vec![]);
    w.env = Some(vec![("K".to_string(), "V".to_string())]);
    w.compute_node_wait_for_new_jobs_seconds = Some(5);
    w.use_pending_failed = Some(true);
    let mut c = ExecutionConfig::default();
    c.staggered_start = Some(true);
    w.execution_config = Some(c);
    let m = w.to_workflow_model(None).unwrap();
    assert_eq!(m.user, "alice");
    assert_eq!(m.env, Some(vec![("K".to_string(), "V".to_string())]));
    assert_eq!(m.compute_node_wait_for_new_jobs_seconds, Some(5));
    assert_eq!(m.use_pending_failed, Some(true));
    assert_eq!(m.execution_config.unwrap().staggered_start, Some(true));
}

#[test]
fn to_workflow_model_refuses_excluded_slurm_defaults() {
    let mut w = spec(vec![]);
    w.slurm_defaults = Some(vec![("partition".to_string(), JsonValue::String("x".to_string()))]);
    assert_eq!(
        w.to_workflow_model(None).unwrap_err(),
        "slurm_defaults contains excluded parameters managed by torc: partition. These cannot be set as defaults."
    );
}

#[test]
fn to_workflow_model_joins_mode_errors() {
    let mut w = spec(vec![]);
    let mut c = ExecutionConfig::default();
    c.mode = ExecutionMode::Slurm;
    c.limit_resources = Some(false);
    c.oom_exit_code = Some(137);
    w.execution_config = Some(c);
    assert_eq!(
        w.to_workflow_model(None).unwrap_err(),
        "limit_resources: false is only supported in direct mode. Slurm mode requires resource limits for correct srun behavior. oom_exit_code is only supported in direct mode. In slurm mode, Slurm manages OOM detection."
    );

    let mut w = spec(vec![]);
    let mut c = ExecutionConfig::default();
    c.enable_cpu_bind = Some(true);
    c.srun_mpi = Some("pmix".to_string());
    w.execution_config = Some(c);
    assert_eq!(
        w.to_workflow_model(None).unwrap_err(),
        "srun_mpi requires schedule_nodes.start_one_worker_per_node = true. It only applies to the outer srun that launches one job runner per node. enable_cpu_bind is only supported in slurm mode. It has no effect in direct mode."
    );
}

#[test]
fn to_workflow_model_auto_mode_follows_schedulers() {
    let mut w = spec(vec![]);
    let mut c = ExecutionConfig::default();
    c.mode = ExecutionMode::Auto;
    c.termination_signal = Some("SIGTERM".to_string());
    w.execution_config = Some(c);
    assert!(w.to_workflow_model(None).is_ok());
    w.slurm_schedulers = Some(vec![scheduler(Some("s"))]);
    assert_eq!(
        w.to_workflow_model(None).unwrap_err(),
        "termination_signal is only supported in direct mode. In slurm mode, use srun_termination_signal instead."
    );
}

#[test]
fn to_workflow_model_worker_per_node_needs_direct_mode() {
    let mut w = spec(vec![]);
    let mut a = action("schedule_nodes");
    a.start_one_worker_per_node = Some(true);
    w.actions = Some(vec![a]);
    let mut c = ExecutionConfig::default();
    c.mode = ExecutionMode::Auto;
    w.execution_config = Some(c);
    assert_eq!(
        w.to_workflow_model(None).unwrap_err(),
        "start_one_worker_per_node requires execution_config.mode to be 'direct'"
    );
    w.execution_config = None;
    assert!(w.to_workflow_model(None).is_ok());
}

#[test]
fn plan_file_models_marks_inputs() {
    let mut j = JobSpec::new("j".to_string(), "run".to_string());
    j.input_files = Some(vec!["in".to_string()]);
    j.input_file_regexes = Some(vec!["^data_".to_string(), "(".to_string()]);
    let mut w = spec(vec![j]);
    let mut out = FileSpec::new("out".to_string(), "/o".to_string());
    out.st_mtime_bits = Some(7);
    w.files = Some(vec![
        FileSpec::new("in".to_string(), "/i".to_string()),
        out,
        FileSpec::new("data_1".to_string(), "/d".to_string()),
    ]);
    let plans = w.plan_file_models(3).unwrap();
    assert_eq!(plans.len(), 3);
    assert!(plans[0].is_input);
    assert!(!plans[1].is_input);
    assert!(plans[2].is_input);
    assert_eq!(plans[1].model.st_mtime_bits, Some(7));
    assert_eq!(plans[2].model.workflow_id, 3);
    assert_eq!(plans[2].model.path, "/d");
    let _: &FileModel = &plans[0].model;
}

#[test]
fn plan_file_models_refuses_duplicates() {
    let mut w = spec(vec![]);
    w.files = Some(vec![
        FileSpec::new("a".to_string(), "/1".to_string()),
        FileSpec::new("b".to_string(), "/2".to_string()),
        FileSpec::new("a".to_string(), "/3".to_string()),
    ]);
    assert_eq!(w.plan_file_models(1).unwrap_err(), "Duplicate file name: a");
    w.files = None;
    assert!(w.plan_file_models(1).unwrap().is_empty());
}

#[test]
fn user_data_models_skip_unnamed_and_refuse_duplicates() {
    let mut w = spec(vec![]);
    w.user_data = Some(vec![user_data(Some("x")), user_data(None), user_data(Some("y"))]);
    let models: Vec<UserDataModel> = w.user_data_models(4).unwrap();
    assert_eq!(models.len(), 2);
    assert_eq!(models[1].name, "y");
    assert_eq!(models[0].is_ephemeral, Some(true));
    assert!(matches!(models[0].data, Some(JsonValue::Number(ref n)) if n == "1"));
    w.user_data = Some(vec![user_data(Some("x")), user_data(Some("x"))]);
    assert_eq!(w.user_data_models(4).unwrap_err(), "Duplicate user data name: x");
}

#[test]
fn record_created_ids_stores_by_name() {
    let mut ids = vec![("a".to_string(), 0), ("b".to_string(), 0)];
    let created = vec![(Some(12), "b".to_string()), (Some(11), "a".to_string())];
    assert!(record_created_ids(&mut ids, &created, 2, RecordKind::Files).is_ok());
    assert_eq!(ids, vec![("a".to_string(), 11), ("b".to_string(), 12)]);
    assert!(unassigned_error(&ids, RecordKind::Files).is_none());
}

#[test]
fn record_created_ids_refusals() {
    let mut ids = vec![("a".to_string(), 0), ("b".to_string(), 0)];
    assert_eq!(
        record_created_ids(&mut ids, &vec![(Some(1), "a".to_string())], 2, RecordKind::Files).unwrap_err(),
        "create_files returned 1 files, expected 2"
    );
    assert_eq!(
        record_created_ids(&mut ids, &vec![(Some(1), "a".to_string())], 2, RecordKind::UserData).unwrap_err(),
        "create_user_data_list returned 1 records, expected 2"
    );
    assert_eq!(
        record_created_ids(&mut ids, &vec![(Some(1), "a".to_string()), (None, "b".to_string())], 2, RecordKind::Files)
            .unwrap_err(),
        "Created file missing ID"
    );
    assert_eq!(ids[0].1, 1, "ids taken in before the refusal stay");
    assert_eq!(
        record_created_ids(&mut ids, &vec![(Some(5), "z".to_string())], 1, RecordKind::UserData).unwrap_err(),
        "create_user_data_list returned unknown user_data name 'z'"
    );
    assert_eq!(
        unassigned_error(&ids, RecordKind::Files).unwrap(),
        "create_files did not return an id for file 'b'; the server response omitted this name (possible API contract violation)"
    );
    assert_eq!(
        unassigned_error(&ids, RecordKind::UserData).unwrap(),
        "create_user_data_list did not return an id for user_data 'b'; the server response omitted this name (possible API contract violation)"
    );
}

#[test]
fn action_model_for_run_commands() {
    let jobs = vec![("prep_a".to_string(), 1), ("prep_b".to_string(), 2), ("train".to_string(), 3)];
    let mut a = action("run_commands");
    a.jobs = Some(vec!["train".to_string()]);
    a.job_name_regexes = Some(vec!["^prep_".to_string(), "train".to_string()]);
    a.commands = Some(vec!["echo hi".to_string()]);
    a.persistent = Some(true);
    let m = action_model_for(9, &a, &vec![], &jobs).unwrap();
    assert_eq!(m.job_ids, Some(vec![3, 1, 2]));
    assert_eq!(m.workflow_id, 9);
    assert!(m.persistent);
    assert_eq!(m.required_triggers, 1);
    let commands = object_entry(&m.action_config, "commands");
    match commands {
        JsonValue::Array(items) => assert_eq!(items.len(), 1),
        other => panic!("{:?}", other),
    }
}

#[test]
fn action_model_for_schedule_nodes() {
    let schedulers = vec![("gpu".to_string(), 42)];
    let mut a = action("schedule_nodes");
    a.scheduler_type = Some("slurm".to_string());
    a.scheduler = Some("gpu".to_string());
    a.max_parallel_jobs = Some(4);
    let m = action_model_for(1, &a, &schedulers, &vec![]).unwrap();
    assert!(m.job_ids.is_none());
    let c = &m.action_config;
    assert!(matches!(object_entry(c, "scheduler_id"), JsonValue::Number(n) if n == "42"));
    assert!(matches!(object_entry(c, "num_allocations"), JsonValue::Number(n) if n == "1"));
    assert!(matches!(object_entry(c, "start_one_worker_per_node"), JsonValue::Bool(false)));
    assert!(matches!(object_entry(c, "max_parallel_jobs"), JsonValue::Number(n) if n == "4"));
    a.scheduler_type = Some("local".to_string());
    a.scheduler = Some("anything".to_string());
    let m = action_model_for(1, &a, &schedulers, &vec![]).unwrap();
    assert!(matches!(object_entry(&m.action_config, "scheduler_id"), JsonValue::Number(n) if n == "0"));
}

#[test]
fn action_model_for_errors() {
    let jobs = vec![("a".to_string(), 1)];
    let mut a = action("run_commands");
    assert_eq!(
        action_model_for(1, &a, &vec![], &jobs).unwrap_err(),
        "run_commands action requires 'commands' field"
    );
    a.jobs = Some(vec!["missing".to_string()]);
    assert_eq!(
        action_model_for(1, &a, &vec![], &jobs).unwrap_err(),
        "Action references job 'missing' which does not exist"
    );
    a.jobs = None;
    a.job_name_regexes = Some(vec!["^zzz".to_string()]);
    assert_eq!(action_model_for(1, &a, &vec![], &jobs).unwrap_err(), "Action did not match any jobs");
    a.job_name_regexes = Some(vec!["(".to_string()]);
    assert!(action_model_for(1, &a, &vec![], &jobs).unwrap_err().starts_with("Invalid regex '(': "));
    let mut b = action("schedule_nodes");
    assert_eq!(
        action_model_for(1, &b, &vec![], &jobs).unwrap_err(),
        "schedule_nodes action requires 'scheduler_type' field"
    );
    b.scheduler_type = Some("slurm".to_string());
    assert_eq!(
        action_model_for(1, &b, &vec![], &jobs).unwrap_err(),
        "schedule_nodes action requires 'scheduler' field"
    );
    b.scheduler = Some("nope".to_string());
    assert_eq!(action_model_for(1, &b, &vec![], &jobs).unwrap_err(), "Slurm scheduler 'nope' not found");
    assert_eq!(
        action_model_for(1, &action("launch"), &vec![], &jobs).unwrap_err(),
        "Unknown action_type: launch"
    );
}

#[test]
fn resource_scheduler_and_handler_models() {
    let mut w = spec(vec![]);
    let rr = |n: &str| ResourceRequirementsSpec {
        name: n.to_string(),
        num_cpus: 2,
        num_gpus: 0,
        num_nodes: 1,
        memory: "1g".to_string(),
        runtime: "PT1H".to_string(),
    };
    w.resource_requirements = Some(vec![rr("small"), rr("big")]);
    let models = w.resource_requirements_models(5).unwrap();
    assert_eq!(models.len(), 2);
    assert_eq!(models[1].name, "big");
    assert_eq!(models[0].memory, "1g");
    w.resource_requirements = Some(vec![rr("small"), rr("small")]);
    assert_eq!(
        w.resource_requirements_models(5).unwrap_err(),
        "Duplicate resource requirements name: small"
    );

    w.slurm_schedulers = Some(vec![scheduler(Some("s1")), scheduler(None), scheduler(Some("s2"))]);
    let s = w.slurm_scheduler_models(5).unwrap();
    assert_eq!(s.len(), 2);
    assert_eq!(s[1].name.as_deref(), Some("s2"));
    assert_eq!(s[0].nodes, 2);
    w.slurm_schedulers = Some(vec![scheduler(Some("s1")), scheduler(Some("s1"))]);
    assert_eq!(w.slurm_scheduler_models(5).unwrap_err(), "Duplicate slurm scheduler name: s1");

    w.failure_handlers = Some(vec![
        FailureHandlerSpec { name: "h".to_string(), rules: vec![] },
        FailureHandlerSpec { name: "h".to_string(), rules: vec![] },
    ]);
    let texts = vec!["[]".to_string(), "[]".to_string()];
    assert_eq!(w.failure_handler_models(5, &texts).unwrap_err(), "Duplicate failure handler name: h");
    w.failure_handlers = Some(vec![FailureHandlerSpec { name: "h".to_string(), rules: vec![] }]);
    let h = w.failure_handler_models(5, &vec!["[]".to_string()]).unwrap();
    assert_eq!(h[0].rules, "[]");
}

#[test]
fn prepare_for_creation_sets_owner_and_monitoring() {
    let mut j = JobSpec::new("j_{i}".to_string(), "echo {i}".to_string());
    j.parameters = Some(vec![("i".to_string(), "1:2".to_string())]);
    let mut w = spec(vec![j]);
    w.user = None;
    w.prepare_for_creation("bob".to_string(), true, &Vec::new()).unwrap();
    assert_eq!(w.user.as_deref(), Some("bob"));
    assert_eq!(w.jobs.len(), 2);
    assert_eq!(w.jobs[1].command, "echo 2");
    let monitor = w.resource_monitor.unwrap();
    assert!(monitor.enabled);
    assert_eq!(monitor.sample_interval_seconds, 10);
    assert_eq!(monitor.jobs_config().granularity, MonitorGranularity::Summary);

    let mut w = spec(vec![
        JobSpec::new("a".to_string(), "x".to_string()),
        JobSpec::new("a".to_string(), "y".to_string()),
    ]);
    assert!(w.prepare_for_creation("bob".to_string(), false, &Vec::new()).is_err());
    assert!(w.resource_monitor.is_none());
}

#[test]
fn collect_stdio_overrides_fills_execution_config() {
    let mut a = JobSpec::new("a".to_string(), "x".to_string());
    a.stdio = Some(StdioConfig { mode: StdioMode::Combined, delete_on_success: None });
    let b = JobSpec::new("b".to_string(), "y".to_string());
    let mut w = spec(vec![a, b]);
    w.collect_stdio_overrides();
    let ec = w.execution_config.as_ref().unwrap();
    let o = ec.job_stdio_overrides.as_ref().unwrap();
    assert_eq!(o.len(), 1);
    assert_eq!(o[0].0, "a");
    assert_eq!(ec.stdio_for_job("a").mode, StdioMode::Combined);
    assert_eq!(ec.stdio_for_job("b").mode, StdioMode::Separate);

    let mut w = spec(vec![JobSpec::new("c".to_string(), "z".to_string())]);
    w.collect_stdio_overrides();
    assert!(w.execution_config.is_none());
}

#[test]
fn creation_stages_run_in_order_and_roll_back() {
    let mut step = creation_start();
    let mut seen = Vec::new();
    while let CreationStep::Create(stage) = step {
        seen.push(stage);
        step = after_stage(stage, true);
    }
    assert_eq!(step, CreationStep::Finish);
    assert_eq!(
        seen,
        vec![
            CreationStage::Workflow,
            CreationStage::Files,
            CreationStage::UserData,
            CreationStage::ResourceRequirements,
            CreationStage::SlurmSchedulers,
            CreationStage::FailureHandlers,
            CreationStage::Jobs,
            CreationStage::Actions,
        ]
    );
    assert_eq!(after_stage(CreationStage::Workflow, false), CreationStep::Fail);
    assert_eq!(after_stage(CreationStage::Jobs, false), CreationStep::RollBack);
}

#[test]
fn validate_for_creation_expands_and_checks() {
    let mut j = JobSpec::new("j_{i}".to_string(), "echo {i}".to_string());
    j.parameters = Some(vec![("i".to_string(), "1:3".to_string())]);
    let mut w = spec(vec![j]);
    assert!(w.validate_for_creation(&Vec::new(), &no_parses()).is_ok());
    assert_eq!(w.jobs.len(), 3);

    let mut w = spec(vec![
        JobSpec::new("a".to_string(), "x".to_string()),
        JobSpec::new("a".to_string(), "y".to_string()),
    ]);
    assert!(w.validate_for_creation(&Vec::new(), &no_parses()).is_err());
}

#[test]
fn identifiers_are_checked_on_a_substituted_copy() {
    let mut j = JobSpec::new("j".to_string(), "cat ${files.input.ref}".to_string());
    j.input_files = None;
    let mut w = spec(vec![j]);
    w.enable_ro_crate = Some(true);
    let mut f = FileSpec::new("ref".to_string(), "/data/ref.csv".to_string());
    f.identifier = Some("urn:x".to_string());
    w.files = Some(vec![f]);
    assert!(w.validate_file_identifiers_on_clone().is_ok());
    assert!(w.validate_file_identifiers().is_err(), "without substitution the file is an orphan");
    assert_eq!(w.jobs[0].command, "cat ${files.input.ref}", "the specification itself is unchanged");
}

#[test]
fn prepare_validated_for_creation_substitutes() {
    let mut w = spec(vec![JobSpec::new("j".to_string(), "cat ${files.input.ref}".to_string())]);
    w.files = Some(vec![FileSpec::new("ref".to_string(), "/data/ref.csv".to_string())]);
    w.prepare_validated_for_creation("carol".to_string(), false).unwrap();
    assert_eq!(w.user.as_deref(), Some("carol"));
    assert_eq!(w.jobs[0].command, "cat /data/ref.csv");
    assert_eq!(w.jobs[0].input_files, Some(vec!["ref".to_string()]));

    let mut w = spec(vec![]);
    w.env = Some(vec![("1BAD".to_string(), "x".to_string())]);
    assert!(w.prepare_validated_for_creation("carol".to_string(), false).is_err());
}

#[test]
fn validate_for_creation_lists_every_resource_warning() {
    let mut j = JobSpec::new("big_job".to_string(), "run".to_string());
    j.resource_requirements = Some("big".to_string());
    j.scheduler = Some("small".to_string());
    let mut w = spec(vec![j]);
    w.resource_requirements = Some(vec![torc_spec::workflow_spec::ResourceRequirementsSpec {
        name: "big".to_string(),
        num_cpus: 1,
        num_gpus: 4,
        num_nodes: 1,
        memory: "16g".to_string(),
        runtime: "PT30M".to_string(),
    }]);
    w.slurm_schedulers = Some(vec![torc_spec::workflow_spec::SlurmSchedulerSpec {
        name: Some("small".to_string()),
        account: "acct".to_string(),
        gres: Some("gpu:2".to_string()),
        mem: Some("8g".to_string()),
        nodes: 1,
        ntasks_per_node: None,
        partition: None,
        qos: None,
        tmp: None,
        walltime: "01:00:00".to_string(),
        extra: None,
        serialize_allocations: None,
    }]);
    let parses = torc_spec::resources::ResourceParses {
        walltimes: vec![("01:00:00".to_string(), Ok(3600))],
        memories: vec![("16g".to_string(), Ok(16 << 30)), ("8g".to_string(), Ok(8 << 30))],
        durations: vec![("PT30M".to_string(), Ok(1800))],
        gpus: vec![("gpu:2".to_string(), Some(2))],
    };
    assert_eq!(
        w.validate_for_creation(&Vec::new(), &parses),
        Err("Resource validation failed:\n  - Job 'big_job': memory '16g' exceeds scheduler 'small' mem '8g'\n  - Job 'big_job': num_gpus 4 exceeds scheduler 'small' gres 'gpu:2'".to_string())
    );
}
