use torc_spec::workflow::WorkflowSpec;
use torc_spec::workflow_spec::{
    FileSpec, JobSpec, ResourceRequirementsSpec, SlurmSchedulerSpec, UserDataSpec,
    WorkflowActionSpec,
};

#[test]
fn test_validate_unique_names_rejects_duplicate_file_identifiers() {
    let mut a = FileSpec::new("a".to_string(), "/data/a.csv".to_string());
    a.identifier = Some("urn:dataset:shared".to_string());
    let mut b = FileSpec::new("b".to_string(), "/data/b.csv".to_string());
    b.identifier = Some("urn:dataset:shared".to_string());

    let mut spec = WorkflowSpec::new("wf".to_string(), "tester".to_string(), None, vec![]);
    spec.files = Some(vec![a, b]);

    let msg = spec
        .validate_unique_names_after_expansion()
        .expect_err("expected duplicate-identifier rejection");
    assert!(
        msg.contains("Duplicate file identifier 'urn:dataset:shared'"),
        "unexpected error message: {}",
        msg
    );
    assert!(msg.contains("'a'") && msg.contains("'b'"), "{}", msg);
}

#[test]
fn test_validate_file_identifiers_requires_enable_ro_crate() {
    let mut f = FileSpec::new("a".to_string(), "/data/a.csv".to_string());
    f.identifier = Some("urn:dataset:abc".to_string());
    let mut job = JobSpec::new("consume".to_string(), "process".to_string());
    job.input_files = Some(vec!["a".to_string()]);
    let mut spec = WorkflowSpec::new("wf".to_string(), "tester".to_string(), None, vec![job]);
    spec.files = Some(vec![f]);

    let msg = spec
        .validate_file_identifiers()
        .expect_err("expected enable_ro_crate requirement");
    assert!(msg.contains("enable_ro_crate"), "{}", msg);
    assert!(msg.contains("'a'"), "{}", msg);

    spec.enable_ro_crate = Some(true);
    spec.validate_file_identifiers()
        .expect("identifier+enable_ro_crate should be allowed");
}

#[test]
fn test_validate_file_identifiers_rejects_output_only_file() {
    let mut producer = JobSpec::new("producer".to_string(), "echo".to_string());
    producer.output_files = Some(vec!["out".to_string()]);

    let mut out = FileSpec::new("out".to_string(), "/data/out.csv".to_string());
    out.identifier = Some("urn:dataset:out".to_string());

    let mut spec = WorkflowSpec::new("wf".to_string(), "tester".to_string(), None, vec![producer]);
    spec.enable_ro_crate = Some(true);
    spec.files = Some(vec![out]);

    let msg = spec
        .validate_file_identifiers()
        .expect_err("expected output-only rejection");
    assert!(msg.contains("output"), "{}", msg);
    assert!(msg.contains("'out'"), "{}", msg);
}

#[test]
fn test_validate_file_identifiers_rejects_dual_use_file() {
    let mut producer = JobSpec::new("producer".to_string(), "make".to_string());
    producer.output_files = Some(vec!["shared".to_string()]);
    let mut consumer = JobSpec::new("consumer".to_string(), "transform".to_string());
    consumer.input_files = Some(vec!["shared".to_string()]);

    let mut shared = FileSpec::new("shared".to_string(), "/data/shared.csv".to_string());
    shared.identifier = Some("urn:dataset:shared".to_string());

    let mut spec = WorkflowSpec::new(
        "wf".to_string(),
        "tester".to_string(),
        None,
        vec![producer, consumer],
    );
    spec.enable_ro_crate = Some(true);
    spec.files = Some(vec![shared]);

    let msg = spec
        .validate_file_identifiers()
        .expect_err("dual-use identifier should be rejected");
    assert!(msg.contains("'shared'"), "{}", msg);
    assert!(msg.contains("output"), "{}", msg);
}

#[test]
fn test_validate_file_identifiers_accepts_input_via_regex() {
    let mut consumer = JobSpec::new("consumer".to_string(), "process".to_string());
    consumer.input_file_regexes = Some(vec!["^input_.*$".to_string()]);

    let mut f = FileSpec::new("input_a".to_string(), "/data/a.csv".to_string());
    f.identifier = Some("urn:dataset:a".to_string());

    let mut spec = WorkflowSpec::new("wf".to_string(), "tester".to_string(), None, vec![consumer]);
    spec.enable_ro_crate = Some(true);
    spec.files = Some(vec![f]);

    spec.validate_file_identifiers()
        .expect("regex-matched input should be accepted");
}

#[test]
fn test_validate_file_identifiers_rejects_identifier_equal_to_other_path() {
    let mut a = FileSpec::new("a".to_string(), "/data/a.csv".to_string());
    a.identifier = Some("/data/b.csv".to_string());
    let b = FileSpec::new("b".to_string(), "/data/b.csv".to_string());

    let mut job = JobSpec::new("consume".to_string(), "process".to_string());
    job.input_files = Some(vec!["a".to_string(), "b".to_string()]);

    let mut spec = WorkflowSpec::new("wf".to_string(), "tester".to_string(), None, vec![job]);
    spec.enable_ro_crate = Some(true);
    spec.files = Some(vec![a, b]);

    let msg = spec
        .validate_file_identifiers()
        .expect_err("identifier-equals-other-path should be rejected");
    assert!(msg.contains("'a'") && msg.contains("'b'"), "{}", msg);
    assert!(msg.contains("/data/b.csv"), "{}", msg);
}

#[test]
fn test_validate_file_identifiers_rejects_orphan_identifier() {
    let mut f = FileSpec::new("orphan".to_string(), "/data/orphan.csv".to_string());
    f.identifier = Some("urn:dataset:orphan".to_string());

    let mut spec = WorkflowSpec::new("wf".to_string(), "tester".to_string(), None, vec![]);
    spec.enable_ro_crate = Some(true);
    spec.files = Some(vec![f]);

    let msg = spec
        .validate_file_identifiers()
        .expect_err("orphan identifier should be rejected");
    assert!(msg.contains("'orphan'"), "{}", msg);
    assert!(msg.contains("input"), "{}", msg);
}

#[test]
fn test_validate_file_identifiers_rejects_blank_identifier() {
    for blank in ["", "   ", "\t\n"] {
        let mut f = FileSpec::new("a".to_string(), "/data/a.csv".to_string());
        f.identifier = Some(blank.to_string());
        let mut spec = WorkflowSpec::new("wf".to_string(), "tester".to_string(), None, vec![]);
        spec.enable_ro_crate = Some(true);
        spec.files = Some(vec![f]);

        let msg = spec
            .validate_file_identifiers()
            .expect_err(&format!("expected rejection of blank id {:?}", blank));
        assert!(msg.contains("empty"), "for {:?}: {}", blank, msg);
        assert!(msg.contains("'a'"), "for {:?}: {}", blank, msg);
    }
}

#[test]
fn test_validate_file_identifiers_rejects_reserved_prefixes() {
    for reserved in [
        "#torc-workflow",
        "#torc-run-id-1",
        "#software-torc-run-id-1",
        "#job-42-attempt-1",
        "ro-crate-metadata.json",
        "./",
    ] {
        let mut f = FileSpec::new("a".to_string(), "/data/a.csv".to_string());
        f.identifier = Some(reserved.to_string());
        let mut spec = WorkflowSpec::new("wf".to_string(), "tester".to_string(), None, vec![]);
        spec.enable_ro_crate = Some(true);
        spec.files = Some(vec![f]);

        let msg = spec
            .validate_file_identifiers()
            .expect_err(&format!("expected rejection of reserved id '{}'", reserved));
        assert!(msg.contains("reserved"), "for '{}': {}", reserved, msg);
        assert!(msg.contains(reserved), "for '{}': {}", reserved, msg);
    }
}

#[test]
fn unique_names_reports_the_first_duplicate_job() {
    let spec = WorkflowSpec::new(
        "wf".to_string(),
        "tester".to_string(),
        None,
        vec![
            JobSpec::new("a".to_string(), "x".to_string()),
            JobSpec::new("b".to_string(), "x".to_string()),
            JobSpec::new("b".to_string(), "y".to_string()),
        ],
    );
    let msg = spec.validate_unique_names_after_expansion().unwrap_err();
    assert!(msg.starts_with("Duplicate job name 'b' after parameter expansion."), "{}", msg);
}

fn user_data(name: Option<&str>) -> UserDataSpec {
    UserDataSpec {
        is_ephemeral: None,
        name: name.map(|n| n.to_string()),
        data: None,
        parameters: None,
        parameter_mode: None,
        use_parameters: None,
        parameters_file: None,
        use_parameters_file: None,
    }
}

#[test]
fn unique_names_checks_files_and_user_data() {
    let mut spec = WorkflowSpec::new("wf".to_string(), "tester".to_string(), None, vec![]);
    spec.files = Some(vec![
        FileSpec::new("f".to_string(), "/a".to_string()),
        FileSpec::new("f".to_string(), "/b".to_string()),
    ]);
    let msg = spec.validate_unique_names_after_expansion().unwrap_err();
    assert!(msg.starts_with("Duplicate file name 'f'"), "{}", msg);

    spec.files = None;
    spec.user_data = Some(vec![
        user_data(Some("d")),
        user_data(None),
        user_data(None),
        user_data(Some("d")),
    ]);
    let msg = spec.validate_unique_names_after_expansion().unwrap_err();
    assert!(msg.starts_with("Duplicate user_data name 'd'"), "{}", msg);

    spec.user_data = None;
    assert!(spec.validate_unique_names_after_expansion().is_ok());
}

#[test]
fn file_identifiers_accept_existing_input_files() {
    let mut f = FileSpec::new("raw".to_string(), "/data/raw.csv".to_string());
    f.identifier = Some("doi:10.1/xyz".to_string());
    f.st_mtime_bits = Some(1_700_000_000f64.to_bits());
    let mut spec = WorkflowSpec::new("wf".to_string(), "tester".to_string(), None, vec![]);
    spec.enable_ro_crate = Some(true);
    spec.files = Some(vec![f]);
    assert_eq!(spec.validate_file_identifiers(), Ok(()));
}

fn schedule_action(scheduler: &str) -> WorkflowActionSpec {
    WorkflowActionSpec {
        trigger_type: "on_workflow_start".to_string(),
        action_type: "schedule_nodes".to_string(),
        jobs: None,
        job_name_regexes: None,
        commands: None,
        scheduler: Some(scheduler.to_string()),
        scheduler_type: Some("slurm".to_string()),
        num_allocations: Some(1),
        start_one_worker_per_node: None,
        max_parallel_jobs: None,
        persistent: None,
    }
}

fn scheduler(name: &str, nodes: i64) -> SlurmSchedulerSpec {
    SlurmSchedulerSpec {
        name: Some(name.to_string()),
        account: "acct".to_string(),
        gres: None,
        mem: None,
        nodes,
        ntasks_per_node: None,
        partition: None,
        qos: None,
        tmp: None,
        walltime: "01:00:00".to_string(),
        extra: None,
        serialize_allocations: None,
    }
}

fn requirements(name: &str, nodes: i64) -> ResourceRequirementsSpec {
    ResourceRequirementsSpec {
        name: name.to_string(),
        num_cpus: 1,
        num_gpus: 0,
        num_nodes: nodes,
        memory: "1g".to_string(),
        runtime: "PT1H".to_string(),
    }
}

#[test]
fn node_requirements_reject_a_partial_multi_node_job() {
    let mut single = JobSpec::new("single".to_string(), "run".to_string());
    single.scheduler = Some("big".to_string());
    let mut two = JobSpec::new("two".to_string(), "run".to_string());
    two.scheduler = Some("big".to_string());
    two.resource_requirements = Some("pair".to_string());
    let mut four = JobSpec::new("four".to_string(), "run".to_string());
    four.scheduler = Some("big".to_string());
    four.resource_requirements = Some("all".to_string());

    let mut spec = WorkflowSpec::new(
        "wf".to_string(),
        "tester".to_string(),
        None,
        vec![single, two, four],
    );
    spec.slurm_schedulers = Some(vec![scheduler("big", 4)]);
    spec.resource_requirements = Some(vec![requirements("pair", 2), requirements("all", 4)]);
    spec.actions = Some(vec![schedule_action("big")]);

    let msg = spec.validate_scheduler_node_requirements().unwrap_err();
    assert_eq!(
        msg,
        "Scheduler node validation failed:\n  - Scheduler 'big' allocates 4 nodes but jobs (two) \
         request a different multi-node count in their resource requirements. Set num_nodes=4 \
         on job resource requirements to match the scheduler, or use num_nodes=1 for \
         single-node jobs."
    );

    spec.resource_requirements = Some(vec![requirements("pair", 4), requirements("all", 4)]);
    assert_eq!(spec.validate_scheduler_node_requirements(), Ok(()));
}

#[test]
fn node_requirements_ignore_single_node_schedulers() {
    let mut job = JobSpec::new("j".to_string(), "run".to_string());
    job.scheduler = Some("small".to_string());
    job.resource_requirements = Some("pair".to_string());
    let mut spec = WorkflowSpec::new("wf".to_string(), "tester".to_string(), None, vec![job]);
    spec.slurm_schedulers = Some(vec![scheduler("small", 1)]);
    spec.resource_requirements = Some(vec![requirements("pair", 2)]);
    spec.actions = Some(vec![schedule_action("small")]);
    assert_eq!(spec.validate_scheduler_node_requirements(), Ok(()));
}
