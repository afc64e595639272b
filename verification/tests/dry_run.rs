use torc_spec::dry_run::parse_failure_result;
use torc_spec::resources::ResourceParses;
use torc_spec::workflow::WorkflowSpec;
use torc_spec::workflow_spec::{FileSpec, JobSpec, ResourceRequirementsSpec, SlurmSchedulerSpec, WorkflowActionSpec};

fn no_parses() -> ResourceParses {
    ResourceParses { walltimes: vec![], memories: vec![], durations: vec![], gpus: vec![] }
}

fn job(name: &str, command: &str) -> JobSpec {
    JobSpec::new(name.to_string(), command.to_string())
}

fn spec(jobs: Vec<JobSpec>) -> WorkflowSpec {
    WorkflowSpec::new("wf".to_string(), "me".to_string(), Some("demo".to_string()), jobs)
}

#[test]
fn a_consistent_workflow_is_valid() {
    let mut a = job("prep", "echo ${files.output.raw}");
    a.output_files = None;
    let mut b = job("work", "cat ${files.input.raw}");
    b.depends_on = Some(vec!["prep".to_string()]);
    let mut w = spec(vec![a, b]);
    w.files = Some(vec![FileSpec::new("raw".to_string(), "/data/raw".to_string())]);

    let report = WorkflowSpec::validate_parsed_spec(w, &vec![], &no_parses());
    assert!(report.valid, "{:?}", report.errors);
    assert!(report.errors.is_empty());
    assert_eq!(report.summary.workflow_name, "wf");
    assert_eq!(report.summary.workflow_description.as_deref(), Some("demo"));
    assert_eq!(report.summary.job_count, 2);
    assert_eq!(report.summary.job_count_before_expansion, 2);
    assert_eq!(report.summary.file_count, 1);
    assert_eq!(report.summary.job_names, vec!["prep".to_string(), "work".to_string()]);
    assert!(!report.summary.has_schedule_nodes_action);
}

#[test]
fn expansion_is_counted_before_and_after() {
    let mut j = job("run_{i}", "echo {i}");
    j.parameters = Some(vec![("i".to_string(), "1:3".to_string())]);
    let report = WorkflowSpec::validate_parsed_spec(spec(vec![j]), &vec![], &no_parses());
    assert!(report.valid, "{:?}", report.errors);
    assert_eq!(report.summary.job_count_before_expansion, 1);
    assert_eq!(report.summary.job_count, 3);
    assert_eq!(
        report.summary.job_names,
        vec!["run_1".to_string(), "run_2".to_string(), "run_3".to_string()]
    );
}

#[test]
fn broken_references_are_all_reported() {
    let mut a = job("a", "true");
    a.depends_on = Some(vec!["ghost".to_string()]);
    a.input_files = Some(vec!["nofile".to_string()]);
    a.resource_requirements = Some("big".to_string());
    a.scheduler = Some("cluster".to_string());
    let mut b = job("b", "true");
    b.depends_on_regexes = Some(vec!["^zzz$".to_string()]);
    let report = WorkflowSpec::validate_parsed_spec(spec(vec![a, b]), &vec![], &no_parses());
    assert!(!report.valid);
    assert_eq!(
        report.errors,
        vec![
            "Job 'a' depends_on non-existent job 'ghost'".to_string(),
            "Job 'a' references non-existent resource_requirements 'big'".to_string(),
            "Job 'a' references non-existent scheduler 'cluster'".to_string(),
            "Job 'a' input_files references non-existent file 'nofile'".to_string(),
            "Job 'b' depends_on_regexes '^zzz$' did not match any jobs".to_string(),
        ]
    );
}

#[test]
fn invalid_patterns_carry_the_regex_error() {
    let mut a = job("a", "true");
    a.input_file_regexes = Some(vec!["(".to_string()]);
    let report = WorkflowSpec::validate_parsed_spec(spec(vec![a]), &vec![], &no_parses());
    assert_eq!(report.errors.len(), 1);
    assert!(
        report.errors[0].starts_with("Job 'a' has invalid input_file_regexes '(': regex parse error"),
        "{}",
        report.errors[0]
    );
}

#[test]
fn dependency_cycles_are_found() {
    let mut a = job("a", "true");
    a.depends_on = Some(vec!["b".to_string()]);
    let mut b = job("b", "true");
    b.depends_on_regexes = Some(vec!["^a$".to_string()]);
    let c = job("c", "true");
    let report = WorkflowSpec::validate_parsed_spec(spec(vec![a, b, c]), &vec![], &no_parses());
    assert_eq!(
        report.errors,
        vec!["Circular dependency detected involving jobs: 'a', 'b'".to_string()]
    );
}

#[test]
fn duplicate_names_are_reported_once_per_repeat() {
    let report = WorkflowSpec::validate_parsed_spec(
        spec(vec![job("x", "true"), job("x", "true"), job("x", "true")]),
        &vec![],
        &no_parses(),
    );
    assert_eq!(report.errors.len(), 3);
    assert!(report.errors[0].starts_with("Validation error: Duplicate job name 'x' after parameter expansion."));
    assert_eq!(report.errors[1], "Duplicate job name: 'x'");
    assert_eq!(report.errors[2], "Duplicate job name: 'x'");
}

#[test]
fn action_references_are_checked() {
    let action = WorkflowActionSpec {
        trigger_type: "on_jobs_ready".to_string(),
        action_type: "run_commands".to_string(),
        jobs: Some(vec!["missing".to_string()]),
        job_name_regexes: None,
        commands: Some(vec!["echo".to_string()]),
        scheduler: None,
        scheduler_type: None,
        num_allocations: None,
        start_one_worker_per_node: None,
        max_parallel_jobs: None,
        persistent: None,
    };
    let mut w = spec(vec![job("a", "true")]);
    w.actions = Some(vec![action]);
    let report = WorkflowSpec::validate_parsed_spec(w, &vec![], &no_parses());
    assert_eq!(
        report.errors,
        vec!["Action #1 (run_commands) references non-existent job 'missing'".to_string()]
    );
    assert_eq!(report.summary.action_count, 1);
}

#[test]
fn expansion_failures_come_first() {
    let mut j = job("run_{i}", "echo {i}");
    j.parameters = Some(vec![("i".to_string(), "1:5:0".to_string())]);
    let report = WorkflowSpec::validate_parsed_spec(spec(vec![j]), &vec![], &no_parses());
    assert!(!report.valid);
    assert!(
        report.errors[0].starts_with("Parameter expansion failed: "),
        "{:?}",
        report.errors
    );
}

#[test]
fn unparsable_specifications_are_reported() {
    let report = parse_failure_result("expected value at line 1 column 1");
    assert!(!report.valid);
    assert_eq!(
        report.errors,
        vec!["Failed to parse specification file: expected value at line 1 column 1".to_string()]
    );
    assert_eq!(report.summary.job_count, 0);
    assert!(report.summary.job_names.is_empty());
}

#[test]
fn resource_warnings_are_reported_as_errors() {
    let mut j = job("big_job", "run");
    j.resource_requirements = Some("big".to_string());
    j.scheduler = Some("short".to_string());
    let mut w = spec(vec![j]);
    w.resource_requirements = Some(vec![ResourceRequirementsSpec {
        name: "big".to_string(),
        num_cpus: 1,
        num_gpus: 0,
        num_nodes: 1,
        memory: "1g".to_string(),
        runtime: "PT2H".to_string(),
    }]);
    w.slurm_schedulers = Some(vec![SlurmSchedulerSpec {
        name: Some("short".to_string()),
        account: "acct".to_string(),
        gres: None,
        mem: None,
        nodes: 1,
        ntasks_per_node: None,
        partition: None,
        qos: None,
        tmp: None,
        walltime: "01:00:00".to_string(),
        extra: None,
        serialize_allocations: None,
    }]);
    let parses = ResourceParses {
        walltimes: vec![("01:00:00".to_string(), Ok(3600))],
        memories: vec![],
        durations: vec![("PT2H".to_string(), Ok(7200))],
        gpus: vec![],
    };
    let report = WorkflowSpec::validate_parsed_spec(w, &vec![], &parses);
    assert!(!report.valid);
    assert_eq!(
        report.errors,
        vec!["Job 'big_job': runtime 'PT2H' (7200 s) exceeds scheduler 'short' walltime '01:00:00' (3600 s)".to_string()]
    );
}
