use torc_spec::creation::{
    topological_sort_jobs, job_dependency_graph, job_model_for, resolve_names_and_regexes, IdMaps,
};
use torc_spec::json::JsonValue;
use torc_spec::models::JobStatus;
use torc_spec::service::OpenApiAppState;
use torc_spec::slurm_defaults::SlurmDefaultsSpec;
use torc_spec::workflow_spec::JobSpec;

fn job(name: &str) -> JobSpec {
    JobSpec::new(name.to_string(), format!("run {}", name))
}

fn ids(pairs: &[(&str, i64)]) -> Vec<(String, i64)> {
    pairs.iter().map(|(n, i)| (n.to_string(), *i)).collect()
}

#[test]
fn dependencies_come_from_names_and_patterns() {
    let mut c = job("combine");
    c.depends_on = Some(vec!["prep".to_string()]);
    c.depends_on_regexes = Some(vec!["^work_".to_string()]);
    let jobs = vec![job("prep"), job("work_1"), job("work_2"), c];
    let graph = job_dependency_graph(&jobs).unwrap();
    assert!(graph[0].is_empty());
    assert_eq!(
        graph[3],
        vec!["prep".to_string(), "work_1".to_string(), "work_2".to_string()]
    );
}

#[test]
fn dependency_errors_name_the_job() {
    let mut a = job("a");
    a.depends_on = Some(vec!["nope".to_string()]);
    assert_eq!(
        job_dependency_graph(&vec![a]).unwrap_err(),
        "Blocking job 'nope' not found for job 'a'"
    );
    let mut b = job("b");
    b.depends_on_regexes = Some(vec!["^zz".to_string()]);
    assert_eq!(
        job_dependency_graph(&vec![b]).unwrap_err(),
        "Blocking job regex '^zz' did not match any jobs for job 'b'"
    );
}

#[test]
fn jobs_are_created_level_by_level() {
    let mut b = job("b");
    b.depends_on = Some(vec!["a".to_string()]);
    let mut c = job("c");
    c.depends_on = Some(vec!["b".to_string(), "a".to_string()]);
    let jobs = vec![c, b, job("a"), job("d")];
    let graph = job_dependency_graph(&jobs).unwrap();
    let levels = topological_sort_jobs(&jobs, &graph).unwrap();
    assert_eq!(levels, vec![vec![2, 3], vec![1], vec![0]]);
}

#[test]
fn cycles_stop_creation() {
    let mut a = job("a");
    a.depends_on = Some(vec!["b".to_string()]);
    let mut b = job("b");
    b.depends_on = Some(vec!["a".to_string()]);
    let jobs = vec![a, b];
    let graph = job_dependency_graph(&jobs).unwrap();
    assert_eq!(
        topological_sort_jobs(&jobs, &graph).unwrap_err(),
        "Circular dependency detected in job graph"
    );
}

#[test]
fn names_and_patterns_resolve_to_ids() {
    let files = ids(&[("in_1", 10), ("in_2", 11), ("out", 12)]);
    let got = resolve_names_and_regexes(
        &Some(vec!["out".to_string()]),
        &Some(vec!["^in_".to_string()]),
        &files,
        "Input file",
        "j",
    )
    .unwrap();
    assert_eq!(got, vec![12, 10, 11]);
    let err = resolve_names_and_regexes(&Some(vec!["x".to_string()]), &None, &files, "Input file", "j")
        .unwrap_err();
    assert_eq!(err, "Input file 'x' not found for job 'j'");
    let err = resolve_names_and_regexes(&None, &Some(vec!["(".to_string()]), &files, "Input file", "j")
        .unwrap_err();
    assert!(err.starts_with("Invalid regex '(' for input file in job 'j': "), "{}", err);
    let err = resolve_names_and_regexes(&None, &Some(vec!["^q".to_string()]), &files, "Output file", "j")
        .unwrap_err();
    assert_eq!(err, "Output file regex '^q' did not match any names for job 'j'");
}

#[test]
fn job_records_carry_ids() {
    let mut j = job("train");
    j.input_files = Some(vec!["data".to_string()]);
    j.resource_requirements = Some("gpu".to_string());
    j.priority = Some(5);
    j.env = Some(vec![]);
    let maps = IdMaps {
        files: ids(&[("data", 7)]),
        user_data: vec![],
        resource_requirements: ids(&[("gpu", 3)]),
        schedulers: vec![],
        failure_handlers: vec![],
        jobs: ids(&[("prep", 40)]),
    };
    let m = job_model_for(9, &j, &maps, &vec!["prep".to_string()]).unwrap();
    assert_eq!(m.workflow_id, 9);
    assert_eq!(m.name, "train");
    assert_eq!(m.input_file_ids, Some(vec![7]));
    assert_eq!(m.output_file_ids, None);
    assert_eq!(m.resource_requirements_id, Some(3));
    assert_eq!(m.depends_on_job_ids, Some(vec![40]));
    assert_eq!(m.priority, Some(5));
    assert_eq!(m.env, None);
    assert_eq!(m.status, Some(JobStatus::Uninitialized));
    assert_eq!(m.cancel_on_blocking_job_failure, Some(false));

    j.priority = Some(-1);
    assert_eq!(
        job_model_for(9, &j, &maps, &vec![]).unwrap_err(),
        "priority must be >= 0, got -1 for job 'train'"
    );
    j.priority = None;
    assert_eq!(
        job_model_for(9, &j, &maps, &vec!["later".to_string()]).unwrap_err(),
        "Dependency 'later' not found for job 'train' (not yet created)"
    );
}

#[test]
fn slurm_defaults_refuse_managed_parameters() {
    let defaults = SlurmDefaultsSpec(vec![
        ("Partition".to_string(), JsonValue::String("short".to_string())),
        ("qos".to_string(), JsonValue::String("high".to_string())),
        ("job-name".to_string(), JsonValue::String("x".to_string())),
    ]);
    assert_eq!(
        defaults.validate().unwrap_err(),
        "slurm_defaults contains excluded parameters managed by torc: Partition, job-name. These cannot be set as defaults."
    );
    let ok = SlurmDefaultsSpec(vec![("qos".to_string(), JsonValue::String("high".to_string()))]);
    assert_eq!(ok.validate(), Ok(()));
}

#[test]
fn slurm_defaults_as_text() {
    let defaults = SlurmDefaultsSpec(vec![
        ("qos".to_string(), JsonValue::String("high".to_string())),
        ("ntasks".to_string(), JsonValue::Number("4".to_string())),
        ("exclusive".to_string(), JsonValue::Bool(true)),
        ("list".to_string(), JsonValue::Array(vec![])),
        ("none".to_string(), JsonValue::Null),
    ]);
    assert_eq!(
        defaults.to_string_map(),
        vec![
            ("qos".to_string(), "high".to_string()),
            ("ntasks".to_string(), "4".to_string()),
            ("exclusive".to_string(), "true".to_string()),
        ]
    );
}

#[test]
fn service_state_names_its_build() {
    let s = OpenApiAppState::for_build("1.2.3", Some("abc"), Some("-dirty"), "v1");
    assert_eq!(s.version, "1.2.3 (abc-dirty)");
    assert_eq!(s.git_hash, "abc");
    assert_eq!(s.api_version, "v1");
    assert!(!s.access_control_enabled);
    let s = OpenApiAppState::for_build("1.2.3", None, None, "v1");
    assert_eq!(s.version, "1.2.3 (unknown)");
}
