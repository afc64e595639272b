use torc_spec::resources::ResourceParses;
use torc_spec::workflow::WorkflowSpec;
use torc_spec::workflow_spec::{JobSpec, ResourceRequirementsSpec, SlurmSchedulerSpec};

const GIB: i64 = 1024 * 1024 * 1024;

fn parses() -> ResourceParses {
    let s = |t: &str| t.to_string();
    ResourceParses {
        walltimes: vec![
            (s("01:00:00"), Ok(3600)),
            (s("04:00:00"), Ok(14400)),
            (s("00:30:00"), Ok(1800)),
            (s("soon"), Err(s("invalid walltime format"))),
        ],
        memories: vec![
            (s("1g"), Ok(GIB)),
            (s("4g"), Ok(4 * GIB)),
            (s("8g"), Ok(8 * GIB)),
            (s("16g"), Ok(16 * GIB)),
            (s("32g"), Ok(32 * GIB)),
            (s("999g"), Ok(999 * GIB)),
            (s("lots"), Err(s("invalid memory string"))),
        ],
        durations: vec![
            (s("PT2H"), Ok(7200)),
            (s("PT30M"), Ok(1800)),
            (s("PT1H"), Ok(3600)),
            (s("two hours"), Err(s("invalid duration"))),
        ],
        gpus: vec![(s("gpu:2"), Some(2)), (s("gpu:h100"), None)],
    }
}

fn req(name: &str, gpus: i64, memory: &str, runtime: &str) -> ResourceRequirementsSpec {
    ResourceRequirementsSpec {
        name: name.to_string(),
        num_cpus: 1,
        num_gpus: gpus,
        num_nodes: 1,
        memory: memory.to_string(),
        runtime: runtime.to_string(),
    }
}

fn sched(name: &str, walltime: &str, mem: Option<&str>, gres: Option<&str>) -> SlurmSchedulerSpec {
    SlurmSchedulerSpec {
        name: Some(name.to_string()),
        account: "test".to_string(),
        gres: gres.map(|g| g.to_string()),
        mem: mem.map(|m| m.to_string()),
        nodes: 1,
        ntasks_per_node: None,
        partition: None,
        qos: None,
        tmp: None,
        walltime: walltime.to_string(),
        extra: None,
        serialize_allocations: None,
    }
}

fn job(rr: Option<&str>, scheduler: Option<&str>) -> JobSpec {
    let mut j = JobSpec::new("test_job".to_string(), "echo hello".to_string());
    j.resource_requirements = rr.map(|r| r.to_string());
    j.scheduler = scheduler.map(|s| s.to_string());
    j
}

fn workflow(
    jobs: Vec<JobSpec>,
    reqs: Option<Vec<ResourceRequirementsSpec>>,
    scheds: Option<Vec<SlurmSchedulerSpec>>,
) -> WorkflowSpec {
    let mut w = WorkflowSpec::new("test_workflow".to_string(), "tester".to_string(), None, jobs);
    w.resource_requirements = reqs;
    w.slurm_schedulers = scheds;
    w
}

fn warnings(w: &WorkflowSpec) -> Vec<String> {
    w.validate_scheduler_resources_with(&parses())
}

#[test]
fn test_validate_scheduler_resources_runtime_within_walltime() {
    let w = workflow(
        vec![job(Some("small"), Some("my_scheduler"))],
        Some(vec![req("small", 0, "1g", "PT30M")]),
        Some(vec![sched("my_scheduler", "01:00:00", None, None)]),
    );
    assert!(warnings(&w).is_empty());
}

#[test]
fn test_validate_scheduler_resources_runtime_equals_walltime() {
    let w = workflow(
        vec![job(Some("small"), Some("my_scheduler"))],
        Some(vec![req("small", 0, "1g", "PT1H")]),
        Some(vec![sched("my_scheduler", "01:00:00", None, None)]),
    );
    assert!(warnings(&w).is_empty());
}

#[test]
fn test_validate_scheduler_resources_runtime_exceeds_walltime() {
    let w = workflow(
        vec![job(Some("big"), Some("my_scheduler"))],
        Some(vec![req("big", 0, "1g", "PT2H")]),
        Some(vec![sched("my_scheduler", "01:00:00", None, None)]),
    );
    let warnings = warnings(&w);
    assert_eq!(warnings.len(), 1);
    assert!(warnings[0].contains("test_job"));
    assert!(warnings[0].contains("runtime"));
    assert_eq!(
        warnings[0],
        "Job 'test_job': runtime 'PT2H' (7200 s) exceeds scheduler 'my_scheduler' walltime '01:00:00' (3600 s)"
    );
}

#[test]
fn test_validate_scheduler_resources_memory_exceeds_scheduler_mem() {
    let w = workflow(
        vec![job(Some("big"), Some("my_scheduler"))],
        Some(vec![req("big", 0, "16g", "PT30M")]),
        Some(vec![sched("my_scheduler", "01:00:00", Some("8g"), None)]),
    );
    let warnings = warnings(&w);
    assert_eq!(warnings.len(), 1);
    assert!(warnings[0].contains("test_job"));
    assert!(warnings[0].contains("memory"));
    assert_eq!(warnings[0], "Job 'test_job': memory '16g' exceeds scheduler 'my_scheduler' mem '8g'");
}

#[test]
fn test_validate_scheduler_resources_gpus_exceed_scheduler_gres() {
    let w = workflow(
        vec![job(Some("gpu_heavy"), Some("my_scheduler"))],
        Some(vec![req("gpu_heavy", 4, "1g", "PT30M")]),
        Some(vec![sched("my_scheduler", "01:00:00", None, Some("gpu:2"))]),
    );
    let warnings = warnings(&w);
    assert_eq!(warnings.len(), 1);
    assert!(warnings[0].contains("test_job"));
    assert!(warnings[0].contains("num_gpus"));
    assert_eq!(warnings[0], "Job 'test_job': num_gpus 4 exceeds scheduler 'my_scheduler' gres 'gpu:2'");
}

#[test]
fn test_validate_scheduler_resources_skips_when_scheduler_mem_not_set() {
    let w = workflow(
        vec![job(Some("big"), Some("my_scheduler"))],
        Some(vec![req("big", 0, "999g", "PT30M")]),
        Some(vec![sched("my_scheduler", "01:00:00", None, None)]),
    );
    assert!(warnings(&w).is_empty());
}

#[test]
fn test_validate_scheduler_resources_skips_when_scheduler_gres_not_set() {
    let w = workflow(
        vec![job(Some("gpu_heavy"), Some("my_scheduler"))],
        Some(vec![req("gpu_heavy", 100, "1g", "PT30M")]),
        Some(vec![sched("my_scheduler", "01:00:00", None, None)]),
    );
    assert!(warnings(&w).is_empty());
}

#[test]
fn test_validate_scheduler_resources_multiple_warnings() {
    let w = workflow(
        vec![job(Some("big"), Some("my_scheduler"))],
        Some(vec![req("big", 4, "16g", "PT2H")]),
        Some(vec![sched("my_scheduler", "01:00:00", Some("8g"), Some("gpu:2"))]),
    );
    assert_eq!(warnings(&w).len(), 3);
}

#[test]
fn test_validate_scheduler_resources_skips_jobs_without_resource_requirements() {
    let w = workflow(
        vec![job(None, None)],
        None,
        Some(vec![sched("my_scheduler", "00:30:00", None, None)]),
    );
    assert!(warnings(&w).is_empty());
}

#[test]
fn test_validate_scheduler_resources_unassigned_job_passes_if_any_scheduler_fits() {
    let w = workflow(
        vec![job(Some("big"), None)],
        Some(vec![req("big", 0, "4g", "PT2H")]),
        Some(vec![
            sched("short_scheduler", "01:00:00", Some("8g"), None),
            sched("long_scheduler", "04:00:00", Some("8g"), None),
        ]),
    );
    assert!(warnings(&w).is_empty());
}

#[test]
fn test_validate_scheduler_resources_unassigned_job_fails_if_no_scheduler_fits_all_dims() {
    let w = workflow(
        vec![job(Some("tricky"), None)],
        Some(vec![req("tricky", 0, "16g", "PT2H")]),
        Some(vec![
            sched("long_but_small", "04:00:00", Some("8g"), None),
            sched("short_but_big", "01:00:00", Some("32g"), None),
        ]),
    );
    let warnings = warnings(&w);
    assert_eq!(warnings.len(), 1);
    assert!(warnings[0].contains("test_job"));
    assert!(warnings[0].contains("no explicit scheduler"));
    assert_eq!(
        warnings[0],
        "Job 'test_job' has no explicit scheduler and no scheduler can accommodate its resource requirements. \
         Mismatches: ['long_but_small': memory '16g' > mem '8g'; 'short_but_big': runtime 7200 s > walltime 3600 s]"
    );
}

#[test]
fn test_validate_scheduler_resources_no_schedulers_returns_empty() {
    let w = workflow(vec![job(Some("big"), None)], Some(vec![req("big", 0, "1g", "PT2H")]), None);
    assert!(warnings(&w).is_empty());
}

#[test]
fn unreadable_limits_are_reported_in_order() {
    let w = workflow(
        vec![job(Some("odd"), Some("my_scheduler"))],
        Some(vec![req("odd", 0, "lots", "two hours")]),
        Some(vec![sched("my_scheduler", "soon", Some("lots"), None)]),
    );
    assert_eq!(
        warnings(&w),
        vec![
            "Scheduler 'my_scheduler': invalid walltime 'soon': invalid walltime format".to_string(),
            "Scheduler 'my_scheduler': invalid memory 'lots': invalid memory string".to_string(),
            "Job 'test_job': invalid runtime 'two hours': invalid duration".to_string(),
            "Job 'test_job': invalid memory 'lots': invalid memory string".to_string(),
        ]
    );
}

#[test]
fn negative_gpu_count_stops_the_job_checks() {
    let w = workflow(
        vec![job(Some("neg"), Some("my_scheduler"))],
        Some(vec![req("neg", -1, "16g", "PT2H")]),
        Some(vec![sched("my_scheduler", "01:00:00", Some("8g"), None)]),
    );
    assert_eq!(warnings(&w), vec!["Job 'test_job': invalid negative num_gpus -1".to_string()]);
}

#[test]
fn unreadable_gres_counts_as_no_gpus() {
    let w = workflow(
        vec![job(Some("g"), Some("my_scheduler"))],
        Some(vec![req("g", 1, "1g", "PT30M")]),
        Some(vec![sched("my_scheduler", "01:00:00", None, Some("gpu:h100"))]),
    );
    assert_eq!(
        warnings(&w),
        vec!["Job 'test_job': num_gpus 1 exceeds scheduler 'my_scheduler' gres 'gpu:h100'".to_string()]
    );
}

#[test]
fn the_last_requirements_of_a_name_apply() {
    let w = workflow(
        vec![job(Some("r"), Some("my_scheduler"))],
        Some(vec![req("r", 0, "1g", "PT2H"), req("r", 0, "1g", "PT30M")]),
        Some(vec![sched("my_scheduler", "01:00:00", None, None)]),
    );
    assert!(warnings(&w).is_empty());
}
