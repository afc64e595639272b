use torc_spec::json::JsonValue;
use torc_spec::references::substitute_and_extract;
use torc_spec::workflow::WorkflowSpec;
use torc_spec::workflow_spec::{FileSpec, JobSpec, UserDataSpec};

fn named_data(name: &str, data: JsonValue) -> UserDataSpec {
    UserDataSpec {
        is_ephemeral: None,
        name: Some(name.to_string()),
        data: Some(data),
        parameters: None,
        parameter_mode: None,
        use_parameters: None,
        parameters_file: None,
        use_parameters_file: None,
    }
}

#[test]
fn references_become_paths_and_names() {
    let files = vec![
        ("input".to_string(), "/data/in.csv".to_string()),
        ("output".to_string(), "/data/out.csv".to_string()),
    ];
    let data = vec![("cfg".to_string(), "{\"a\":1}".to_string())];
    let (text, in_f, out_f, in_d, out_d) = substitute_and_extract(
        "run ${files.input.input} ${files.input.input} > ${files.output.output} --cfg '${user_data.input.cfg}' ${files.input.missing}",
        &files,
        &data,
    );
    assert_eq!(
        text,
        "run /data/in.csv /data/in.csv > /data/out.csv --cfg '{\"a\":1}' ${files.input.missing}"
    );
    assert_eq!(in_f, vec!["input".to_string()]);
    assert_eq!(out_f, vec!["output".to_string()]);
    assert_eq!(in_d, vec!["cfg".to_string()]);
    assert!(out_d.is_empty());
}

#[test]
fn malformed_references_are_left_alone() {
    let files = vec![("a".to_string(), "/a".to_string())];
    let (text, in_f, _, _, _) =
        substitute_and_extract("${files.input.} ${files.inout.a} ${files.input.a", &files, &vec![]);
    assert_eq!(text, "${files.input.} ${files.inout.a} ${files.input.a");
    assert!(in_f.is_empty());
}

#[test]
fn later_files_with_the_same_name_win() {
    let files = vec![
        ("a".to_string(), "/first".to_string()),
        ("a".to_string(), "/second".to_string()),
    ];
    let (text, _, _, _, _) = substitute_and_extract("${files.output.a}", &files, &vec![]);
    assert_eq!(text, "/second");
}

#[test]
fn substitute_variables_fills_job_dependencies() {
    let mut job = JobSpec::new(
        "work".to_string(),
        "process ${files.input.raw} ${user_data.output.summary}".to_string(),
    );
    job.invocation_script = Some("prep ${files.input.extra} ${files.input.raw}".to_string());
    job.output_files = Some(vec!["kept".to_string()]);
    let mut spec = WorkflowSpec::new("wf".to_string(), "me".to_string(), None, vec![job]);
    spec.files = Some(vec![
        FileSpec::new("raw".to_string(), "/data/raw.txt".to_string()),
        FileSpec::new("extra".to_string(), "/data/extra.txt".to_string()),
    ]);
    spec.user_data = Some(vec![named_data(
        "summary",
        JsonValue::Object(vec![
            ("n".to_string(), JsonValue::Number("3".to_string())),
            ("ok".to_string(), JsonValue::Bool(true)),
        ]),
    )]);

    assert_eq!(spec.substitute_variables(), Ok(()));
    let job = &spec.jobs[0];
    assert_eq!(job.command, "process /data/raw.txt {\"n\":3,\"ok\":true}");
    assert_eq!(
        job.invocation_script.as_deref(),
        Some("prep /data/extra.txt /data/raw.txt")
    );
    assert_eq!(
        job.input_files,
        Some(vec!["extra".to_string(), "raw".to_string()])
    );
    assert_eq!(job.output_files, Some(vec!["kept".to_string()]));
    assert_eq!(job.output_user_data, Some(vec!["summary".to_string()]));
    assert_eq!(job.input_user_data, None);
}

#[test]
fn substitute_variables_keeps_jobs_without_references() {
    let mut job = JobSpec::new("plain".to_string(), "echo ${HOME}".to_string());
    job.input_files = Some(vec!["given".to_string()]);
    let mut spec = WorkflowSpec::new("wf".to_string(), "me".to_string(), None, vec![job]);
    assert_eq!(spec.substitute_variables(), Ok(()));
    assert_eq!(spec.jobs[0].command, "echo ${HOME}");
    assert_eq!(spec.jobs[0].input_files, Some(vec!["given".to_string()]));
}
