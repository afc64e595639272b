use torc_spec::execution::{StdioConfig, StdioMode};
use torc_spec::kdl_write::kdl_escape;
use torc_spec::workflow::WorkflowSpec;
use torc_spec::workflow_spec::{FileSpec, JobSpec};

#[test]
fn plain_strings_are_quoted() {
    assert_eq!(kdl_escape("abc"), "\"abc\"");
    assert_eq!(kdl_escape(""), "\"\"");
}

#[test]
fn strings_with_quotes_are_raw() {
    assert_eq!(kdl_escape("say \"hi\""), "r#\"say \"hi\"\"#");
    assert_eq!(kdl_escape("a\\b"), "r\"a\\b\"");
    assert_eq!(kdl_escape("line1\nline2"), "r\"line1\nline2\"");
    assert_eq!(kdl_escape("x\"#y\""), "r##\"x\"#y\"\"##");
}

#[test]
fn a_small_workflow_as_kdl() {
    let mut job = JobSpec::new("train".to_string(), "python train.py".to_string());
    job.env = Some(vec![
        ("B".to_string(), "2".to_string()),
        ("A".to_string(), "1".to_string()),
    ]);
    job.depends_on = Some(vec!["prep".to_string()]);
    job.stdio = Some(StdioConfig { mode: StdioMode::Combined, delete_on_success: Some(true) });
    let spec = WorkflowSpec::new("demo".to_string(), "me".to_string(), None, vec![job]);
    assert_eq!(
        spec.to_kdl_str(),
        "name \"demo\"\nuser \"me\"\n\njob \"train\" {\n    command \"python train.py\"\n    env {\n        A \"1\"\n        B \"2\"\n    }\n    cancel_on_blocking_job_failure #false\n    supports_termination #false\n    depends_on \"prep\"\n    stdio {\n        mode \"combined\"\n        delete_on_success #true\n    }\n}\n"
    );
}

#[test]
fn files_use_the_short_form_when_they_can() {
    let mut spec = WorkflowSpec::new("w".to_string(), "u".to_string(), None, vec![]);
    let plain = FileSpec::new("in".to_string(), "/data/in".to_string());
    let mut ided = FileSpec::new("ref".to_string(), "/data/ref".to_string());
    ided.identifier = Some("doi:1".to_string());
    spec.files = Some(vec![plain, ided]);
    assert_eq!(
        spec.to_kdl_str(),
        "name \"w\"\nuser \"u\"\n\nfile \"in\" path=\"/data/in\"\nfile \"ref\" {\n    path \"/data/ref\"\n    identifier \"doi:1\"\n}\n"
    );
}

#[test]
fn workflow_variables_are_sorted_by_name() {
    let mut spec = WorkflowSpec::new("w".to_string(), "u".to_string(), Some("d".to_string()), vec![]);
    spec.variables = Some(vec![
        ("zeta".to_string(), "z".to_string()),
        ("alpha".to_string(), "a".to_string()),
    ]);
    spec.compute_node_ignore_workflow_completion = Some(false);
    assert_eq!(
        spec.to_kdl_str(),
        "name \"w\"\nuser \"u\"\ndescription \"d\"\ncompute_node_ignore_workflow_completion #false\nvariables {\n    alpha \"a\"\n    zeta \"z\"\n}\n"
    );
}
