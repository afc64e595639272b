use torc_spec::json::JsonValue;
use torc_spec::kdl_read::{
    document_to_json, kdl_error_text, kdl_to_json_value, offset_to_line_col, KdlEntryData,
    KdlJson, KdlNodeData, KdlProblem, KdlValueData,
};
use torc_spec::workflow::WorkflowSpec;
use torc_spec::workflow_spec::{FileSpec, JobSpec};

fn read(content: &str) -> JsonValue {
    let KdlJson { json, .. } = kdl_to_json_value(content);
    json.expect("KDL should read")
}

fn field<'a>(v: &'a JsonValue, key: &str) -> &'a JsonValue {
    v.get(key).unwrap_or_else(|| panic!("missing field {}", key))
}

fn text(v: &JsonValue) -> &str {
    v.as_str().expect("a string")
}

fn number(v: &JsonValue) -> &str {
    match v {
        JsonValue::Number(n) => n.as_str(),
        other => panic!("not a number: {:?}", other),
    }
}

fn items(v: &JsonValue) -> &Vec<JsonValue> {
    match v {
        JsonValue::Array(items) => items,
        other => panic!("not an array: {:?}", other),
    }
}

fn boolean(v: &JsonValue) -> bool {
    match v {
        JsonValue::Bool(b) => *b,
        other => panic!("not a boolean: {:?}", other),
    }
}

fn string_map(v: &JsonValue) -> Vec<(String, String)> {
    match v {
        JsonValue::Object(m) => m.iter().map(|(k, x)| (k.clone(), text(x).to_string())).collect(),
        other => panic!("not an object: {:?}", other),
    }
}

/// A job of the read value, with the fields parameter expansion needs.
fn job_of(v: &JsonValue) -> JobSpec {
    let mut job = JobSpec::new(text(field(v, "name")).to_string(), text(field(v, "command")).to_string());
    job.parameters = v.get("parameters").map(string_map);
    job.parameter_mode = v.get("parameter_mode").map(|m| text(m).to_string());
    job
}

/// A file of the read value, with the fields parameter expansion needs.
fn file_of(v: &JsonValue) -> FileSpec {
    let mut file = FileSpec::new(text(field(v, "name")).to_string(), text(field(v, "path")).to_string());
    file.parameters = v.get("parameters").map(string_map);
    file
}

#[test]
fn test_legacy_resource_monitor_kdl_controls_jobs() {
    let kdl_content = r#"
name "legacy_resource_monitor_kdl"

resource_monitor {
    enabled #true
    granularity "time_series"
    sample_interval_seconds 2
    flush_interval_seconds 17
}

job "job1" {
    command "echo hello"
}
"#;
    let v = read(kdl_content);
    let monitor = field(&v, "resource_monitor");
    assert!(boolean(field(monitor, "enabled")));
    assert_eq!(text(field(monitor, "granularity")), "time_series");
    assert_eq!(number(field(monitor, "sample_interval_seconds")), "2");
    assert_eq!(number(field(monitor, "flush_interval_seconds")), "17");
    assert!(monitor.get("compute_node").is_none());
}

#[test]
fn test_kdl_job_parameterization() {
    let kdl_content = r#"
name "test_parameterized"
description "Test parameterized jobs in KDL format"

job "job_{i:03d}" {
    command "echo hello {i}"
    parameters {
        i "1:5"
    }
}
"#;
    let v = read(kdl_content);
    let jobs = items(field(&v, "jobs"));
    assert_eq!(jobs.len(), 1);
    assert_eq!(text(field(&jobs[0], "name")), "job_{i:03d}");
    assert_eq!(text(field(&jobs[0], "command")), "echo hello {i}");
    assert_eq!(text(field(field(&jobs[0], "parameters"), "i")), "1:5");

    let expanded = job_of(&jobs[0]).expand().expect("Failed to expand parameters");
    assert_eq!(expanded.len(), 5);
    assert_eq!(expanded[0].name, "job_001");
    assert_eq!(expanded[0].command, "echo hello 1");
    assert_eq!(expanded[4].name, "job_005");
    assert_eq!(expanded[4].command, "echo hello 5");
    for job in &expanded {
        assert!(job.parameters.is_none());
    }
}

#[test]
fn test_kdl_file_parameterization() {
    let kdl_content = r#"
name "test_parameterized_files"
description "Test parameterized files in KDL format"

file "output_{run_id}" {
    path "/data/output_{run_id}.txt"
    parameters {
        run_id "1:3"
    }
}

job "process" {
    command "echo test"
}
"#;
    let v = read(kdl_content);
    let files = items(field(&v, "files"));
    assert_eq!(files.len(), 1);
    assert_eq!(text(field(&files[0], "name")), "output_{run_id}");
    assert_eq!(text(field(&files[0], "path")), "/data/output_{run_id}.txt");
    assert_eq!(text(field(field(&files[0], "parameters"), "run_id")), "1:3");

    let expanded = file_of(&files[0]).expand().expect("Failed to expand parameters");
    assert_eq!(expanded.len(), 3);
    assert_eq!(expanded[0].name, "output_1");
    assert_eq!(expanded[0].path, "/data/output_1.txt");
    assert_eq!(expanded[2].name, "output_3");
    assert_eq!(expanded[2].path, "/data/output_3.txt");
    for file in &expanded {
        assert!(file.parameters.is_none());
    }
}

#[test]
fn test_kdl_file_identifier_round_trip() {
    let kdl_block = r#"
name "with_identifier"

file "ref" {
    path "/data/ref.csv"
    identifier "urn:dataset:ref"
}

job "consume" {
    command "echo"
    input_files "ref"
}
"#;
    let v = read(kdl_block);
    assert_eq!(text(field(&items(field(&v, "files"))[0], "identifier")), "urn:dataset:ref");

    let kdl_property = r#"
name "with_identifier_property"

file "ref" path="/data/ref.csv" identifier="urn:dataset:ref"

job "consume" {
    command "echo"
    input_files "ref"
}
"#;
    let v = read(kdl_property);
    let file = &items(field(&v, "files"))[0];
    assert_eq!(text(field(file, "identifier")), "urn:dataset:ref");
    assert_eq!(text(field(file, "path")), "/data/ref.csv");

    let mut spec_emit = WorkflowSpec::new("emit".to_string(), "tester".to_string(), None, vec![]);
    let mut f = FileSpec::new("ref".to_string(), "/data/ref.csv".to_string());
    f.identifier = Some("urn:dataset:ref".to_string());
    spec_emit.files = Some(vec![f]);
    let emitted = spec_emit.to_kdl_str();
    assert!(emitted.contains("identifier"), "emitted KDL missing identifier: {}", emitted);
    let reparsed = read(&emitted);
    assert_eq!(text(field(&items(field(&reparsed, "files"))[0], "identifier")), "urn:dataset:ref");
}

#[test]
fn test_kdl_multi_dimensional_parameterization() {
    let kdl_content = r#"
name "test_multi_param"
description "Test multi-dimensional parameterization in KDL format"

job "train_lr{lr:.4f}_bs{batch_size}" {
    command "python train.py --lr={lr} --batch-size={batch_size}"
    parameters {
        lr "[0.001,0.01]"
        batch_size "[16,32]"
    }
}
"#;
    let v = read(kdl_content);
    let job = &items(field(&v, "jobs"))[0];
    let params = field(job, "parameters");
    assert_eq!(text(field(params, "lr")), "[0.001,0.01]");
    assert_eq!(text(field(params, "batch_size")), "[16,32]");

    let expanded = job_of(job).expand().expect("Failed to expand parameters");
    assert_eq!(expanded.len(), 4);
    let names: Vec<&str> = expanded.iter().map(|j| j.name.as_str()).collect();
    assert!(names.contains(&"train_lr0.0010_bs16"));
    assert!(names.contains(&"train_lr0.0010_bs32"));
    assert!(names.contains(&"train_lr0.0100_bs16"));
    assert!(names.contains(&"train_lr0.0100_bs32"));
}

#[test]
fn test_zip_parameter_mode_kdl() {
    let kdl_content = r#"
name "test_zip_parameters"
description "Test zip parameter mode in KDL"

job "run_{stage}_{config}" {
    command "execute --stage={stage} --config={config}"
    parameters {
        stage "[1, 2, 3]"
        config "['a', 'b', 'c']"
    }
    parameter_mode "zip"
}
"#;
    let v = read(kdl_content);
    let expanded = job_of(&items(field(&v, "jobs"))[0]).expand().expect("Failed to expand parameters");
    assert_eq!(expanded.len(), 3);
    assert_eq!(expanded[0].name, "run_1_a");
    assert_eq!(expanded[1].name, "run_2_b");
    assert_eq!(expanded[2].name, "run_3_c");
}

#[test]
fn test_kdl_env_round_trip() {
    let kdl_content = r#"
name "env_workflow"
env {
    PIXI_CACHE_FOLDER "/tmp/cache"
}

job "train" {
    command "python train.py"
    env {
        JOB_FLAG "true"
    }
}
"#;
    let v = read(kdl_content);
    assert_eq!(text(field(field(&v, "env"), "PIXI_CACHE_FOLDER")), "/tmp/cache");
    let job = &items(field(&v, "jobs"))[0];
    assert_eq!(text(field(field(job, "env"), "JOB_FLAG")), "true");
}

#[test]
fn test_shared_parameters_kdl() {
    let kdl_content = r#"
name "shared_params_test"
description "Test workflow-level shared parameters in KDL"

parameters {
    i "1:3"
    prefix "['a','b']"
}

job "job_{i}_{prefix}" {
    command "echo {i} {prefix}"
    use_parameters "i" "prefix"
}
"#;
    let v = read(kdl_content);
    let params = field(&v, "parameters");
    assert_eq!(text(field(params, "i")), "1:3");
    assert_eq!(text(field(params, "prefix")), "['a','b']");
    let job = &items(field(&v, "jobs"))[0];
    let used = items(field(job, "use_parameters"));
    assert_eq!(used.len(), 2);
    assert_eq!(text(&used[0]), "i");
    assert_eq!(text(&used[1]), "prefix");
}

#[test]
fn kdl_lists_and_scalars() {
    let kdl_content = r#"
name "lists"
compute_node_wait_for_new_jobs_seconds 120
use_pending_failed #true

job "b" {
    command "run b"
    depends_on "a"
    depends_on "c"
    input_file "in"
    output_file "out"
    cancel_on_blocking_job_failure #false
    stdio {
        mode "combined"
        delete_on_success #true
    }
}

action {
    trigger_type "on_jobs_ready"
    action_type "run_commands"
    jobs "b" "c"
    job "d"
    command "echo one"
    max_parallel_jobs 3
}

failure_handler "retry" {
    rule {
        exit_codes 1 2 "x" 3
        max_retries 4
    }
}

slurm_defaults {
    account "proj"
    nodes 2
    exclusive #true
}
"#;
    let v = read(kdl_content);
    assert_eq!(number(field(&v, "compute_node_wait_for_new_jobs_seconds")), "120");
    assert!(boolean(field(&v, "use_pending_failed")));
    let job = &items(field(&v, "jobs"))[0];
    let deps = items(field(job, "depends_on"));
    assert_eq!(deps.len(), 2);
    assert_eq!(text(&deps[1]), "c");
    assert_eq!(text(&items(field(job, "input_files"))[0]), "in");
    assert_eq!(text(&items(field(job, "output_files"))[0]), "out");
    assert!(!boolean(field(job, "cancel_on_blocking_job_failure")));
    assert_eq!(text(field(field(job, "stdio"), "mode")), "combined");
    assert!(boolean(field(field(job, "stdio"), "delete_on_success")));

    let action = &items(field(&v, "actions"))[0];
    let jobs = items(field(action, "jobs"));
    assert_eq!(jobs.len(), 3);
    assert_eq!(text(&jobs[2]), "d");
    assert_eq!(text(&items(field(action, "commands"))[0]), "echo one");
    assert_eq!(number(field(action, "max_parallel_jobs")), "3");

    let handler = &items(field(&v, "failure_handlers"))[0];
    assert_eq!(text(field(handler, "name")), "retry");
    let rule = &items(field(handler, "rules"))[0];
    let codes = items(field(rule, "exit_codes"));
    assert_eq!(codes.len(), 3);
    assert_eq!(number(&codes[2]), "3");
    assert_eq!(number(field(rule, "max_retries")), "4");

    let defaults = field(&v, "slurm_defaults");
    assert_eq!(text(field(defaults, "account")), "proj");
    assert_eq!(number(field(defaults, "nodes")), "2");
    assert!(boolean(field(defaults, "exclusive")));
    assert!(v.get("files").is_none());
    assert!(items(field(&v, "jobs")).len() == 1);
}

#[test]
fn kdl_empty_document_has_empty_jobs() {
    let v = read("");
    assert_eq!(items(field(&v, "jobs")).len(), 0);
    assert!(v.get("actions").is_none());
}

#[test]
fn kdl_failure_handler_without_rules_has_empty_rules() {
    let v = read("failure_handler \"h\"\n");
    let handler = &items(field(&v, "failure_handlers"))[0];
    assert_eq!(items(field(handler, "rules")).len(), 0);
}

#[test]
fn kdl_missing_names_and_fields_are_errors() {
    let cases = [
        ("job {\n command \"x\"\n}\n", "job must have a name"),
        ("file \"f\"\n", "file must have a path property"),
        ("file {\n path \"/p\"\n}\n", "file must have a name"),
        ("resource_requirements 4\n", "resource_requirements must have a name"),
        ("failure_handler\n", "failure_handler must have a name"),
        ("user_data \"u\"\n", "user_data must have a data property"),
        ("env {\n HOME 3\n}\n", "Environment key 'HOME' must have a string value"),
        ("parameters {\n i\n}\n", "Parameter 'i' must have a string value"),
        ("variables {\n v #true\n}\n", "Variable 'v' must have a string value"),
    ];
    for (content, expected) in cases {
        let KdlJson { json, .. } = kdl_to_json_value(content);
        assert_eq!(json.unwrap_err(), expected, "for {:?}", content);
    }
}

#[test]
fn kdl_user_data_texts_come_in_order() {
    let content = r#"
user_data "a" {
    data "{\"x\": 1}"
}
user_data {
    is_ephemeral #true
    data "[1, 2]"
}
job "j" {
    command "c"
}
"#;
    let KdlJson { json, texts } = kdl_to_json_value(content);
    let v = json.unwrap();
    assert_eq!(texts, vec!["{\"x\": 1}".to_string(), "[1, 2]".to_string()]);
    let uds = items(field(&v, "user_data"));
    assert_eq!(uds.len(), 2);
    assert_eq!(text(field(&uds[0], "name")), "a");
    assert!(uds[1].get("name").is_none());
    assert!(boolean(field(&uds[1], "is_ephemeral")));
    assert_eq!(text(field(&uds[1], "data")), "[1, 2]");
}

#[test]
fn kdl_error_keeps_texts_before_the_error() {
    let content = "user_data \"a\" {\n data \"oops\"\n}\njob {\n}\n";
    let KdlJson { json, texts } = kdl_to_json_value(content);
    assert_eq!(json.unwrap_err(), "job must have a name");
    assert_eq!(texts, vec!["oops".to_string()]);
}

#[test]
fn kdl_integer_is_taken_to_64_bits() {
    let v = read("compute_node_wait_for_healthy_database_minutes -7\n");
    assert_eq!(number(field(&v, "compute_node_wait_for_healthy_database_minutes")), "-7");
}

#[test]
fn kdl_later_setting_replaces_earlier() {
    let v = read("name \"a\"\nname \"b\"\n");
    assert_eq!(text(field(&v, "name")), "b");
}

#[test]
fn kdl_parse_error_reports_line_and_column() {
    let KdlJson { json, texts } = kdl_to_json_value("name \"ok\"\njob \"x\" {\n");
    let message = json.unwrap_err();
    assert!(message.starts_with("Failed to parse KDL document:\n  Line "), "{}", message);
    assert!(texts.is_empty());
}

#[test]
fn offset_to_line_col_counts_bytes() {
    assert_eq!(offset_to_line_col("ab\ncd", 0), (1, 1));
    assert_eq!(offset_to_line_col("ab\ncd", 2), (1, 3));
    assert_eq!(offset_to_line_col("ab\ncd", 3), (2, 1));
    assert_eq!(offset_to_line_col("ab\ncd", 4), (2, 2));
    assert_eq!(offset_to_line_col("é\nx", 2), (1, 2));
    assert_eq!(offset_to_line_col("é\nx", 3), (2, 1));
}

#[test]
fn kdl_error_text_formats_problems() {
    let problems = vec![
        KdlProblem {
            offset: 4,
            message: Some("Expected a value".to_string()),
            label: Some("here".to_string()),
            help: Some("Add a value".to_string()),
        },
        KdlProblem { offset: 0, message: None, label: None, help: None },
    ];
    let text = kdl_error_text("abc\r\ndef", &problems);
    assert_eq!(
        text,
        "Failed to parse KDL document:\n  Line 1, column 5: Expected a value (here)\n    Help: Add a value\n  Line 1, column 1: syntax error\n\n  1 | abc\n    |     ^\n"
    );
    let text = kdl_error_text("x\ny", &vec![KdlProblem { offset: 2, message: None, label: None, help: None }]);
    assert_eq!(
        text,
        "Failed to parse KDL document:\n  Line 2, column 1: syntax error\n\n  2 | y\n    | ^\n"
    );
    assert_eq!(kdl_error_text("x", &Vec::new()), "Failed to parse KDL document:\n");
}

#[test]
fn document_to_json_reads_plain_nodes() {
    let node = KdlNodeData {
        name: "file".to_string(),
        entries: vec![
            KdlEntryData { name: None, value: KdlValueData::String("f".to_string()) },
            KdlEntryData { name: Some("path".to_string()), value: KdlValueData::String("/a".to_string()) },
            KdlEntryData { name: Some("path".to_string()), value: KdlValueData::String("/b".to_string()) },
        ],
        children: None,
    };
    let KdlJson { json, texts } = document_to_json(&vec![node]);
    let v = json.unwrap();
    assert!(texts.is_empty());
    let file = &items(field(&v, "files"))[0];
    assert_eq!(text(field(file, "name")), "f");
    assert_eq!(text(field(file, "path")), "/b");
}

#[test]
fn kdl_unknown_top_level_node_is_ignored() {
    let with = read("name \"w\"\nsomething_else \"x\" {\n    command \"y\"\n}\n");
    let without = read("name \"w\"\n");
    assert_eq!(format!("{:?}", with), format!("{:?}", without));
}
