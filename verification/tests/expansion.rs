use torc_spec::json::JsonValue;
use torc_spec::workflow::WorkflowSpec;
use torc_spec::workflow_spec::{FileSpec, JobSpec, UserDataSpec};

fn params(entries: &[(&str, &str)]) -> Vec<(String, String)> {
    let mut v = Vec::new();
    for (k, val) in entries {
        v.push((k.to_string(), val.to_string()));
    }
    v
}

fn obj_get<'a>(v: &'a JsonValue, key: &str) -> &'a JsonValue {
    v.get(key).expect("missing key")
}

fn json_str(s: &str) -> JsonValue {
    JsonValue::String(s.to_string())
}

#[test]
fn test_integer_range_expansion() {
    let mut job = JobSpec::new("job_{i}".to_string(), "echo {i}".to_string());
    job.parameters = Some(params(&[("i", "1:5")]));

    let expanded = job.expand().expect("Failed to expand job");

    assert_eq!(expanded.len(), 5);
    assert_eq!(expanded[0].name, "job_1");
    assert_eq!(expanded[0].command, "echo 1");
    assert_eq!(expanded[4].name, "job_5");
    assert_eq!(expanded[4].command, "echo 5");
}

#[test]
fn test_integer_range_with_step() {
    let mut job = JobSpec::new("job_{i}".to_string(), "echo {i}".to_string());
    job.parameters = Some(params(&[("i", "0:10:2")]));

    let expanded = job.expand().expect("Failed to expand job");

    assert_eq!(expanded.len(), 6);
    assert_eq!(expanded[0].name, "job_0");
    assert_eq!(expanded[1].name, "job_2");
    assert_eq!(expanded[5].name, "job_10");
}

#[test]
fn test_float_range_expansion() {
    let mut job = JobSpec::new("job_{lr}".to_string(), "train.py --lr={lr}".to_string());
    job.parameters = Some(params(&[("lr", "0.0:1.0:0.5")]));

    let expanded = job.expand().expect("Failed to expand job");

    assert_eq!(expanded.len(), 3);
    assert_eq!(expanded[0].command, "train.py --lr=0");
    assert_eq!(expanded[1].command, "train.py --lr=0.5");
    assert_eq!(expanded[2].command, "train.py --lr=1");
}

#[test]
fn test_list_expansion() {
    let mut job = JobSpec::new("job_{dataset}".to_string(), "process.sh {dataset}".to_string());
    job.parameters = Some(params(&[("dataset", "['train','test','validation']")]));

    let expanded = job.expand().expect("Failed to expand job");

    assert_eq!(expanded.len(), 3);
    assert_eq!(expanded[0].name, "job_train");
    assert_eq!(expanded[0].command, "process.sh train");
    assert_eq!(expanded[2].name, "job_validation");
}

#[test]
fn test_multi_dimensional_parameter_sweep() {
    let mut job = JobSpec::new(
        "job_lr{lr}_bs{batch_size}".to_string(),
        "train.py --lr={lr} --batch-size={batch_size}".to_string(),
    );
    job.parameters = Some(params(&[("lr", "[0.001,0.01,0.1]"), ("batch_size", "[16,32,64]")]));

    let expanded = job.expand().expect("Failed to expand job");

    assert_eq!(expanded.len(), 9);

    let names: Vec<&str> = expanded.iter().map(|j| j.name.as_str()).collect();
    assert!(names.contains(&"job_lr0.001_bs16"));
    assert!(names.contains(&"job_lr0.1_bs64"));

    let commands: Vec<&str> = expanded.iter().map(|j| j.command.as_str()).collect();
    assert!(commands.contains(&"train.py --lr=0.001 --batch-size=16"));
    assert!(commands.contains(&"train.py --lr=0.1 --batch-size=64"));
}

#[test]
fn test_format_specifier_zero_padding() {
    let mut job = JobSpec::new("job_{i:03d}".to_string(), "echo {i:03d}".to_string());
    job.parameters = Some(params(&[("i", "1:5")]));

    let expanded = job.expand().expect("Failed to expand job");

    assert_eq!(expanded[0].name, "job_001");
    assert_eq!(expanded[0].command, "echo 001");
    assert_eq!(expanded[4].name, "job_005");
}

#[test]
fn test_format_specifier_float_precision() {
    let mut job = JobSpec::new("job_{lr:.2f}".to_string(), "train.py --lr={lr:.2f}".to_string());
    job.parameters = Some(params(&[("lr", "0.0:0.3:0.1")]));

    let expanded = job.expand().expect("Failed to expand job");

    assert_eq!(expanded[0].name, "job_0.00");
    assert_eq!(expanded[1].name, "job_0.10");
    assert_eq!(expanded[2].name, "job_0.20");
}

#[test]
fn test_job_with_input_output_files() {
    let mut job = JobSpec::new(
        "process_{i}".to_string(),
        "process.sh input_{i}.txt output_{i}.txt".to_string(),
    );
    job.input_files = Some(vec!["input_{i}".to_string()]);
    job.output_files = Some(vec!["output_{i}".to_string()]);
    job.parameters = Some(params(&[("i", "1:3")]));

    let expanded = job.expand().expect("Failed to expand job");

    assert_eq!(expanded.len(), 3);

    assert_eq!(expanded[0].name, "process_1");
    assert_eq!(expanded[0].input_files, Some(vec!["input_1".to_string()]));
    assert_eq!(expanded[0].output_files, Some(vec!["output_1".to_string()]));

    assert_eq!(expanded[2].name, "process_3");
    assert_eq!(expanded[2].input_files, Some(vec!["input_3".to_string()]));
    assert_eq!(expanded[2].output_files, Some(vec!["output_3".to_string()]));
}

#[test]
fn test_job_with_depends_on_names() {
    let mut job = JobSpec::new("dependent_{i}".to_string(), "echo dependent {i}".to_string());
    job.depends_on = Some(vec!["upstream_{i}".to_string()]);
    job.parameters = Some(params(&[("i", "1:3")]));

    let expanded = job.expand().expect("Failed to expand job");

    assert_eq!(expanded.len(), 3);
    assert_eq!(expanded[0].name, "dependent_1");
    assert_eq!(expanded[0].depends_on, Some(vec!["upstream_1".to_string()]));
    assert_eq!(expanded[2].name, "dependent_3");
    assert_eq!(expanded[2].depends_on, Some(vec!["upstream_3".to_string()]));
}

#[test]
fn test_no_parameters_returns_original() {
    let job = JobSpec::new("simple_job".to_string(), "echo hello".to_string());

    let expanded = job.expand().expect("Failed to expand job");

    assert_eq!(expanded.len(), 1);
    assert_eq!(expanded[0].name, "simple_job");
    assert_eq!(expanded[0].command, "echo hello");
}

#[test]
fn test_invalid_range_format() {
    let mut job = JobSpec::new("job_{i}".to_string(), "echo {i}".to_string());
    job.parameters = Some(params(&[("i", "invalid:range:format:too:many")]));

    let result = job.expand();
    assert!(result.is_err());
    assert!(result.unwrap_err().contains("Invalid range format"));
}

#[test]
fn test_zero_step_error() {
    let mut job = JobSpec::new("job_{i}".to_string(), "echo {i}".to_string());
    job.parameters = Some(params(&[("i", "1:10:0")]));

    let result = job.expand();
    assert!(result.is_err());
    assert!(result.unwrap_err().contains("Step cannot be zero"));
}

#[test]
fn test_complex_multi_param_with_dependencies() {
    let mut job = JobSpec::new(
        "train_lr{lr}_bs{bs}_epoch{epoch}".to_string(),
        "train.py --lr={lr} --bs={bs} --epochs={epoch}".to_string(),
    );
    job.input_files = Some(vec!["data_{bs}".to_string()]);
    job.output_files = Some(vec!["model_lr{lr}_bs{bs}_epoch{epoch}.pt".to_string()]);
    job.parameters =
        Some(params(&[("lr", "[0.001,0.01]"), ("bs", "[16,32]"), ("epoch", "[10,20]")]));

    let expanded = job.expand().expect("Failed to expand job");

    assert_eq!(expanded.len(), 8);

    let job_001_16_10 = expanded
        .iter()
        .find(|j| j.name == "train_lr0.001_bs16_epoch10")
        .expect("Expected job not found");

    assert_eq!(job_001_16_10.command, "train.py --lr=0.001 --bs=16 --epochs=10");
    assert_eq!(job_001_16_10.input_files, Some(vec!["data_16".to_string()]));
    assert_eq!(
        job_001_16_10.output_files,
        Some(vec!["model_lr0.001_bs16_epoch10.pt".to_string()])
    );
}

#[test]
fn test_invocation_script_substitution() {
    let mut job = JobSpec::new("job_{i}".to_string(), "python train.py".to_string());
    job.invocation_script = Some("#!/bin/bash\nexport RUN_ID={i}\n".to_string());
    job.parameters = Some(params(&[("i", "1:2")]));

    let expanded = job.expand().expect("Failed to expand job");

    assert_eq!(
        expanded[0].invocation_script,
        Some("#!/bin/bash\nexport RUN_ID=1\n".to_string())
    );
    assert_eq!(
        expanded[1].invocation_script,
        Some("#!/bin/bash\nexport RUN_ID=2\n".to_string())
    );
}

#[test]
fn test_user_data_name_substitution() {
    let mut job = JobSpec::new("job_{stage}".to_string(), "process.sh {stage}".to_string());
    job.input_user_data = Some(vec!["config_{stage}".to_string()]);
    job.output_user_data = Some(vec!["results_{stage}".to_string()]);
    job.parameters = Some(params(&[("stage", "['train','test']")]));

    let expanded = job.expand().expect("Failed to expand job");

    assert_eq!(expanded.len(), 2);
    assert_eq!(expanded[0].input_user_data, Some(vec!["config_train".to_string()]));
    assert_eq!(expanded[0].output_user_data, Some(vec!["results_train".to_string()]));
    assert_eq!(expanded[1].input_user_data, Some(vec!["config_test".to_string()]));
    assert_eq!(expanded[1].output_user_data, Some(vec!["results_test".to_string()]));
}

#[test]
fn test_file_parameterization() {
    let mut file =
        FileSpec::new("output_{run_id}".to_string(), "/data/output_{run_id}.txt".to_string());
    file.parameters = Some(params(&[("run_id", "1:3")]));

    let expanded = file.expand().expect("Failed to expand file");

    assert_eq!(expanded.len(), 3);
    assert_eq!(expanded[0].name, "output_1");
    assert_eq!(expanded[0].path, "/data/output_1.txt");
    assert_eq!(expanded[2].name, "output_3");
    assert_eq!(expanded[2].path, "/data/output_3.txt");
}

#[test]
fn test_file_identifier_parameter_substitution() {
    let mut file = FileSpec::new("input_{i}".to_string(), "/data/input_{i}.csv".to_string());
    file.identifier = Some("urn:dataset:{i}".to_string());
    file.parameters = Some(params(&[("i", "1:3")]));

    let expanded = file.expand().expect("Failed to expand file");

    assert_eq!(expanded.len(), 3);
    assert_eq!(expanded[0].identifier.as_deref(), Some("urn:dataset:1"));
    assert_eq!(expanded[2].identifier.as_deref(), Some("urn:dataset:3"));
}

#[test]
fn test_user_data_parameterization() {
    let data = JsonValue::Object(vec![
        ("experiment".to_string(), json_str("{experiment}")),
        ("learning_rate".to_string(), JsonValue::Number("0.001".to_string())),
        (
            "tags".to_string(),
            JsonValue::Array(vec![json_str("base"), json_str("{experiment}")]),
        ),
        (
            "nested".to_string(),
            JsonValue::Object(vec![("label".to_string(), json_str("exp-{experiment}"))]),
        ),
    ]);
    let mut ud = UserDataSpec {
        is_ephemeral: Some(false),
        name: Some("config_{experiment}".to_string()),
        data: Some(data),
        parameters: None,
        parameter_mode: None,
        use_parameters: None,
        parameters_file: None,
        use_parameters_file: None,
    };
    ud.parameters = Some(params(&[("experiment", "['baseline','ablation','full']")]));

    let expanded = ud.expand().expect("Failed to expand user_data");
    assert_eq!(expanded.len(), 3);

    let baseline = expanded
        .iter()
        .find(|u| u.name.as_deref() == Some("config_baseline"))
        .expect("baseline copy must exist");

    assert!(baseline.parameters.is_none());
    assert!(baseline.parameter_mode.is_none());

    let data = baseline.data.as_ref().expect("data preserved");
    assert_eq!(obj_get(data, "experiment").as_str(), Some("baseline"));
    match obj_get(data, "learning_rate") {
        JsonValue::Number(n) => assert_eq!(n, "0.001"),
        other => panic!("unexpected {:?}", other),
    }
    match obj_get(data, "tags") {
        JsonValue::Array(items) => {
            assert_eq!(items.len(), 2);
            assert_eq!(items[0].as_str(), Some("base"));
            assert_eq!(items[1].as_str(), Some("baseline"));
        }
        other => panic!("unexpected {:?}", other),
    }
    assert_eq!(obj_get(obj_get(data, "nested"), "label").as_str(), Some("exp-baseline"));
}

#[test]
fn test_user_data_no_parameters_returns_clone() {
    let ud = UserDataSpec {
        is_ephemeral: Some(true),
        name: Some("config".to_string()),
        data: Some(JsonValue::Object(vec![("key".to_string(), json_str("value"))])),
        parameters: None,
        parameter_mode: None,
        use_parameters: None,
        parameters_file: None,
        use_parameters_file: None,
    };
    let expanded = ud.expand().expect("expand should succeed");
    assert_eq!(expanded.len(), 1);
    assert_eq!(expanded[0].is_ephemeral, Some(true));
    assert_eq!(expanded[0].name.as_deref(), Some("config"));
    let data = expanded[0].data.as_ref().unwrap();
    assert_eq!(obj_get(data, "key").as_str(), Some("value"));
    assert!(expanded[0].parameters.is_none());
}

#[test]
fn test_workflow_spec_expand_parameters() {
    let mut job = JobSpec::new("job_{i}".to_string(), "echo {i}".to_string());
    job.parameters = Some(params(&[("i", "1:3")]));
    let mut spec = WorkflowSpec::new(
        "test_workflow".to_string(),
        "test_user".to_string(),
        Some("Test workflow with parameters".to_string()),
        vec![job],
    );
    let mut file = FileSpec::new("file_{i}".to_string(), "/data/file_{i}.txt".to_string());
    file.parameters = Some(params(&[("i", "1:3")]));
    spec.files = Some(vec![file]);

    spec.expand_parameters().expect("Failed to expand parameters");

    assert_eq!(spec.jobs.len(), 3);
    assert_eq!(spec.jobs[0].name, "job_1");
    assert_eq!(spec.jobs[2].name, "job_3");

    assert_eq!(spec.files.as_ref().unwrap().len(), 3);
    assert_eq!(spec.files.as_ref().unwrap()[0].name, "file_1");
    assert_eq!(spec.files.as_ref().unwrap()[2].name, "file_3");
}

#[test]
fn test_workflow_spec_expand_parameters_user_data() {
    let mut spec = WorkflowSpec::new("ud_param_test".to_string(), "tester".to_string(), None, vec![]);
    spec.parameters = Some(params(&[("i", "1:2")]));
    spec.user_data = Some(vec![UserDataSpec {
        is_ephemeral: Some(false),
        name: Some("config_{i}".to_string()),
        data: Some(JsonValue::Object(vec![("index".to_string(), json_str("{i}"))])),
        parameters: None,
        parameter_mode: None,
        use_parameters: Some(vec!["i".to_string()]),
        parameters_file: None,
        use_parameters_file: None,
    }]);

    spec.expand_parameters().expect("expand_parameters must succeed");

    let expanded = spec.user_data.as_ref().expect("user_data preserved");
    assert_eq!(expanded.len(), 2);
    assert_eq!(expanded[0].name.as_deref(), Some("config_1"));
    assert_eq!(expanded[1].name.as_deref(), Some("config_2"));
    assert_eq!(obj_get(expanded[0].data.as_ref().unwrap(), "index").as_str(), Some("1"));
    assert_eq!(obj_get(expanded[1].data.as_ref().unwrap(), "index").as_str(), Some("2"));
}

#[test]
fn test_workflow_env_stays_on_workflow_during_parameter_expansion() {
    let mut job = JobSpec::new("job".to_string(), "echo hi".to_string());
    job.env = Some(params(&[("JOB_ONLY", "job"), ("SHARED", "job")]));

    let mut spec = WorkflowSpec::new("wf".to_string(), "user".to_string(), None, vec![job]);
    spec.env = Some(params(&[("WF_ONLY", "workflow"), ("SHARED", "workflow")]));

    spec.expand_parameters().expect("expand parameters");

    assert_eq!(spec.env, Some(params(&[("WF_ONLY", "workflow"), ("SHARED", "workflow")])));
    assert_eq!(spec.jobs[0].command, "echo hi".to_string());
    assert_eq!(spec.jobs[0].env, Some(params(&[("JOB_ONLY", "job"), ("SHARED", "job")])));
}

#[test]
fn test_workflow_env_parameters_are_substituted() {
    let job = JobSpec::new("job".to_string(), "echo hi".to_string());
    let mut spec = WorkflowSpec::new("wf".to_string(), "user".to_string(), None, vec![job]);
    spec.parameters = Some(params(&[("target", "gpu")]));
    spec.env = Some(params(&[("QUEUE", "queue_{target}")]));

    spec.expand_parameters().expect("expand parameters");

    let queue = spec
        .env
        .as_ref()
        .and_then(|env| env.iter().find(|(k, _)| k == "QUEUE"))
        .map(|(_, v)| v.as_str());
    assert_eq!(queue, Some("queue_gpu"));
}

#[test]
fn test_shared_parameters_selective_inheritance() {
    let mut job = JobSpec::new("job_{a}_{b}".to_string(), "echo {a} {b}".to_string());
    job.use_parameters = Some(vec!["a".to_string(), "b".to_string()]);
    let mut spec = WorkflowSpec::new(
        "selective_params_test".to_string(),
        "user".to_string(),
        Some("Test selective parameter inheritance".to_string()),
        vec![job],
    );
    spec.parameters = Some(params(&[("a", "1:2"), ("b", "3:4"), ("c", "5:6")]));

    spec.expand_parameters().expect("Failed to expand parameters");

    assert_eq!(spec.jobs.len(), 4);
    let names: Vec<&str> = spec.jobs.iter().map(|j| j.name.as_str()).collect();
    assert!(names.contains(&"job_1_3"));
    assert!(names.contains(&"job_1_4"));
    assert!(names.contains(&"job_2_3"));
    assert!(names.contains(&"job_2_4"));
}

#[test]
fn test_shared_parameters_with_files() {
    let mut job = JobSpec::new("job_{i}".to_string(), "process /data/file_{i}.txt".to_string());
    job.input_files = Some(vec!["file_{i}".to_string()]);
    job.use_parameters = Some(vec!["i".to_string()]);
    let mut spec = WorkflowSpec::new(
        "file_params_test".to_string(),
        "user".to_string(),
        Some("Test shared parameters with files".to_string()),
        vec![job],
    );
    spec.parameters = Some(params(&[("i", "1:2")]));
    let mut file = FileSpec::new("file_{i}".to_string(), "/data/file_{i}.txt".to_string());
    file.use_parameters = Some(vec!["i".to_string()]);
    spec.files = Some(vec![file]);

    spec.expand_parameters().expect("Failed to expand parameters");

    assert_eq!(spec.files.as_ref().unwrap().len(), 2);
    let file_names: Vec<&str> = spec.files.as_ref().unwrap().iter().map(|f| f.name.as_str()).collect();
    assert!(file_names.contains(&"file_1"));
    assert!(file_names.contains(&"file_2"));
    assert_eq!(spec.jobs.len(), 2);
}

#[test]
fn test_local_parameters_override_shared() {
    let mut job = JobSpec::new("job_{i}".to_string(), "echo {i}".to_string());
    job.parameters = Some(params(&[("i", "10:12")]));
    let mut spec = WorkflowSpec::new(
        "override_params_test".to_string(),
        "user".to_string(),
        Some("Test local parameters override shared".to_string()),
        vec![job],
    );
    spec.parameters = Some(params(&[("i", "1:5")]));

    spec.expand_parameters().expect("Failed to expand parameters");

    assert_eq!(spec.jobs.len(), 3);
    let names: Vec<&str> = spec.jobs.iter().map(|j| j.name.as_str()).collect();
    assert!(names.contains(&"job_10"));
    assert!(names.contains(&"job_11"));
    assert!(names.contains(&"job_12"));
}

#[test]
fn test_zip_parameter_mode_file_spec() {
    let job = JobSpec::new("dummy_job".to_string(), "echo dummy".to_string());
    let mut spec = WorkflowSpec::new("test_zip_file_parameters".to_string(), "user".to_string(), None, vec![job]);
    let mut file =
        FileSpec::new("data_{dataset}_{split}".to_string(), "/data/{dataset}/{split}.csv".to_string());
    file.parameters =
        Some(params(&[("dataset", "['train', 'test', 'val']"), ("split", "['2023', '2024', '2025']")]));
    file.parameter_mode = Some("zip".to_string());
    spec.files = Some(vec![file]);

    spec.expand_parameters().expect("Failed to expand parameters");

    let files = spec.files.as_ref().unwrap();
    assert_eq!(files.len(), 3);
    assert_eq!(files[0].name, "data_train_2023");
    assert_eq!(files[0].path, "/data/train/2023.csv");
    assert_eq!(files[1].name, "data_test_2024");
    assert_eq!(files[2].name, "data_val_2025");
}

#[test]
fn test_zip_parameter_mode_mismatched_lengths_error() {
    let mut job = JobSpec::new("job_{a}_{b}".to_string(), "echo {a} {b}".to_string());
    job.parameters = Some(params(&[("a", "[1, 2, 3]"), ("b", "['x', 'y']")]));
    job.parameter_mode = Some("zip".to_string());
    let mut spec = WorkflowSpec::new("test_zip_mismatched".to_string(), "user".to_string(), None, vec![job]);

    let result = spec.expand_parameters();
    assert!(result.is_err());
    assert!(result.unwrap_err().contains("same number of values"));
}

#[test]
fn test_product_parameter_mode_explicit() {
    let mut job = JobSpec::new("job_{a}_{b}".to_string(), "echo {a} {b}".to_string());
    job.parameters = Some(params(&[("a", "[1, 2]"), ("b", "['x', 'y']")]));
    job.parameter_mode = Some("product".to_string());
    let mut spec = WorkflowSpec::new("test_product_explicit".to_string(), "user".to_string(), None, vec![job]);

    spec.expand_parameters().expect("Failed to expand parameters");

    assert_eq!(spec.jobs.len(), 4);
}

#[test]
fn test_default_parameter_mode_is_product() {
    let mut job = JobSpec::new("job_{a}_{b}".to_string(), "echo {a} {b}".to_string());
    job.parameters = Some(params(&[("a", "[1, 2]"), ("b", "['x', 'y']")]));
    let mut spec = WorkflowSpec::new("test_default_mode".to_string(), "user".to_string(), None, vec![job]);

    spec.expand_parameters().expect("Failed to expand parameters");

    assert_eq!(spec.jobs.len(), 4);
}
