use torc_spec::json::JsonValue;
use torc_spec::workflow_variables::{apply_workflow_variables, read_spec_value};

fn to_json(v: &serde_json::Value) -> JsonValue {
    match v {
        serde_json::Value::Null => JsonValue::Null,
        serde_json::Value::Bool(b) => JsonValue::Bool(*b),
        serde_json::Value::Number(n) => JsonValue::Number(n.to_string()),
        serde_json::Value::String(s) => JsonValue::String(s.clone()),
        serde_json::Value::Array(items) => JsonValue::Array(items.iter().map(to_json).collect()),
        serde_json::Value::Object(m) => {
            JsonValue::Object(m.iter().map(|(k, v)| (k.clone(), to_json(v))).collect())
        }
    }
}

fn apply_yaml(yaml: &str, tables: Vec<(String, Vec<String>)>) -> Result<JsonValue, String> {
    let value: serde_json::Value = serde_yaml::from_str(yaml).expect("test YAML parses");
    apply_workflow_variables(to_json(&value), &tables)
}

fn member<'a>(v: &'a JsonValue, path: &[&str]) -> &'a JsonValue {
    let mut cur = v;
    for step in path {
        cur = match (cur, step.parse::<usize>()) {
            (JsonValue::Array(items), Ok(i)) => &items[i],
            _ => cur.get(step).unwrap_or_else(|| panic!("no member {}", step)),
        };
    }
    cur
}

fn text<'a>(v: &'a JsonValue, path: &[&str]) -> &'a str {
    member(v, path).as_str().expect("a string")
}

#[test]
fn test_workflow_variables_substitute_into_strings() {
    let yaml = r#"
name: vars_demo
variables:
  base_path: /scratch/proj
  image: pytorch:2.4
jobs:
  - name: train
    command: "{base_path}/run.sh --img {image}"
files:
  - name: out
    path: "{base_path}/out.txt"
"#;
    let spec = apply_yaml(yaml, vec![]).expect("variables substitution should succeed");
    assert_eq!(
        text(&spec, &["jobs", "0", "command"]),
        "/scratch/proj/run.sh --img pytorch:2.4"
    );
    assert_eq!(text(&spec, &["files", "0", "path"]), "/scratch/proj/out.txt");
    assert_eq!(text(&spec, &["variables", "base_path"]), "/scratch/proj");
}

#[test]
fn test_workflow_variables_combined_with_parameters() {
    let yaml = r#"
name: vars_and_params
variables:
  base_path: /scratch/proj
jobs:
  - name: "job_{i:03d}"
    command: "{base_path}/run.sh --idx {i}"
    parameters:
      i: "1:3"
"#;
    let spec = apply_yaml(yaml, vec![]).expect("variables + parameters should parse");
    assert_eq!(text(&spec, &["jobs", "0", "name"]), "job_{i:03d}");
    assert_eq!(
        text(&spec, &["jobs", "0", "command"]),
        "/scratch/proj/run.sh --idx {i}"
    );
    assert_eq!(text(&spec, &["jobs", "0", "parameters", "i"]), "1:3");
}

#[test]
fn test_workflow_variables_with_local_parameters_file() {
    let yaml = r#"
name: vars_and_table
variables:
  base: /scratch/proj
jobs:
  - name: "job_{tag}"
    command: "{base}/train.sh --lr {lr} --tag {tag}"
    parameters_file: "/tmp/sweep.csv"
"#;
    let tables = vec![(
        "/tmp/sweep.csv".to_string(),
        vec!["lr".to_string(), "tag".to_string()],
    )];
    let spec = apply_yaml(yaml, tables)
        .expect("variables + local parameters_file should parse without undefined-token error");
    assert_eq!(
        text(&spec, &["jobs", "0", "command"]),
        "/scratch/proj/train.sh --lr {lr} --tag {tag}"
    );
}

#[test]
fn test_workflow_variables_with_shared_parameters_file() {
    let yaml = r#"
name: vars_and_shared_table
variables:
  base: /scratch/proj
parameters_file: "/tmp/regions.csv"
jobs:
  - name: "job_{region}"
    command: "{base}/run.sh --region {region}"
    use_parameters_file: true
"#;
    let tables = vec![("/tmp/regions.csv".to_string(), vec!["region".to_string()])];
    let spec = apply_yaml(yaml, tables).expect(
        "variables + shared parameters_file should parse without undefined-token error",
    );
    assert_eq!(
        text(&spec, &["jobs", "0", "command"]),
        "/scratch/proj/run.sh --region {region}"
    );
}

#[test]
fn test_workflow_variables_with_variable_in_parameters_file_path() {
    let yaml = r#"
name: var_in_path
variables:
  data_dir: "/tmp/data"
jobs:
  - name: "job_{lr}"
    command: "train.sh --lr {lr}"
    parameters_file: "{data_dir}/sweep.csv"
"#;
    let tables = vec![("/tmp/data/sweep.csv".to_string(), vec!["lr".to_string()])];
    let spec = apply_yaml(yaml, tables)
        .expect("a variable in the parameters_file path must not cause a spurious read error");
    assert_eq!(
        text(&spec, &["jobs", "0", "parameters_file"]),
        "/tmp/data/sweep.csv"
    );
    assert_eq!(text(&spec, &["jobs", "0", "command"]), "train.sh --lr {lr}");
}

#[test]
fn test_workflow_variables_with_heterogeneous_json_table() {
    let yaml = r#"
name: heterogeneous_table
variables:
  base: /scratch/proj
jobs:
  - name: "job_{tag}"
    command: "{base}/run.sh --tag {tag} --extra {extra}"
    parameters_file: "/tmp/rows.json"
"#;
    let tables = vec![(
        "/tmp/rows.json".to_string(),
        vec!["extra".to_string(), "tag".to_string()],
    )];
    let spec = apply_yaml(yaml, tables)
        .expect("columns present only in later JSON rows must be recognized as valid tokens");
    assert_eq!(
        text(&spec, &["jobs", "0", "command"]),
        "/scratch/proj/run.sh --tag {tag} --extra {extra}"
    );
}

#[test]
fn test_workflow_variables_collide_with_parameter_name() {
    let yaml = r#"
name: collision
variables:
  i: not_an_index
jobs:
  - name: "job_{i}"
    command: "echo {i}"
    parameters:
      i: "1:3"
"#;
    let msg = apply_yaml(yaml, vec![]).expect_err("collision must be rejected");
    assert!(
        msg.contains("collide with parameter names"),
        "expected collision error, got: {msg}"
    );
    assert!(msg.contains('i'), "expected colliding name 'i', got: {msg}");
}

#[test]
fn test_workflow_variables_undefined_token_rejected() {
    let yaml = r#"
name: typo
variables:
  base_path: /scratch/proj
jobs:
  - name: train
    command: "{baes_path}/run.sh"
"#;
    let msg = apply_yaml(yaml, vec![]).expect_err("undefined token must be rejected");
    assert!(
        msg.contains("undefined template name"),
        "expected undefined-token error, got: {msg}"
    );
    assert!(msg.contains("baes_path"), "error should name the typo: {msg}");
}

#[test]
fn test_workflow_variables_substitute_into_parameter_value() {
    let yaml = r#"
name: var_in_param_value
variables:
  n_max: "5"
jobs:
  - name: "job_{i}"
    command: "echo {i}"
    parameters:
      i: "1:{n_max}"
"#;
    let spec = apply_yaml(yaml, vec![])
        .expect("variable inside parameter value should be substituted");
    assert_eq!(text(&spec, &["jobs", "0", "parameters", "i"]), "1:5");
}

#[test]
fn test_workflow_variables_substitute_into_env_and_scheduler() {
    let yaml = r#"
name: env_and_scheduler
variables:
  proj: my_project
env:
  PROJECT: "{proj}"
jobs:
  - name: t
    command: echo
    scheduler: "{proj}_sched"
slurm_schedulers:
  - name: "{proj}_sched"
    account: "{proj}"
    partition: short
    walltime: "PT1H"
    nodes: 1
"#;
    let spec = apply_yaml(yaml, vec![]).expect("variables in env and scheduler should substitute");
    assert_eq!(text(&spec, &["env", "PROJECT"]), "my_project");
    assert_eq!(text(&spec, &["jobs", "0", "scheduler"]), "my_project_sched");
    assert_eq!(text(&spec, &["slurm_schedulers", "0", "name"]), "my_project_sched");
    assert_eq!(text(&spec, &["slurm_schedulers", "0", "account"]), "my_project");
}

#[test]
fn test_workflow_variables_does_not_reject_shell_style_expansion() {
    let yaml = r#"
name: shell_vars_ok
variables:
  base_path: /scratch/proj
jobs:
  - name: t
    command: "echo ${TORC_JOB_ID} ${HOME} {base_path}/run.sh"
    env:
      OUT: "${TORC_JOB_ID}.log"
"#;
    let spec = apply_yaml(yaml, vec![])
        .expect("shell-style ${...} must not trigger undefined-token errors");
    assert_eq!(
        text(&spec, &["jobs", "0", "command"]),
        "echo ${TORC_JOB_ID} ${HOME} /scratch/proj/run.sh"
    );
    assert_eq!(text(&spec, &["jobs", "0", "env", "OUT"]), "${TORC_JOB_ID}.log");
}

#[test]
fn test_workflow_variables_undefined_token_inside_variable_value() {
    let yaml = r#"
name: typo_in_var_value
variables:
  base_path: /scratch/proj
  bad: "{baes_path}/sub"
jobs:
  - name: t
    command: "echo {bad}"
"#;
    let msg = apply_yaml(yaml, vec![]).expect_err("typo inside a variable value must be rejected");
    assert!(
        msg.contains("variable 'bad'"),
        "error should name the offending variable, got: {msg}"
    );
    assert!(msg.contains("baes_path"), "error should name the typo, got: {msg}");
}

#[test]
fn test_workflow_variables_substitution_preserves_shell_expansion_with_colliding_name() {
    let yaml = r#"
name: shell_collision
variables:
  HOME: /should/not/leak
  base: /scratch/proj
jobs:
  - name: t
    command: "echo ${HOME} {base}/run.sh"
    env:
      OUT_DIR: "${HOME}-{base}"
"#;
    let spec = apply_yaml(yaml, vec![]).expect("variable named HOME must not corrupt ${HOME}");
    assert_eq!(
        text(&spec, &["jobs", "0", "command"]),
        "echo ${HOME} /scratch/proj/run.sh"
    );
    assert_eq!(
        text(&spec, &["jobs", "0", "env", "OUT_DIR"]),
        "${HOME}-/scratch/proj"
    );
}

#[test]
fn test_workflow_variables_value_with_parameter_reference_rejected() {
    let yaml = r#"
name: param_ref_in_var_value
variables:
  output_pattern: "results-{i}.json"
jobs:
  - name: "job_{i}"
    command: "echo {output_pattern}"
    parameters:
      i: "1:3"
"#;
    let msg = apply_yaml(yaml, vec![])
        .expect_err("parameter reference inside a variable value must be rejected");
    assert!(
        msg.contains("must be plain literal strings"),
        "expected literal-only error, got: {msg}"
    );
    assert!(
        msg.contains("variable 'output_pattern'"),
        "error should name the offending variable, got: {msg}"
    );
}

#[test]
fn test_workflow_variables_value_referencing_another_variable_rejected() {
    let yaml = r#"
name: nested_vars_rejected
variables:
  base: /scratch
  inputs: "{base}/inputs"
jobs:
  - name: t
    command: "ls {inputs}"
"#;
    let msg = apply_yaml(yaml, vec![])
        .expect_err("variable referencing another variable must be rejected");
    assert!(
        msg.contains("references another variable"),
        "expected explicit cross-variable error, got: {msg}"
    );
    assert!(
        msg.contains("variable 'inputs'") && msg.contains("{base}"),
        "error should name both the variable and its bad reference, got: {msg}"
    );
}

#[test]
fn test_workflow_variables_invalid_name_rejected() {
    let yaml = r#"
name: bad_var_name
variables:
  "foo.bar": x
jobs:
  - name: t
    command: echo
"#;
    let msg = apply_yaml(yaml, vec![]).expect_err("non-identifier variable name must be rejected");
    assert!(
        msg.contains("must be a valid identifier"),
        "expected identifier-validation error, got: {msg}"
    );
    assert!(msg.contains("foo.bar"), "error should name the offending name, got: {msg}");
}

#[test]
fn specifications_without_variables_are_kept() {
    let spec = apply_yaml("name: plain\njobs:\n  - name: t\n    command: \"echo {x}\"\n", vec![])
        .expect("nothing to apply");
    assert_eq!(text(&spec, &["jobs", "0", "command"]), "echo {x}");
}

#[test]
fn variables_must_be_an_object_of_strings() {
    let msg = apply_yaml("name: w\nvariables: [1, 2]\n", vec![]).unwrap_err();
    assert_eq!(msg, "workflow `variables` must be an object of string key/value pairs");
    let msg = apply_yaml("name: w\nvariables:\n  n: 3\n", vec![]).unwrap_err();
    assert_eq!(msg, "workflow variable 'n' must be a string (got number)");
}

#[test]
fn use_parameters_entries_are_not_substituted() {
    let yaml = r#"
name: w
variables:
  v: value
parameters:
  p: "1:2"
jobs:
  - name: "job_{p}"
    command: "echo {v} {p}"
    use_parameters: ["{v}"]
"#;
    let spec = apply_yaml(yaml, vec![]).expect("applies");
    assert_eq!(text(&spec, &["jobs", "0", "command"]), "echo value {p}");
    assert_eq!(text(&spec, &["jobs", "0", "use_parameters", "0"]), "{v}");
}

#[test]
fn slurm_config_field_is_refused_with_pointer_to_execution_config() {
    let value: serde_json::Value = serde_yaml::from_str("name: w\nslurm_config:\n  use_srun: true\njobs: []\n").unwrap();
    let err = read_spec_value(to_json(&value), &Vec::new()).unwrap_err();
    assert_eq!(
        err,
        "The 'slurm_config' field has been removed from the workflow spec. Use 'execution_config' instead."
    );
}

#[test]
fn spec_value_without_removed_field_has_variables_applied() {
    let value: serde_json::Value =
        serde_yaml::from_str("name: w\nvariables:\n  X: one\njobs:\n  - name: j\n    command: \"echo {X}\"\n").unwrap();
    let out = read_spec_value(to_json(&value), &Vec::new()).unwrap();
    assert_eq!(text(&out, &["jobs", "0", "command"]), "echo one");
}
