use torc_spec::json::JsonValue;
use torc_spec::spec_text::{
    detect_spec_format, kdl_spec_value, parse_json5_text, parse_json_text, parse_yaml_text,
    spec_value_any_format, spec_value_from_text, stdin_spec_extension,
};

fn field<'a>(v: &'a JsonValue, key: &str) -> &'a JsonValue {
    v.get(key).unwrap_or_else(|| panic!("no field {}", key))
}

fn items(v: &JsonValue) -> &Vec<JsonValue> {
    match v {
        JsonValue::Array(items) => items,
        other => panic!("not an array: {:?}", other),
    }
}

#[test]
fn test_detect_spec_format() {
    assert_eq!(detect_spec_format(r#"{"name": "wf", "jobs": []}"#), Some("json"));
    assert_eq!(detect_spec_format("{ name: 'wf', /* c */ jobs: [], }"), Some("json5"));
    assert_eq!(detect_spec_format("name: wf\njobs:\n  - name: a\n    command: echo"), Some("yaml"));
    assert_eq!(detect_spec_format("name \"wf\"\njobs {\n  job name=\"a\"\n}"), Some("kdl"));
}

#[test]
fn a_document_that_is_no_object_is_not_detected_as_json() {
    // A YAML scalar is no specification; the text is then tried as KDL.
    assert_eq!(detect_spec_format("[1, 2]"), None);
    assert_eq!(detect_spec_format("job {\n"), None);
}

#[test]
fn the_three_parsers_give_the_same_value() {
    let j = parse_json_text(r#"{"name": "wf", "n": 3, "ok": true, "xs": [1, "a", null]}"#).unwrap();
    let j5 = parse_json5_text("{name: 'wf', n: 3, ok: true, xs: [1, 'a', null],}").unwrap();
    let y = parse_yaml_text("name: wf\nn: 3\nok: true\nxs: [1, a, null]\n").unwrap();
    assert_eq!(j, j5);
    assert_eq!(j, y);
    assert_eq!(field(&j, "n"), &JsonValue::Number("3".to_string()));
    assert!(parse_json_text("{name: 1}").is_err());
}

#[test]
fn named_formats_are_read_in_any_case() {
    let v = spec_value_from_text("name: wf\n", "YML").unwrap();
    assert_eq!(field(&v, "name"), &JsonValue::String("wf".to_string()));
    let v = spec_value_from_text("{\"name\": \"wf\"}", "Json").unwrap();
    assert_eq!(field(&v, "name"), &JsonValue::String("wf".to_string()));
    let v = spec_value_from_text("name \"wf\"\n", "KDL").unwrap();
    assert_eq!(field(&v, "name"), &JsonValue::String("wf".to_string()));
}

#[test]
fn an_unknown_format_is_refused() {
    assert_eq!(spec_value_from_text("{}", "toml"), Err("Unknown format: toml".to_string()));
}

#[test]
fn json_errors_carry_the_parser_message() {
    let e = spec_value_from_text("{", "json").unwrap_err();
    assert_eq!(e, "EOF while parsing an object at line 1 column 1");
}

#[test]
fn kdl_user_data_is_read_as_json() {
    let content = "name \"wf\"\nuser_data \"a\" {\n    data \"{\\\"x\\\": 1}\"\n}\nuser_data \"b\" {\n    data \"[1, 2]\"\n}\n";
    let v = kdl_spec_value(content).unwrap();
    let uds = items(field(&v, "user_data"));
    assert_eq!(uds.len(), 2);
    assert_eq!(field(&uds[0], "data"), &JsonValue::Object(vec![("x".to_string(), JsonValue::Number("1".to_string()))]));
    assert_eq!(
        field(&uds[1], "data"),
        &JsonValue::Array(vec![JsonValue::Number("1".to_string()), JsonValue::Number("2".to_string())])
    );
}

#[test]
fn the_first_user_data_text_that_is_no_json_is_the_error() {
    let content = "user_data \"a\" {\n data \"oops\"\n}\njob {\n}\n";
    let e = kdl_spec_value(content).unwrap_err();
    assert_eq!(e, parse_json_text("oops").unwrap_err());
}

#[test]
fn text_of_no_named_format_falls_back_in_order() {
    let v = spec_value_any_format("[1]").unwrap();
    assert_eq!(v, JsonValue::Array(vec![JsonValue::Number("1".to_string())]));
    let v = spec_value_any_format("{a: 1}").unwrap();
    assert_eq!(field(&v, "a"), &JsonValue::Number("1".to_string()));
    let v = spec_value_any_format("a: b\n").unwrap();
    assert_eq!(field(&v, "a"), &JsonValue::String("b".to_string()));
}

#[test]
fn standard_input_gets_the_extension_of_its_format() {
    assert_eq!(stdin_spec_extension("  \n\t"), Err("workflow spec read from stdin is empty".to_string()));
    assert_eq!(stdin_spec_extension("name: wf\n"), Ok("yaml"));
    assert_eq!(stdin_spec_extension("name \"wf\"\n"), Ok("kdl"));
    assert_eq!(
        stdin_spec_extension("job {\n"),
        Err("unable to detect the format of the workflow spec read from stdin (expected JSON, JSON5, YAML, or KDL)".to_string())
    );
}
