use torc_spec::json::JsonValue;
use torc_spec::parity::{
    check_component_properties, check_operation_id, check_schema_properties, parity_checks,
    parity_report, source_operation_id, ParityCheck,
};

fn obj(entries: Vec<(&str, JsonValue)>) -> JsonValue {
    JsonValue::Object(entries.into_iter().map(|(k, v)| (k.to_string(), v)).collect())
}

fn s(v: &str) -> JsonValue {
    JsonValue::String(v.to_string())
}

fn props(names: &[String]) -> JsonValue {
    JsonValue::Object(names.iter().map(|n| (n.clone(), obj(vec![]))).collect())
}

type Paths = Vec<(String, Vec<(String, Option<String>, Option<Vec<String>>)>)>;

fn entry<'a>(
    paths: &'a mut Paths,
    path: &str,
    method: &str,
) -> &'a mut (String, Option<String>, Option<Vec<String>>) {
    let pi = match paths.iter().position(|(p, _)| p == path) {
        Some(i) => i,
        None => {
            paths.push((path.to_string(), Vec::new()));
            paths.len() - 1
        }
    };
    let ms = &mut paths[pi].1;
    let mi = match ms.iter().position(|(m, _, _)| m == method) {
        Some(i) => i,
        None => {
            ms.push((method.to_string(), None, None));
            ms.len() - 1
        }
    };
    &mut ms[mi]
}

/// Writes a YAML source and an emitted document that agree with every check.
fn documents_for(checks: &[ParityCheck]) -> (String, JsonValue) {
    // path -> [(method, operation id, response properties)]
    let mut paths: Paths = Vec::new();
    let mut components: Vec<(String, Vec<String>)> = Vec::new();
    for c in checks {
        match c {
            ParityCheck::Operation { path, method, expected } => {
                entry(&mut paths, path, method).1 = Some(expected.clone());
            }
            ParityCheck::ResponseSchema { path, method, properties } => {
                entry(&mut paths, path, method).2 = Some(properties.clone());
            }
            ParityCheck::Component { schema, properties } => {
                match components.iter_mut().find(|(n, _)| n == schema) {
                    Some((_, ps)) => ps.extend(properties.iter().cloned()),
                    None => components.push((schema.clone(), properties.clone())),
                }
            }
        }
    }
    let mut source = String::from("openapi: 3.1.0\npaths:\n");
    let mut emitted_paths = Vec::new();
    for (path, methods) in &paths {
        source.push_str(&format!("  {}:\n", path));
        let mut ops = Vec::new();
        for (method, id, response) in methods {
            source.push_str(&format!("    {}:\n", method));
            let mut op = Vec::new();
            if let Some(id) = id {
                source.push_str(&format!("      operationId: {}\n", id));
                op.push(("operationId", s(id)));
            }
            if let Some(ps) = response {
                op.push((
                    "responses",
                    obj(vec![(
                        "200",
                        obj(vec![(
                            "content",
                            obj(vec![("application/json", obj(vec![("schema", obj(vec![("properties", props(ps))]))]))]),
                        )]),
                    )]),
                ));
            }
            ops.push((method.clone(), obj(op)));
        }
        emitted_paths.push((path.clone(), JsonValue::Object(ops)));
    }
    let schemas: Vec<(String, JsonValue)> =
        components.iter().map(|(n, ps)| (n.clone(), obj(vec![("properties", props(ps))]))).collect();
    let emitted = obj(vec![
        ("paths", JsonValue::Object(emitted_paths)),
        ("components", obj(vec![("schemas", JsonValue::Object(schemas))])),
    ]);
    (source, emitted)
}

#[test]
fn parity_check_accepts_current_system_endpoints() {
    let checks = parity_checks();
    let (source, emitted) = documents_for(&checks);
    let issues = parity_report(&source, &emitted);
    assert!(issues.is_empty(), "unexpected parity issues: {issues:?}");
}

#[test]
fn parity_table_covers_the_documented_surfaces() {
    let checks = parity_checks();
    assert_eq!(checks.len(), 185);
    let ops = checks.iter().filter(|c| matches!(c, ParityCheck::Operation { .. })).count();
    assert_eq!(ops, 122);
    match &checks[0] {
        ParityCheck::Operation { path, method, expected } => {
            assert_eq!(path, "/ping");
            assert_eq!(method, "get");
            assert_eq!(expected, "ping");
        }
        other => panic!("unexpected first check {other:?}"),
    }
}

#[test]
fn source_operation_id_reads_the_method_section() {
    let source = "paths:\n  /ping:\n    get:\n      operationId: ping\n    post:\n      operationId:  make_ping \n  /other:\n    get:\n      operationId: other\n";
    assert_eq!(source_operation_id(source, "/ping", "get").as_deref(), Some("ping"));
    assert_eq!(source_operation_id(source, "/ping", "post").as_deref(), Some("make_ping"));
    assert_eq!(source_operation_id(source, "/ping", "put"), None);
    assert_eq!(source_operation_id(source, "/missing", "get"), None);
    assert_eq!(source_operation_id(source, "/other", "get").as_deref(), Some("other"));
    let crlf = "  /x:\r\n    get:\r\n      operationId: xid\r\n";
    assert_eq!(source_operation_id(crlf, "/x", "get").as_deref(), Some("xid"));
}

#[test]
fn operation_mismatches_are_reported_for_each_document() {
    let emitted = obj(vec![(
        "paths",
        obj(vec![("/ping", obj(vec![("get", obj(vec![("operationId", s("pong"))]))]))]),
    )]);
    let mut issues = Vec::new();
    check_operation_id("", &emitted, "/ping", "get", "ping", &mut issues);
    assert_eq!(
        issues,
        vec![
            "source operationId mismatch for get /ping: expected ping, found None".to_string(),
            "emitted operationId mismatch for get /ping: expected ping, found Some(\"pong\")"
                .to_string(),
        ]
    );
}

#[test]
fn schema_and_component_issues_name_what_is_missing() {
    let doc = obj(vec![
        (
            "paths",
            obj(vec![(
                "/v",
                obj(vec![(
                    "get",
                    obj(vec![(
                        "responses",
                        obj(vec![(
                            "200",
                            obj(vec![(
                                "content",
                                obj(vec![(
                                    "application/json",
                                    obj(vec![("schema", obj(vec![("$ref", s("#/components/schemas/V"))]))]),
                                )]),
                            )]),
                        )]),
                    )]),
                )]),
            )]),
        ),
        (
            "components",
            obj(vec![("schemas", obj(vec![("V", obj(vec![("properties", obj(vec![("a", obj(vec![]))]))]))]))]),
        ),
    ]);
    let mut issues = Vec::new();
    check_schema_properties(&doc, "/v", "get", &vec!["a".to_string(), "b".to_string()], &mut issues);
    assert_eq!(issues, vec!["emitted schema for get /v missing property b".to_string()]);

    let mut issues = Vec::new();
    check_schema_properties(&doc, "/w", "get", &vec!["a".to_string()], &mut issues);
    assert_eq!(issues, vec!["emitted schema missing for get /w 200 response".to_string()]);

    let mut issues = Vec::new();
    check_component_properties(&doc, "V", &vec!["c".to_string()], &mut issues);
    check_component_properties(&doc, "Nope", &vec!["c".to_string()], &mut issues);
    assert_eq!(
        issues,
        vec![
            "emitted component V missing property c".to_string(),
            "emitted component schema missing: Nope".to_string(),
        ]
    );
}

#[test]
fn with_a_passing_emitted_document_only_source_mismatches_remain() {
    let checks = parity_checks();
    let (source, emitted) = documents_for(&checks);
    let source = source
        .replacen("      operationId: get_version\n", "      operationId: version\n", 1)
        .replacen("      operationId: create_jobs\n", "", 1);
    let issues = parity_report(&source, &emitted);
    assert_eq!(
        issues,
        vec![
            "source operationId mismatch for get /version: expected get_version, found Some(\"version\")".to_string(),
            "source operationId mismatch for post /bulk_jobs: expected create_jobs, found None".to_string(),
        ]
    );
}
