use torc_spec::sorted::table_column_names;
use torc_spec::combinations::{cartesian_product, combine_parameters, parse_parameter_map, zip_parameters};
use torc_spec::json::{json_value_kind, JsonValue};
use torc_spec::network::{bind_address, port_search_start, port_search_step, BindOutcome, PortStep};
use torc_spec::parameters::{parse_parameter_value, Decimal, ParameterValue};
use torc_spec::templates::{substitute_parameters, substitute_workflow_variables_in_string};
use torc_spec::text::is_identifier;
use torc_spec::variables::{check_undefined_tokens, check_variable_value_tokens};

fn pint(i: i64) -> ParameterValue {
    ParameterValue::Integer(i)
}

fn dec(m: i64, s: u32) -> ParameterValue {
    ParameterValue::Float(Decimal { mantissa: m, scale: s })
}

fn text(v: &ParameterValue) -> String {
    v.format(None)
}

#[test]
fn parameter_values_are_parsed_exactly() {
    let v = parse_parameter_value("1:5").unwrap();
    assert_eq!(v.iter().map(text).collect::<Vec<_>>(), vec!["1", "2", "3", "4", "5"]);
    let v = parse_parameter_value("10:1:-3").unwrap();
    assert_eq!(v.iter().map(text).collect::<Vec<_>>(), vec!["10", "7", "4", "1"]);
    let v = parse_parameter_value("0.0:0.3:0.1").unwrap();
    assert_eq!(v.iter().map(text).collect::<Vec<_>>(), vec!["0", "0.1", "0.2", "0.3"]);
    let v = parse_parameter_value("[a, 'b c', \"d\", 3, 2.50]").unwrap();
    assert_eq!(v.iter().map(text).collect::<Vec<_>>(), vec!["a", "b c", "d", "3", "2.5"]);
    let v = parse_parameter_value("  hello ").unwrap();
    assert_eq!(v.iter().map(text).collect::<Vec<_>>(), vec!["hello"]);
    assert_eq!(parse_parameter_value("[]").unwrap().len(), 0);
    assert_eq!(
        parse_parameter_value("a:b").unwrap_err(),
        "Invalid range format: 'a:b'. Expected 'start:end' or 'start:end:step'"
    );
    assert_eq!(
        parse_parameter_value("1:10:0").unwrap_err(),
        "Step cannot be zero in range '1:10:0'"
    );
}

#[test]
fn formats_pad_and_round() {
    assert_eq!(pint(7).format(Some("03d")), "007");
    assert_eq!(pint(-7).format(Some("04d")), "-007");
    assert_eq!(pint(42).format(Some("5")), "   42");
    assert_eq!(dec(125, 3).format(Some(".2f")), "0.12");
    assert_eq!(dec(135, 3).format(Some(".2f")), "0.14");
    assert_eq!(pint(3).format(Some(".1f")), "3.0");
    assert_eq!(dec(5, 1).format(Some("f")), "0.500000");
    assert_eq!(ParameterValue::String("ab".to_string()).format(Some("05d")), "ab");
    assert_eq!(dec(-1500, 3).format(None), "-1.5");
}

#[test]
fn substitution_replaces_bound_tokens_only() {
    let b = vec![("i".to_string(), pint(3)), ("name".to_string(), ParameterValue::String("x".to_string()))];
    assert_eq!(substitute_parameters("job_{i:02d}_{name}", &b), "job_03_x");
    assert_eq!(substitute_parameters("{other} {i} {", &b), "{other} 3 {");
    assert_eq!(substitute_parameters("${i}", &b), "$3");
    assert_eq!(substitute_workflow_variables_in_string("${i} {i}", &b), "${i} 3");
    let none: Vec<(String, ParameterValue)> = Vec::new();
    assert_eq!(substitute_parameters("keep {i} as is", &none), "keep {i} as is");
}

#[test]
fn combinations_in_product_and_zip_order() {
    let m = vec![("a".to_string(), "[1,2]".to_string()), ("b".to_string(), "[x,y,z]".to_string())];
    let ps = parse_parameter_map(&m).unwrap();
    let prod = cartesian_product(&ps);
    assert_eq!(prod.len(), 6);
    assert_eq!(text(&prod[0][0].1), "1");
    assert_eq!(text(&prod[0][1].1), "x");
    assert_eq!(text(&prod[1][1].1), "y");
    assert_eq!(text(&prod[3][0].1), "2");
    assert_eq!(
        zip_parameters(&ps).unwrap_err(),
        "All parameters must have the same number of values in zip mode"
    );
    let m2 = vec![("a".to_string(), "[1,2]".to_string()), ("b".to_string(), "[x,y]".to_string())];
    let z = combine_parameters(&m2, &Some("zip".to_string())).unwrap();
    assert_eq!(z.len(), 2);
    assert_eq!(text(&z[1][0].1), "2");
    assert_eq!(text(&z[1][1].1), "y");
    let none: Vec<(String, String)> = Vec::new();
    assert_eq!(combine_parameters(&none, &None).unwrap().len(), 1);
}

#[test]
fn variable_values_must_be_literals() {
    let vars = vec![("base".to_string(), ParameterValue::String("/data".to_string()))];
    assert_eq!(check_variable_value_tokens("dir", "/plain/${HOME}", &vars), Ok(()));
    assert_eq!(
        check_variable_value_tokens("dir", "{base}/x", &vars),
        Err("variable 'dir' value '{base}/x' references another variable '{base}'. Variable values may not reference other variables; resolution order would be undefined. Inline the constant or compose at the use site.".to_string())
    );
    assert_eq!(
        check_variable_value_tokens("dir", "run_{i:03d}", &vars),
        Err("variable 'dir' value 'run_{i:03d}' contains template reference '{i:03d}'. Variable values must be plain literal strings (shell-style `${...}` is allowed). Compose at the use site instead.".to_string())
    );
    assert_eq!(check_variable_value_tokens("dir", "{:>5} {\"x\": 1}", &vars), Ok(()));
}

#[test]
fn undefined_tokens_are_reported() {
    let valid = vec!["i".to_string(), "base".to_string()];
    assert_eq!(check_undefined_tokens("{base}/{i:02d} ${HOME}", &valid), Ok(()));
    assert_eq!(
        check_undefined_tokens("echo {bse}", &valid),
        Err("undefined template name '{bse}' in 'echo {bse}': not declared in `variables` or any `parameters` map. Add it to `variables` or fix the typo.".to_string())
    );
    assert!(is_identifier("_a1"));
    assert!(!is_identifier("1a"));
}

#[test]
fn json_kinds() {
    assert_eq!(json_value_kind(&JsonValue::Null), "null");
    assert_eq!(json_value_kind(&JsonValue::Bool(true)), "boolean");
    assert_eq!(json_value_kind(&JsonValue::Number("1".to_string())), "number");
    assert_eq!(json_value_kind(&JsonValue::Array(vec![])), "array");
    assert_eq!(json_value_kind(&JsonValue::Object(vec![])), "object");
}

#[test]
fn port_search_walks_consecutive_ports() {
    let s = port_search_start(8080);
    assert_eq!(bind_address("127.0.0.1", s.port), "127.0.0.1:8080");
    let next = match port_search_step(s, "127.0.0.1", BindOutcome::AddressInUse("in use".to_string())) {
        PortStep::TryNext(n) => n,
        other => panic!("unexpected {other:?}"),
    };
    assert_eq!(next.port, 8081);
    assert_eq!(next.attempts, 1);
    match port_search_step(next, "127.0.0.1", BindOutcome::Bound) {
        PortStep::Bound(p) => assert_eq!(p, 8081),
        other => panic!("unexpected {other:?}"),
    }
    match port_search_step(next, "h", BindOutcome::Failed("denied".to_string())) {
        PortStep::GiveUp(m) => assert_eq!(m, "Failed to bind to h:8081: denied"),
        other => panic!("unexpected {other:?}"),
    }
}

#[test]
fn port_search_gives_up() {
    let mut s = port_search_start(19000);
    for _ in 0..99 {
        if let PortStep::TryNext(n) = port_search_step(s, "h", BindOutcome::AddressInUse("busy".to_string())) {
            s = n;
        }
    }
    assert_eq!(s.attempts, 99);
    match port_search_step(s, "h", BindOutcome::AddressInUse("busy".to_string())) {
        PortStep::GiveUp(m) => assert_eq!(
            m,
            "Failed to find available port after 100 attempts (tried ports 19000-19099): busy"
        ),
        other => panic!("unexpected {other:?}"),
    }
    let top = port_search_start(65535);
    match port_search_step(top, "h", BindOutcome::AddressInUse("busy".to_string())) {
        PortStep::GiveUp(m) => {
            assert_eq!(m, "Port number reached maximum value while searching for available port")
        }
        other => panic!("unexpected {other:?}"),
    }
}

#[test]
fn table_columns_are_sorted_and_listed_once() {
    let rows = vec![
        vec![("lr".to_string(), pint(1)), ("batch".to_string(), pint(2))],
        vec![("batch".to_string(), pint(3)), ("epochs".to_string(), pint(4)), ("Lr".to_string(), pint(5))],
    ];
    assert_eq!(
        table_column_names(&rows),
        vec!["Lr".to_string(), "batch".to_string(), "epochs".to_string(), "lr".to_string()]
    );
    assert!(table_column_names(&Vec::new()).is_empty());
}
