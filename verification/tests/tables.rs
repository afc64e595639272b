use torc_spec::json::JsonValue;
use torc_spec::parameters::{Decimal, ParameterValue};
use torc_spec::tables::{csv_parameter_table, json_parameter_table};

fn row(pairs: Vec<(&str, ParameterValue)>) -> Vec<(String, ParameterValue)> {
    pairs.into_iter().map(|(k, v)| (k.to_string(), v)).collect()
}

#[test]
fn csv_tables_read_header_then_rows() {
    let text = "lr, batch ,name\r\n0.1,32,a\n\n  \n0.01 , 64\n";
    let rows = csv_parameter_table(text);
    assert_eq!(
        rows,
        vec![
            row(vec![
                ("lr", ParameterValue::Float(Decimal { mantissa: 1, scale: 1 })),
                ("batch", ParameterValue::Integer(32)),
                ("name", ParameterValue::String("a".to_string())),
            ]),
            row(vec![
                ("lr", ParameterValue::Float(Decimal { mantissa: 1, scale: 2 })),
                ("batch", ParameterValue::Integer(64)),
            ]),
        ]
    );
    assert!(csv_parameter_table(" \n\n").is_empty());
    assert!(csv_parameter_table("a,b\n").is_empty());
}

#[test]
fn json_tables_are_arrays_of_objects() {
    let rows = json_parameter_table(r#"[{"b": 2, "a": "x"}, {"c": true, "d": [1, 2]}]"#).unwrap();
    assert_eq!(
        rows,
        vec![
            row(vec![("a", ParameterValue::String("x".to_string())), ("b", ParameterValue::Integer(2))]),
            row(vec![
                ("c", ParameterValue::String("true".to_string())),
                ("d", ParameterValue::String("[1,2]".to_string())),
            ]),
        ]
    );
    assert_eq!(
        json_parameter_table(r#"{"a": 1}"#),
        Err("a JSON parameter table must be an array of objects".to_string())
    );
    assert!(json_parameter_table("[1,").is_err());
}

#[test]
fn table_paths_are_substituted_and_listed_once() {
    let s = |t: &str| JsonValue::String(t.to_string());
    let obj = |v: Vec<(&str, JsonValue)>| JsonValue::Object(v.into_iter().map(|(k, x)| (k.to_string(), x)).collect());
    let value = obj(vec![
        ("variables", obj(vec![("dir", s("/data")), ("n", JsonValue::Number("3".to_string()))])),
        ("parameters_file", s("{dir}/shared.csv")),
        ("jobs", JsonValue::Array(vec![
            obj(vec![("name", s("a")), ("parameters_file", s("{dir}/shared.csv"))]),
            obj(vec![("name", s("b")), ("parameters_file", s("{dir}/b.json"))]),
            obj(vec![("name", s("c"))]),
        ])),
        ("user_data", JsonValue::Array(vec![obj(vec![("parameters_file", s("{n}/u.csv"))])])),
    ]);
    assert_eq!(
        torc_spec::tables::table_paths_of(&value),
        vec!["/data/shared.csv".to_string(), "/data/b.json".to_string(), "{n}/u.csv".to_string()]
    );
}
