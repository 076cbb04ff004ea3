use cli_utils::error::CliError;
use cli_utils::json::{json_option_str, read_json, view_json_option_str, write_json, Json};
use serde_json::Value;

fn value(text: &str) -> Value {
    serde_json::from_str(text).unwrap()
}

fn unexpected(text: &str) -> String {
    match view_json_option_str(&value(text)) {
        Err(CliError::UnexpectedError(message)) => message,
        other => panic!("{:?}", other),
    }
}

#[test]
fn option_with_a_string() {
    let res = view_json_option_str(&value("{\"vec\":[\"a string\"]}"));
    assert_eq!(res.unwrap(), Some("a string".to_string()));
}

#[test]
fn option_without_a_string() {
    assert_eq!(view_json_option_str(&value("{\"vec\":[]}")).unwrap(), None);
}

#[test]
fn option_among_other_fields() {
    let res = view_json_option_str(&value("{\"a\":1,\"vec\":[\"s\"],\"b\":null}"));
    assert_eq!(res.unwrap(), Some("s".to_string()));
}

#[test]
fn option_with_more_than_one_element() {
    assert_eq!(
        unexpected("{\"vec\":[\"a\",1,null]}"),
        "JSON `vec` array has more than one element: [String(\"a\"), Number(1), Null]",
    );
    assert_eq!(
        unexpected("{\"vec\":[{\"b\":[true],\"a\":1.50},\"\"]}"),
        format!(
            "JSON `vec` array has more than one element: {:?}",
            vec![value("{\"b\":[true],\"a\":1.50}"), value("\"\"")],
        ),
    );
}

#[test]
fn option_that_is_no_string() {
    assert_eq!(unexpected("{\"vec\":[12]}"), "JSON option is not a string: 12");
    assert_eq!(
        unexpected("{\"vec\":[{\"z\":1,\"a\":[\"\\n\"]}]}"),
        "JSON option is not a string: {\"z\":1,\"a\":[\"\\n\"]}",
    );
}

#[test]
fn vec_that_is_no_array() {
    assert_eq!(unexpected("{\"vec\":\"s\"}"), "JSON `vec` field is not an array: \"s\"");
    assert_eq!(unexpected("{\"vec\":{}}"), "JSON `vec` field is not an array: {}");
}

#[test]
fn value_without_vec() {
    for text in ["{\"Vec\":[]}", "{}", "[]", "null", "true", "\"vec\"", "1e5"] {
        assert_eq!(
            unexpected(text),
            format!("JSON field does not have an inner `vec` field: {}", value(text)),
        );
    }
    assert_eq!(
        unexpected("{\"a\":\"b\"}"),
        "JSON field does not have an inner `vec` field: {\"a\":\"b\"}",
    );
}

#[test]
fn option_read_from_plain_values() {
    let some = Json::Object(vec![(
        "vec".to_string(),
        Json::Array(vec![Json::Text("s".to_string())]),
    )]);
    assert_eq!(json_option_str(&some).unwrap(), Some("s".to_string()));
    let none = Json::Object(vec![("vec".to_string(), Json::Array(Vec::new()))]);
    assert_eq!(json_option_str(&none).unwrap(), None);
    assert!(matches!(json_option_str(&Json::Null), Err(CliError::UnexpectedError(_))));
}

#[test]
fn values_read_and_written() {
    for text in [
        "null",
        "false",
        "123456789012345678901234567890",
        "-1.25e-7",
        "\"a\\u0000b\"",
        "[]",
        "[1,[2,[3]],{}]",
        "{\"z\":null,\"a\":{\"y\":[true],\"b\":\"\"}}",
    ] {
        let before = value(text);
        let after = write_json(&read_json(&before));
        assert_eq!(before, after);
        assert_eq!(before.to_string(), after.to_string());
    }
}
