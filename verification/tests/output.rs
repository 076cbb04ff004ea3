use cli_utils::json::Json;
use cli_utils::output::{
    common_result, telemetry_event, to_common_result, to_common_success_result, wrapper_json,
    ErrorReport, ResultWrapper, TELEMETRY_TIMEOUT_MILLIS,
};
use serde_json::Value;

fn report() -> ErrorReport {
    ErrorReport { kind: "AbortedError".to_string(), message: "Failed to run command".to_string() }
}

#[test]
fn result_in_json() {
    let value: Value = serde_json::from_str("{\"encoded\":{\"b\":1,\"a\":[]}}").unwrap();
    assert_eq!(
        to_common_result(Ok(value)),
        Ok("{\n  \"Result\": {\n    \"encoded\": {\n      \"b\": 1,\n      \"a\": []\n    }\n  }\n}"
            .to_string()),
    );
}

#[test]
fn error_in_json() {
    assert_eq!(
        to_common_result(Err(report())),
        Err("{\n  \"Error\": \"Failed to run command\"\n}".to_string()),
    );
}

#[test]
fn success_in_json() {
    assert_eq!(
        to_common_success_result(Ok(5u8)),
        Ok("{\n  \"Result\": \"Success\"\n}".to_string()),
    );
    assert_eq!(
        to_common_success_result::<u8>(Err(report())),
        Err("{\n  \"Error\": \"Failed to run command\"\n}".to_string()),
    );
}

#[test]
fn plain_value_in_json() {
    assert_eq!(common_result(Ok(Json::Null)), Ok("{\n  \"Result\": null\n}".to_string()));
}

#[test]
fn wrapped_results() {
    assert!(matches!(ResultWrapper::from(Ok::<u8, ErrorReport>(3)), ResultWrapper::Result(3)));
    let wrapped: ResultWrapper<u8> = ResultWrapper::from(Err(report()));
    assert!(matches!(wrapped, ResultWrapper::Error(message) if message == "Failed to run command"));
}

#[test]
fn frames_differ() {
    let fields = |json: Json| match json {
        Json::Object(fields) => fields.into_iter().map(|(name, _)| name).collect::<Vec<String>>(),
        _ => Vec::new(),
    };
    assert_eq!(fields(wrapper_json(ResultWrapper::Result(Json::Null))), vec!["Result"]);
    assert_eq!(fields(wrapper_json(ResultWrapper::Error("e".to_string()))), vec!["Error"]);
}

#[test]
fn telemetry_of_a_success() {
    let event = telemetry_event(false, "init", &Ok::<u8, ErrorReport>(1)).unwrap();
    assert_eq!(event.command, "init");
    assert!(event.success);
    assert_eq!(event.error, None);
}

#[test]
fn telemetry_of_an_error_holds_its_type_only() {
    let event = telemetry_event(false, "init", &Err::<u8, ErrorReport>(report())).unwrap();
    assert!(!event.success);
    assert_eq!(event.error, Some("AbortedError".to_string()));
}

#[test]
fn telemetry_disabled() {
    assert!(telemetry_event(true, "init", &Ok::<u8, ErrorReport>(1)).is_none());
    assert_eq!(TELEMETRY_TIMEOUT_MILLIS, 2000);
}
