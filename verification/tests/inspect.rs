use serde_json::Value;
use sidecar::inspect::{parse_payload, parse_response, response_from, InspectResponse};

#[test]
fn parses_ok_response() {
    let parsed = parse_response("{\"ok\":true,\"data\":{\"answer\":42}}").unwrap();
    match parsed {
        InspectResponse::Data(value) => {
            assert_eq!(value.get("answer").and_then(Value::as_i64), Some(42));
        }
        other => panic!("expected ok response, got {other:?}"),
    }
}

#[test]
fn parses_error_response() {
    let parsed = parse_response("{\"ok\":false,\"error\":\"boom\"}").unwrap();
    match parsed {
        InspectResponse::Error(message) => assert_eq!(message, "boom"),
        other => panic!("expected error response, got {other:?}"),
    }
}

#[test]
fn rejects_empty_response() {
    let err = parse_response("").unwrap_err();
    assert!(err.contains("empty"));
}

#[test]
fn response_without_ok_flag_is_an_error_with_stock_message() {
    match parse_response("  {\"data\":1}\n").unwrap() {
        InspectResponse::Error(message) => {
            assert_eq!(message, "inspect endpoint returned ok=false")
        }
        other => panic!("expected error response, got {other:?}"),
    }
    match parse_response("{\"ok\":true}").unwrap() {
        InspectResponse::Data(value) => assert!(value.is_null()),
        other => panic!("expected ok response, got {other:?}"),
    }
    assert!(parse_response("not json").is_err());
    assert_eq!(parse_response(" \n").unwrap_err(), "inspect endpoint returned empty response");
}

#[test]
fn response_from_picks_data_or_error() {
    match response_from(Some(true), Some(Value::from(3)), None) {
        InspectResponse::Data(v) => assert_eq!(v, Value::from(3)),
        other => panic!("unexpected {other:?}"),
    }
    match response_from(Some(false), None, Some("bad".to_string())) {
        InspectResponse::Error(m) => assert_eq!(m, "bad"),
        other => panic!("unexpected {other:?}"),
    }
    match response_from(None, Some(Value::Null), None) {
        InspectResponse::Error(m) => assert_eq!(m, "inspect endpoint returned ok=false"),
        other => panic!("unexpected {other:?}"),
    }
}

#[test]
fn payload_is_null_when_absent_and_must_be_json_otherwise() {
    assert!(parse_payload(None).unwrap().is_null());
    assert!(parse_payload(Some("")).unwrap().is_null());
    assert_eq!(
        parse_payload(Some("{\"window\":\"main\"}")).unwrap()["window"],
        Value::from("main")
    );
    let err = parse_payload(Some("{window")).unwrap_err();
    assert!(err.starts_with("payload is not valid JSON: "));
    assert!(err.ends_with("; quote the payload as a single argument"));
}
