use glp::commands::retry::{parse_retry_response, retry_message};
use glp::json::{JsonNumber, JsonValue};

fn object(members: Vec<(&str, JsonValue)>) -> JsonValue {
    JsonValue::Object(members.into_iter().map(|(k, v)| (k.to_string(), v)).collect())
}

fn text(s: &str) -> JsonValue {
    JsonValue::Str(s.to_string())
}

fn number(n: u64) -> JsonValue {
    JsonValue::Number(JsonNumber::PosInt(n))
}

#[test]
fn parse_retry_response_valid() {
    let resp = object(vec![("id", number(999)), ("name", text("test-job"))]);
    let (id, name) = parse_retry_response(&resp).unwrap();
    assert_eq!(id, 999);
    assert_eq!(name, "test-job");
}

#[test]
fn parse_retry_response_missing_id() {
    let resp = object(vec![("name", text("test-job"))]);
    assert!(parse_retry_response(&resp).is_err());
}

#[test]
fn parse_retry_response_missing_name_defaults() {
    let resp = object(vec![("id", number(100))]);
    let (id, name) = parse_retry_response(&resp).unwrap();
    assert_eq!(id, 100);
    assert_eq!(name, "unknown");
}

#[test]
fn parse_retry_response_non_numeric_id() {
    let resp = object(vec![("id", text("abc")), ("name", text("x"))]);
    assert!(parse_retry_response(&resp).is_err());
}

#[test]
fn parse_retry_response_rejects_negative_and_fractional_ids() {
    let resp = object(vec![("id", JsonValue::Number(JsonNumber::NegInt(-1)))]);
    assert!(parse_retry_response(&resp).is_err());
    let resp = object(vec![("id", JsonValue::Number(JsonNumber::Float))]);
    assert!(parse_retry_response(&resp).is_err());
    assert!(parse_retry_response(&JsonValue::Array(vec![number(1)])).is_err());
}

#[test]
fn parse_retry_response_non_string_name_defaults() {
    let resp = object(vec![("id", number(5)), ("name", JsonValue::Null)]);
    let (_, name) = parse_retry_response(&resp).unwrap();
    assert_eq!(name, "unknown");
}

#[test]
fn retry_message_matches_readme() {
    assert_eq!(
        retry_message(67891, "unit-tests", 67900),
        "Retried job 67891 (unit-tests) - new job ID: 67900"
    );
}
