use helios::assertions::{extract_value, judge_assertion, AssertOp, AssertResult, Assertion, NumberCheck};
use helios::models::Response;

fn make_response(status: u16, body: &str) -> Response {
    Response {
        status,
        status_text: "OK".to_string(),
        headers: vec![("Content-Type".to_string(), "application/json".to_string())],
        body: body.to_string(),
        duration_ms: 100,
        timestamp: 0,
    }
}

/// The whole check: the number comparisons read both sides as floating-point numbers.
fn assert_response(resp: &Response, a: &Assertion) -> AssertResult {
    let actual = extract_value(resp, &a.path);
    let number = match a.operator {
        AssertOp::GreaterThan | AssertOp::LessThan => {
            match actual.as_ref().and_then(|v| v.parse::<f64>().ok()) {
                None => NumberCheck::NotNumeric,
                Some(val) => {
                    let expected = a.expected.parse::<f64>().unwrap_or(0.0);
                    let holds = if a.operator == AssertOp::GreaterThan { val > expected } else { val < expected };
                    if holds { NumberCheck::Holds } else { NumberCheck::Fails(format!("{}", val)) }
                }
            }
        }
        _ => NumberCheck::NotNumeric,
    };
    judge_assertion(a, actual, number)
}

fn a(path: &str, operator: AssertOp, expected: &str) -> Assertion {
    Assertion { path: path.to_string(), operator, expected: expected.to_string() }
}

#[test]
fn test_assert_status_equals() {
    let resp = make_response(200, "{}");
    assert_eq!(assert_response(&resp, &a("status", AssertOp::Equals, "200")), AssertResult::Pass);
}

#[test]
fn test_assert_body_contains() {
    let resp = make_response(200, r#"{"message":"success"}"#);
    assert_eq!(assert_response(&resp, &a("body.message", AssertOp::Contains, "succ")), AssertResult::Pass);
}

#[test]
fn test_assert_header_exists() {
    let resp = make_response(200, "{}");
    assert_eq!(assert_response(&resp, &a("header.Content-Type", AssertOp::Exists, "")), AssertResult::Pass);
}

#[test]
fn test_assert_numeric_compare() {
    let resp = make_response(200, r#"{"count":42}"#);
    assert_eq!(assert_response(&resp, &a("body.count", AssertOp::GreaterThan, "10")), AssertResult::Pass);
}

#[test]
fn test_assert_fail_message() {
    let resp = make_response(404, "{}");
    match assert_response(&resp, &a("status", AssertOp::Equals, "200")) {
        AssertResult::Fail(msg) => assert!(msg.contains("200")),
        _ => panic!("expected Fail"),
    }
}

#[test]
fn test_assert_not_equals() {
    let resp = make_response(200, "{}");
    assert_eq!(assert_response(&resp, &a("status", AssertOp::NotEquals, "404")), AssertResult::Pass);
}

#[test]
fn test_assert_nested_body() {
    let resp = make_response(200, r#"{"data":{"user":{"name":"alice"}}}"#);
    assert_eq!(assert_response(&resp, &a("body.data.user.name", AssertOp::Equals, "alice")), AssertResult::Pass);
}

#[test]
fn failure_messages_are_exact() {
    let resp = make_response(404, r#"{"n":3}"#);
    assert_eq!(
        assert_response(&resp, &a("status", AssertOp::Equals, "200")),
        AssertResult::Fail("expected '200', got '404'".to_string())
    );
    assert_eq!(
        assert_response(&resp, &a("body.x", AssertOp::Exists, "")),
        AssertResult::Fail("path 'body.x' does not exist".to_string())
    );
    assert_eq!(
        assert_response(&resp, &a("body.n", AssertOp::LessThan, "1")),
        AssertResult::Fail("3 is not less than 1".to_string())
    );
    assert_eq!(
        assert_response(&resp, &a("body.none", AssertOp::GreaterThan, "1")),
        AssertResult::Fail("path 'body.none' not found or not numeric".to_string())
    );
    assert_eq!(assert_response(&resp, &a("body.none", AssertOp::NotEquals, "1")), AssertResult::Pass);
}

#[test]
fn values_looked_at() {
    let resp = make_response(201, r#"{"a":{"b":[1]}}"#);
    assert_eq!(extract_value(&resp, "status"), Some("201".to_string()));
    assert_eq!(extract_value(&resp, "header.Content-Type"), Some("application/json".to_string()));
    assert_eq!(extract_value(&resp, "header.Missing"), None);
    assert_eq!(extract_value(&resp, "body.a.b"), Some("[1]".to_string()));
    assert_eq!(extract_value(&resp, "body"), None);
    assert_eq!(extract_value(&resp, "other.x"), None);
}
