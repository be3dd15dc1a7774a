use helios::extraction::{extract_variables, Extraction};
use helios::models::Response;

fn make_response(body: &str) -> Response {
    Response {
        status: 200,
        status_text: "OK".to_string(),
        headers: vec![],
        body: body.to_string(),
        duration_ms: 100,
        timestamp: 0,
    }
}

fn get<'a>(vars: &'a [(String, String)], k: &str) -> Option<&'a String> {
    vars.iter().find(|(n, _)| n == k).map(|(_, v)| v)
}

fn ext(var: &str, path: &str) -> Extraction {
    Extraction { var_name: var.to_string(), json_path: path.to_string() }
}

#[test]
fn test_extract_simple_path() {
    let resp = make_response(r#"{"token":"abc123","user":"alice"}"#);
    let vars = extract_variables(&resp, &[ext("auth_token", "token")]);
    assert_eq!(get(&vars, "auth_token").unwrap(), "abc123");
}

#[test]
fn test_extract_nested_path() {
    let resp = make_response(r#"{"data":{"user":{"id":42,"name":"bob"}}}"#);
    let vars = extract_variables(&resp, &[ext("user_id", "data.user.id")]);
    assert_eq!(get(&vars, "user_id").unwrap(), "42");
}

#[test]
fn test_extract_missing_path_returns_none() {
    let resp = make_response(r#"{"data":{}}"#);
    let vars = extract_variables(&resp, &[ext("missing", "data.nonexistent")]);
    assert!(get(&vars, "missing").is_none());
}

#[test]
fn test_extract_multiple() {
    let resp = make_response(r#"{"token":"tk_123","user":{"id":7}}"#);
    let vars = extract_variables(&resp, &[ext("token", "token"), ext("uid", "user.id")]);
    assert_eq!(get(&vars, "token").unwrap(), "tk_123");
    assert_eq!(get(&vars, "uid").unwrap(), "7");
}

#[test]
fn test_extract_invalid_json() {
    let resp = make_response("not json at all");
    let vars = extract_variables(&resp, &[ext("x", "key")]);
    assert!(vars.is_empty());
}

#[test]
fn test_extract_array_index() {
    let resp = make_response(r#"{"items":["a","b","c"]}"#);
    let vars = extract_variables(&resp, &[ext("first", "items.0")]);
    assert!(get(&vars, "first").is_none());
}

#[test]
fn later_extraction_of_same_variable_wins() {
    let resp = make_response(r#"{"a":"1","b":"2"}"#);
    let vars = extract_variables(&resp, &[ext("v", "a"), ext("v", "b")]);
    assert_eq!(vars.len(), 1);
    assert_eq!(get(&vars, "v").unwrap(), "2");
}

#[test]
fn objects_are_extracted_as_json() {
    let resp = make_response(r#"{"o":{"k":null}}"#);
    let vars = extract_variables(&resp, &[ext("o", "o"), ext("n", "o.k")]);
    assert_eq!(get(&vars, "o").unwrap(), r#"{"k":null}"#);
    assert_eq!(get(&vars, "n").unwrap(), "null");
}
