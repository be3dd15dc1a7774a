use helios::jsonpath::parse_jsonpath;

const TEST_JSON: &str = r#"{
    "data": {
        "user": {
            "name": "Alice",
            "age": 30,
            "active": true
        },
        "items": ["apple", "banana", "cherry"]
    },
    "status": "ok"
}"#;

#[test]
fn test_simple_dot_path() {
    assert_eq!(parse_jsonpath(TEST_JSON, "status"), Some("ok".to_string()));
}

#[test]
fn test_nested_dot_path() {
    assert_eq!(parse_jsonpath(TEST_JSON, "data.user.name"), Some("Alice".to_string()));
}

#[test]
fn test_array_index() {
    assert_eq!(parse_jsonpath(TEST_JSON, "data.items.1"), Some("banana".to_string()));
}

#[test]
fn test_wildcard_returns_array() {
    let result = parse_jsonpath(TEST_JSON, "data.*");
    assert!(result.is_some());
    let parsed: Vec<serde_json::Value> = serde_json::from_str(&result.unwrap()).unwrap();
    assert_eq!(parsed.len(), 2);
}

#[test]
fn test_invalid_path_returns_none() {
    assert_eq!(parse_jsonpath(TEST_JSON, "data.nonexistent.field"), None);
}

#[test]
fn test_invalid_json_returns_none() {
    assert_eq!(parse_jsonpath("not json", "data"), None);
}

#[test]
fn numbers_and_booleans_as_text() {
    assert_eq!(parse_jsonpath(TEST_JSON, "data.user.age"), Some("30".to_string()));
    assert_eq!(parse_jsonpath(TEST_JSON, "data.user.active"), Some("true".to_string()));
}

#[test]
fn empty_path_gives_compact_json() {
    assert_eq!(parse_jsonpath(r#"{ "a" : [1, 2] }"#, ""), Some(r#"{"a":[1,2]}"#.to_string()));
}

#[test]
fn wildcard_followed_by_a_name() {
    let j = r#"{"users":[{"id":1},{"id":2},{"x":3}]}"#;
    assert_eq!(parse_jsonpath(j, "users.*.id"), Some("[1,2]".to_string()));
}

#[test]
fn index_out_of_range_is_none() {
    assert_eq!(parse_jsonpath(TEST_JSON, "data.items.7"), None);
}

#[test]
fn wildcard_on_a_string_is_none() {
    assert_eq!(parse_jsonpath(TEST_JSON, "status.*"), None);
}
