use helios::dependency_chain::{apply_vars_to_request, apply_vars_to_string, ScenarioStep};
use helios::models::{KeyValue, Request};

fn vars(pairs: &[(&str, &str)]) -> Vec<(String, String)> {
    pairs.iter().map(|(k, v)| (k.to_string(), v.to_string())).collect()
}

#[test]
fn test_apply_vars_to_url() {
    let mut req = Request::default();
    req.url = "https://api.com/users/{{user.id}}".into();
    let vars = vars(&[("user.id", "42")]);
    let resolved = apply_vars_to_request(&req, &vars);
    assert_eq!(resolved.url, "https://api.com/users/42");
}

#[test]
fn test_apply_vars_to_header() {
    let mut req = Request::default();
    req.headers = vec![KeyValue {
        key: "Authorization".into(),
        value: "Bearer {{login.token}}".into(),
        enabled: true,
    }];
    let vars = vars(&[("login.token", "xyz789")]);
    let resolved = apply_vars_to_request(&req, &vars);
    assert_eq!(resolved.headers[0].value, "Bearer xyz789");
}

#[test]
fn test_apply_vars_to_body() {
    let mut req = Request::default();
    req.body = r#"{"user_id":{{login.user_id}}}"#.into();
    let vars = vars(&[("login.user_id", "42")]);
    let resolved = apply_vars_to_request(&req, &vars);
    assert_eq!(resolved.body, r#"{"user_id":42}"#);
}

#[test]
fn test_scenario_step_with_depends_on() {
    let step = ScenarioStep { request_index: 1, delay_ms: 0, skip_on_fail: false, depends_on: Some(0) };
    assert_eq!(step.depends_on, Some(0));
}

#[test]
fn test_apply_vars_leaves_keys_and_other_fields() {
    let mut req = Request::default();
    req.name = "{{a}}".into();
    req.headers = vec![KeyValue { key: "{{a}}".into(), value: "{{a}}{{b}}".into(), enabled: false }];
    let vars = vars(&[("a", "1"), ("b", "2")]);
    let r = apply_vars_to_request(&req, &vars);
    assert_eq!(r.name, "{{a}}");
    assert_eq!(r.headers[0].key, "{{a}}");
    assert_eq!(r.headers[0].value, "12");
    assert!(!r.headers[0].enabled);
}

#[test]
fn test_apply_vars_in_list_order() {
    // the first variable's value is itself a placeholder that the second one fills
    let vars = vars(&[("a", "{{b}}"), ("b", "B")]);
    assert_eq!(apply_vars_to_string("x{{a}}", &vars), "xB");
    let vars2: Vec<(String, String)> = vec![("b".into(), "B".into()), ("a".into(), "{{b}}".into())];
    assert_eq!(apply_vars_to_string("x{{a}}", &vars2), "x{{b}}");
}

fn make_response(status: u16, body: &str) -> helios::models::Response {
    helios::models::Response {
        status,
        status_text: "OK".into(),
        headers: vec![],
        body: body.into(),
        duration_ms: 100,
        timestamp: 0,
    }
}

fn var<'a>(vars: &'a [(String, String)], k: &str) -> Option<&'a String> {
    vars.iter().find(|(n, _)| n == k).map(|(_, v)| v)
}

#[test]
fn test_extract_status_var() {
    let resp = make_response(200, "{}");
    let vars = helios::dependency_chain::extract_response_vars(&resp, "resp");
    assert_eq!(var(&vars, "resp.status").unwrap(), "200");
}

#[test]
fn test_extract_json_fields() {
    let resp = make_response(200, r#"{"token":"abc123","user_id":42}"#);
    let vars = helios::dependency_chain::extract_response_vars(&resp, "login");
    assert_eq!(var(&vars, "login.token").unwrap(), "abc123");
    assert_eq!(var(&vars, "login.user_id").unwrap(), "42");
}

#[test]
fn test_extract_nested_json_returns_string() {
    let resp = make_response(200, r#"{"data":{"key":"value"}}"#);
    let vars = helios::dependency_chain::extract_response_vars(&resp, "resp");
    assert!(var(&vars, "resp.data").is_some());
    assert_eq!(var(&vars, "resp.data").unwrap(), r#"{"key":"value"}"#);
}

#[test]
fn test_full_dependency_chain() {
    let login_resp = make_response(200, r#"{"token":"abc"}"#);
    let vars = helios::dependency_chain::extract_response_vars(&login_resp, "login");
    let mut protected_req = Request::default();
    protected_req.url = "https://api.com/me".into();
    protected_req.headers = vec![KeyValue {
        key: "Authorization".into(),
        value: "Bearer {{login.token}}".into(),
        enabled: true,
    }];
    let resolved = apply_vars_to_request(&protected_req, &vars);
    assert_eq!(resolved.headers[0].value, "Bearer abc");
}

#[test]
fn a_member_named_status_wins_over_the_status() {
    let resp = make_response(201, r#"{"status":"ok"}"#);
    let vars = helios::dependency_chain::extract_response_vars(&resp, "r");
    assert_eq!(vars.len(), 1);
    assert_eq!(var(&vars, "r.status").unwrap(), "ok");
}

#[test]
fn no_json_gives_only_the_status() {
    let resp = make_response(500, "oops");
    let vars = helios::dependency_chain::extract_response_vars(&resp, "r");
    assert_eq!(vars, vec![("r.status".to_string(), "500".to_string())]);
}
