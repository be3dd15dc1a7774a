use helios::http_client::{is_valid_header_value, parse_headers, plan_request};
use helios::models::{Auth, BodyType, HttpMethod, KeyValue, Request};

#[test]
fn test_parse_headers_simple() {
    let raw = vec!["Content-Type: application/json".to_string()];
    let headers = parse_headers(&raw);
    assert_eq!(headers.len(), 1);
    assert_eq!(headers[0].key, "Content-Type");
    assert_eq!(headers[0].value, "application/json");
    assert!(headers[0].enabled);
}

#[test]
fn test_parse_headers_multiple() {
    let raw = vec![
        "Content-Type: application/json".to_string(),
        "Authorization: Bearer token123".to_string(),
        "X-Custom-Header: value".to_string(),
    ];
    let headers = parse_headers(&raw);
    assert_eq!(headers.len(), 3);
    assert_eq!(headers[1].key, "Authorization");
    assert_eq!(headers[1].value, "Bearer token123");
}

#[test]
fn test_parse_headers_empty() {
    let raw: Vec<String> = vec![];
    let headers = parse_headers(&raw);
    assert!(headers.is_empty());
}

#[test]
fn test_parse_headers_with_spaces() {
    let raw = vec!["  Content-Type  :  application/json  ".to_string()];
    let headers = parse_headers(&raw);
    assert_eq!(headers.len(), 1);
    assert_eq!(headers[0].key, "Content-Type");
    assert_eq!(headers[0].value, "application/json");
}

#[test]
fn test_parse_headers_value_with_colon() {
    let raw = vec!["Authorization: Basic: dXNlcjpwYXNz".to_string()];
    let headers = parse_headers(&raw);
    assert_eq!(headers.len(), 1);
    assert_eq!(headers[0].key, "Authorization");
    assert_eq!(headers[0].value, "Basic: dXNlcjpwYXNz");
}

#[test]
fn test_parse_headers_missing_colon() {
    let raw = vec!["InvalidHeader".to_string()];
    let headers = parse_headers(&raw);
    assert!(headers.is_empty());
}

#[test]
fn test_parse_headers_empty_value() {
    let raw = vec!["X-Empty-Value:".to_string()];
    let headers = parse_headers(&raw);
    assert_eq!(headers.len(), 1);
    assert_eq!(headers[0].key, "X-Empty-Value");
    assert_eq!(headers[0].value, "");
}

fn kv(k: &str, v: &str, on: bool) -> KeyValue {
    KeyValue { key: k.into(), value: v.into(), enabled: on }
}

#[test]
fn test_plan_query_and_headers() {
    let mut req = Request::new("t", HttpMethod::POST, "https://x.example/p?a=1");
    req.params = vec![kv("q", "a b", true), kv("off", "1", false), kv("", "noname", true)];
    req.headers = vec![
        kv("Accept", "text/plain", true),
        kv("ACCEPT", "application/json", true),
        kv("Bad Name", "v", true),
        kv("X-Ctl", "a\nb", true),
        kv("X-Off", "v", false),
    ];
    req.body_type = BodyType::Json;
    req.body = "{}".into();
    req.auth = Auth::Bearer { token: "t".into() };
    let plan = plan_request(&req).unwrap();
    assert_eq!(plan.url, "https://x.example/p?a=1&q=a+b");
    assert_eq!(plan.headers, vec![("accept".to_string(), "application/json".to_string())]);
    assert_eq!(plan.content_type, Some("application/json".to_string()));
    assert_eq!(plan.body, Some("{}".to_string()));
    assert_eq!(plan.auth, Auth::Bearer { token: "t".into() });
    assert_eq!(plan.method, HttpMethod::POST);
}

#[test]
fn test_plan_without_params_or_body() {
    let mut req = Request::new("t", HttpMethod::GET, "https://x.example/p");
    req.body_type = BodyType::Text;
    let plan = plan_request(&req).unwrap();
    assert_eq!(plan.url, "https://x.example/p");
    assert_eq!(plan.content_type, Some("text/plain".to_string()));
    assert_eq!(plan.body, None);
    req.params = vec![kv("k", "v", true)];
    req.body_type = BodyType::FormData;
    req.body = "ignored".into();
    let plan = plan_request(&req).unwrap();
    assert_eq!(plan.url, "https://x.example/p?k=v");
    assert_eq!(plan.content_type, None);
    assert_eq!(plan.body, None);
}

#[test]
fn test_header_value_validity() {
    assert!(is_valid_header_value("a\tb é"));
    assert!(!is_valid_header_value("a\u{7f}"));
    assert!(!is_valid_header_value("a\rb"));
}

#[test]
fn header_names_are_lowered_and_checked() {
    let mut req = Request::new("t", HttpMethod::GET, "https://x.example/p");
    req.headers = vec![kv("X_Tok!", "1", true), kv("Ünï", "2", true), kv("a:b", "3", true)];
    let plan = plan_request(&req).unwrap();
    assert_eq!(plan.headers, vec![("x_tok!".to_string(), "1".to_string())]);
}

#[test]
fn query_is_form_encoded() {
    let mut req = Request::new("t", HttpMethod::GET, "https://x.example/p");
    req.params = vec![kv("a b", "é", true), kv("k", "*-._~&=", true)];
    let plan = plan_request(&req).unwrap();
    assert_eq!(plan.url, "https://x.example/p?a+b=%C3%A9&k=*-._%7E%26%3D");
}
