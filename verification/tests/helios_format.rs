use helios::helios_format::{
    default_body_type, default_max_redirects, default_method, default_request_type,
    default_timeout, default_true, helios_yml_to_request, parse_body_type_from_str,
    parse_method_from_str, request_to_helios_yml, HeliosAuth, HeliosBody, HeliosError, HeliosHttp,
    HeliosInfo, HeliosYml,
};
use helios::models::{Auth, BodyType, HttpMethod, KeyValue, Request};

fn yml(method: &str, body: Option<HeliosBody>, auth: Option<HeliosAuth>) -> HeliosYml {
    HeliosYml {
        info: HeliosInfo {
            name: "获取用户".to_string(),
            request_type: "http".to_string(),
            seq: 1,
            tags: vec![],
        },
        http: HeliosHttp {
            method: method.to_string(),
            url: "https://api.example.com/users".to_string(),
            params: vec![KeyValue { key: "id".to_string(), value: "1".to_string(), enabled: true }],
            headers: vec![],
            body,
            auth,
        },
        runtime: None,
        settings: None,
        docs: None,
    }
}

#[test]
fn test_helios_yml_to_request_conversion() {
    let y = yml(
        "GET",
        None,
        Some(HeliosAuth {
            auth_type: "bearer".to_string(),
            token: Some("tok123".to_string()),
            username: None,
            password: None,
        }),
    );
    let req = helios_yml_to_request(&y, "test-id-001").expect("conversion");
    assert_eq!(req.id, "test-id-001");
    assert_eq!(req.name, "获取用户");
    assert_eq!(req.method, HttpMethod::GET);
    assert_eq!(req.url, "https://api.example.com/users");
    assert_eq!(req.params.len(), 1);
    assert_eq!(req.auth, Auth::Bearer { token: "tok123".to_string() });
}

#[test]
fn test_request_to_helios_yml_conversion() {
    let mut req = Request::new("创建订单", HttpMethod::POST, "https://api.example.com/orders");
    req.body_type = BodyType::Json;
    req.body = r#"{"item":"book"}"#.to_string();
    req.auth = Auth::Basic { username: "admin".to_string(), password: "pass123".to_string() };
    let yml = request_to_helios_yml(&req).expect("conversion");
    assert_eq!(yml.info.name, "创建订单");
    assert_eq!(yml.http.method, "POST");
    assert_eq!(yml.http.url, "https://api.example.com/orders");
    let body = yml.http.body.expect("body");
    assert_eq!(body.body_type, "json");
    assert_eq!(body.content, r#"{"item":"book"}"#);
    let auth = yml.http.auth.expect("auth");
    assert_eq!(auth.auth_type, "basic");
    assert_eq!(auth.username, Some("admin".to_string()));
}

#[test]
fn test_helios_body_type_mapping() {
    let types = vec![
        (BodyType::NoBody, "none", false),
        (BodyType::Json, "json", true),
        (BodyType::Form, "form-urlencoded", true),
        (BodyType::Text, "text", true),
        (BodyType::Xml, "xml", true),
        (BodyType::Graphql, "graphql", true),
        (BodyType::FormData, "multipart-form", true),
    ];
    for (bt, yaml_type, expect_body) in types {
        let mut req = Request::default();
        req.body_type = bt;
        req.name = format!("test_{}", yaml_type);
        if expect_body {
            req.body = "test-content".to_string();
        }
        let yml = request_to_helios_yml(&req).expect("conversion");
        if expect_body {
            let body = yml.http.body.as_ref().expect("body");
            assert_eq!(body.body_type, yaml_type, "BodyType {:?} maps to {}", bt, yaml_type);
        } else {
            assert!(yml.http.body.is_none());
        }
    }
}

#[test]
fn test_defaults() {
    assert_eq!(default_request_type(), "http");
    assert_eq!(default_method(), "GET");
    assert_eq!(default_body_type(), "none");
    assert_eq!(default_timeout(), 30000);
    assert!(default_true());
    assert_eq!(default_max_redirects(), 5);
}

#[test]
fn test_method_names_any_case() {
    assert_eq!(parse_method_from_str("delete"), Ok(HttpMethod::DELETE));
    assert_eq!(parse_method_from_str("HEAD"), Ok(HttpMethod::HEAD));
    assert_eq!(parse_method_from_str("TRACE"), Err(HeliosError::UnknownMethod));
    let y = yml("connect", None, None);
    assert_eq!(helios_yml_to_request(&y, "x").unwrap_err(), HeliosError::UnknownMethod);
}

#[test]
fn test_body_type_names() {
    assert_eq!(parse_body_type_from_str("form"), BodyType::Form);
    assert_eq!(parse_body_type_from_str("form-data"), BodyType::FormData);
    assert_eq!(parse_body_type_from_str("JSON"), BodyType::NoBody);
}

#[test]
fn test_request_file_roundtrip() {
    let mut req = Request::new("rt", HttpMethod::OPTIONS, "https://x");
    req.body_type = BodyType::Graphql;
    req.body = "{ q }".into();
    req.graphql_query = Some("q".into());
    req.headers = vec![KeyValue { key: "H".into(), value: "v".into(), enabled: false }];
    req.auth = Auth::Bearer { token: "t".into() };
    let y = request_to_helios_yml(&req).unwrap();
    let back = helios_yml_to_request(&y, &req.id).unwrap();
    assert_eq!(back, req);
}

#[test]
fn test_notes_become_docs() {
    let mut req = Request::default();
    req.notes = "remember".into();
    let y = request_to_helios_yml(&req).unwrap();
    assert_eq!(y.docs, Some("remember".to_string()));
    assert!(y.http.auth.is_none());
    let back = helios_yml_to_request(&y, "").unwrap();
    assert_eq!(back.notes, "");
}
