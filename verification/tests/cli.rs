use helios::cli::{
    parse_content_type, parse_method, response_summary, run_collection_action, run_env_action, run_line,
    run_report, run_summary, send_command_request, CollectionAction, EnvAction,
};
use helios::models::{AppData, BodyType, Collection, HttpMethod, Request};

#[test]
fn methods_any_case() {
    assert_eq!(parse_method("patch").unwrap(), HttpMethod::PATCH);
    assert_eq!(parse_method("FOO").err().unwrap(), "Unknown HTTP method: FOO");
}

#[test]
fn content_types() {
    assert_eq!(parse_content_type("JSON"), BodyType::Json);
    assert_eq!(parse_content_type("application/x-www-form-urlencoded"), BodyType::Form);
    assert_eq!(parse_content_type("xml"), BodyType::Xml);
    assert_eq!(parse_content_type("bin"), BodyType::NoBody);
}

#[test]
fn send_request_is_built() {
    let req = send_command_request(
        "post",
        "https://x.io",
        &vec!["A: 1".to_string(), "bad".to_string()],
        &Some("{}".to_string()),
        &Some("json".to_string()),
    )
    .unwrap();
    assert_eq!(req.name, "CLI Request");
    assert_eq!(req.method, HttpMethod::POST);
    assert_eq!(req.headers.len(), 1);
    assert_eq!(req.headers[0].value, "1");
    assert_eq!(req.body_type, BodyType::Json);
    assert!(send_command_request("nope", "u", &vec![], &None, &None).is_err());
}

#[test]
fn collection_commands() {
    let mut data = AppData::default();
    let out = run_collection_action(&mut data, CollectionAction::List).unwrap();
    assert_eq!(out.lines, vec!["No collections found.".to_string()]);
    let out = run_collection_action(&mut data, CollectionAction::Add { name: "Col".into() }).unwrap();
    assert!(out.save);
    let id = data.collections[0].id.clone();
    let out = run_collection_action(
        &mut data,
        CollectionAction::AddReq { collection: "Col".into(), method: "get".into(), url: "https://x.io".into(), name: None },
    )
    .unwrap();
    assert_eq!(out.lines, vec!["Request added to collection.".to_string()]);
    assert_eq!(data.collections[0].requests[0].name, "GET https://x.io");
    let out = run_collection_action(&mut data, CollectionAction::List).unwrap();
    assert_eq!(out.lines, vec![format!("{} - Col (1 requests)", id)]);
    let out = run_collection_action(&mut data, CollectionAction::Remove { name: id }).unwrap();
    assert_eq!(out.lines, vec!["Collection removed.".to_string()]);
    assert!(data.collections.is_empty());
    let out = run_collection_action(&mut data, CollectionAction::Remove { name: "x".into() }).unwrap();
    assert!(!out.save);
}

#[test]
fn env_commands() {
    let mut data = AppData::default();
    run_env_action(&mut data, EnvAction::Add { name: "dev".into() });
    let out = run_env_action(&mut data, EnvAction::SetVar { env: "dev".into(), key: "k".into(), value: "1".into() });
    assert_eq!(out.lines, vec!["Variable set.".to_string()]);
    run_env_action(&mut data, EnvAction::SetVar { env: "dev".into(), key: "k".into(), value: "2".into() });
    assert_eq!(data.environments[0].variables, vec![("k".to_string(), "2".to_string())]);
    data.active_env_id = Some(data.environments[0].id.clone());
    let out = run_env_action(&mut data, EnvAction::List);
    assert_eq!(out.lines, vec![format!("* {} - dev (1 vars)", data.environments[0].id)]);
    let out = run_env_action(&mut data, EnvAction::SetVar { env: "prod".into(), key: "k".into(), value: "1".into() });
    assert_eq!(out.lines, vec!["Environment not found.".to_string()]);
}

#[test]
fn run_lines() {
    let req = Request::new("r", HttpMethod::GET, "https://x.io");
    assert_eq!(run_line(&req, &Ok(200)), ("  GET https://x.io ... OK (200)".to_string(), true));
    assert_eq!(run_line(&req, &Ok(404)), ("  GET https://x.io ... FAIL (404)".to_string(), false));
    assert_eq!(run_line(&req, &Err("down".into())), ("  GET https://x.io ... ERROR: down".to_string(), false));
    assert_eq!(run_summary(2, 1), "\nResults: 2 passed, 1 failed");
    assert_eq!(response_summary(200, "OK", 5, 10), "Status: 200 OK | Time: 5ms | Size: 10 bytes");
}

#[test]
fn run_report_tallies_outcomes() {
    let col = Collection {
        id: "c".into(),
        name: "My API".into(),
        folders: vec![],
        requests: vec![
            Request::new("a", HttpMethod::GET, "https://x.io/a"),
            Request::new("b", HttpMethod::POST, "https://x.io/b"),
            Request::new("c", HttpMethod::DELETE, "https://x.io/c"),
        ],
        created_at: 0,
    };
    let lines = run_report(&col, &vec![Ok(200), Ok(500), Err("down".to_string())]);
    assert_eq!(
        lines,
        vec![
            "Running collection: My API (3 requests)".to_string(),
            "  GET https://x.io/a ... OK (200)".to_string(),
            "  POST https://x.io/b ... FAIL (500)".to_string(),
            "  DELETE https://x.io/c ... ERROR: down".to_string(),
            "\nResults: 1 passed, 2 failed".to_string(),
        ]
    );
}
