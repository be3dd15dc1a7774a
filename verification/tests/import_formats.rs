use helios::export_import::{
    collection_from_postman, guess_format, parse_method, postman_of, PostmanBody, PostmanCollection,
    PostmanHeader, PostmanInfo, PostmanItem, PostmanRequest, PostmanUrl, POSTMAN_SCHEMA,
};
use helios::har::{collection_from_har, mime_to_body_type, HarEntry, HarFile, HarLog, HarPair, HarPostData, HarRequest};
use helios::json::Json;
use helios::models::{BodyType, Collection, HttpMethod, KeyValue, Request};
use helios::openapi::{
    collection_from_openapi, trim_end_matches, OpenApiInfo, OpenApiOperation, OpenApiParameter,
    OpenApiPathItem, OpenApiRequestBody, OpenApiServer, OpenApiSpec,
};

#[test]
fn guesses_postman_and_json() {
    let postman = r#"  {"info":{"schema":"https://schema.getpostman.com/json/collection/v2.1.0/collection.json"}}"#;
    assert_eq!(guess_format(postman), "postman");
    assert_eq!(guess_format(r#"{"id":"1","name":"x"}"#), "json");
    assert_eq!(guess_format("[info schema getpostman.com]"), "json");
}

#[test]
fn postman_export_maps_every_field() {
    let mut req = Request::new("Create", HttpMethod::POST, "https://x.io/a");
    req.headers = vec![
        KeyValue { key: "A".into(), value: "1".into(), enabled: true },
        KeyValue { key: "B".into(), value: "2".into(), enabled: false },
    ];
    req.body = "{}".into();
    req.body_type = BodyType::Json;
    let plain = Request::new("List", HttpMethod::GET, "https://x.io/b");
    let col = Collection { id: "c1".into(), name: "Col".into(), folders: vec![], requests: vec![req, plain], created_at: 0 };
    let p = postman_of(&col);
    assert_eq!(p.info.name, "Col");
    assert_eq!(p.info.id, "c1");
    assert_eq!(p.info.schema, POSTMAN_SCHEMA);
    assert_eq!(p.item.len(), 2);
    assert_eq!(p.item[0].request.method, "POST");
    assert!(p.item[0].request.header[1].disabled);
    assert_eq!(p.item[0].request.body.as_ref().unwrap().mode, "json");
    assert_eq!(p.item[0].request.body.as_ref().unwrap().raw.as_deref(), Some("{}"));
    assert!(p.item[1].request.body.is_none());
}

#[test]
fn postman_import_reads_items() {
    let p = PostmanCollection {
        info: PostmanInfo { name: "P".into(), id: "x".into(), schema: POSTMAN_SCHEMA.into() },
        item: vec![PostmanItem {
            name: "Item".into(),
            request: PostmanRequest {
                method: "put".into(),
                header: vec![PostmanHeader { key: "K".into(), value: "V".into(), disabled: true }],
                url: PostmanUrl { raw: "https://y.io".into() },
                body: Some(PostmanBody { mode: "urlencoded".into(), raw: None }),
            },
        }],
    };
    let col = collection_from_postman(&p);
    assert_eq!(col.name, "P");
    assert_eq!(col.id.len(), 36);
    let r = &col.requests[0];
    assert_eq!(r.method, HttpMethod::PUT);
    assert_eq!(r.url, "https://y.io");
    assert!(!r.headers[0].enabled);
    assert_eq!(r.body_type, BodyType::Form);
    assert_eq!(r.body, "");
}

#[test]
fn postman_methods_default_to_get() {
    assert_eq!(parse_method("delete"), HttpMethod::DELETE);
    assert_eq!(parse_method("TRACE"), HttpMethod::GET);
}

fn har_request(method: &str, url: &str) -> HarRequest {
    HarRequest { method: method.into(), url: url.into(), headers: vec![], query_string: vec![], post_data: None }
}

fn har_file(requests: Vec<HarRequest>) -> HarFile {
    HarFile { log: HarLog { entries: requests.into_iter().map(|request| HarEntry { request }).collect() } }
}

#[test]
fn test_parse_har_simple_get() {
    let mut r = har_request("GET", "https://api.example.com/users?page=1");
    r.headers = vec![HarPair { name: "Accept".into(), value: "application/json".into() }];
    r.query_string = vec![HarPair { name: "page".into(), value: "1".into() }];
    let col = collection_from_har(&har_file(vec![r]));
    assert_eq!(col.name, "HAR Import");
    assert_eq!(col.requests.len(), 1);
    let req = &col.requests[0];
    assert_eq!(req.method, HttpMethod::GET);
    assert_eq!(req.url, "https://api.example.com/users?page=1");
    assert_eq!(req.headers.len(), 1);
    assert_eq!(req.headers[0].key, "Accept");
    assert_eq!(req.params.len(), 1);
    assert_eq!(req.params[0].key, "page");
    assert_eq!(req.params[0].value, "1");
}

#[test]
fn har_request_named_after_url_without_query() {
    let col = collection_from_har(&har_file(vec![har_request("GET", "https://api.example.com/users?page=1")]));
    assert_eq!(col.requests[0].name, "https://api.example.com/users");
    assert_eq!(col.requests[0].body_type, BodyType::NoBody);
}

#[test]
fn test_parse_har_post_with_body() {
    let mut r = har_request("POST", "https://api.example.com/users");
    r.headers = vec![HarPair { name: "Content-Type".into(), value: "application/json".into() }];
    r.post_data = Some(HarPostData { mime_type: Some("application/json".into()), text: Some("{\"name\":\"Alice\"}".into()) });
    let col = collection_from_har(&har_file(vec![r]));
    let req = &col.requests[0];
    assert_eq!(req.method, HttpMethod::POST);
    assert_eq!(req.body_type, BodyType::Json);
    assert_eq!(req.body, r#"{"name":"Alice"}"#);
}

#[test]
fn test_parse_har_multiple_entries() {
    let mut put = har_request("PUT", "https://api.example.com/users/1");
    put.post_data = Some(HarPostData { mime_type: Some("text/plain".into()), text: Some("updated".into()) });
    let col = collection_from_har(&har_file(vec![
        har_request("GET", "https://api.example.com/users"),
        har_request("DELETE", "https://api.example.com/users/1"),
        put,
    ]));
    assert_eq!(col.requests.len(), 3);
    assert_eq!(col.requests[0].method, HttpMethod::GET);
    assert_eq!(col.requests[1].method, HttpMethod::DELETE);
    assert_eq!(col.requests[2].method, HttpMethod::PUT);
    assert_eq!(col.requests[2].body_type, BodyType::Text);
    assert_eq!(col.requests[2].body, "updated");
}

#[test]
fn har_mime_types() {
    assert_eq!(mime_to_body_type("application/x-www-form-urlencoded"), BodyType::Form);
    assert_eq!(mime_to_body_type("text/xml"), BodyType::Xml);
    assert_eq!(mime_to_body_type("text/plain"), BodyType::Text);
    assert_eq!(mime_to_body_type("image/png"), BodyType::NoBody);
}

fn op(id: Option<&str>, summary: Option<&str>) -> OpenApiOperation {
    OpenApiOperation {
        summary: summary.map(|s| s.to_string()),
        operation_id: id.map(|s| s.to_string()),
        parameters: vec![],
        request_body: None,
    }
}

fn empty_item() -> OpenApiPathItem {
    OpenApiPathItem { get: None, post: None, put: None, delete: None, patch: None, head: None, options: None }
}

#[test]
fn openapi_operations_become_requests() {
    let mut users = empty_item();
    users.get = Some(op(Some("listUsers"), None));
    let mut create = op(None, Some("Create a user"));
    create.parameters = vec![
        OpenApiParameter { name: "X-Token".into(), location: "header".into(), required: Some(true) },
        OpenApiParameter { name: "dry".into(), location: "query".into(), required: None },
    ];
    create.request_body = Some(OpenApiRequestBody { content: vec![("application/json".into(), Some(Json::Object(vec![])))] });
    users.post = Some(create);
    let mut one = empty_item();
    one.delete = Some(op(None, None));
    let spec = OpenApiSpec {
        info: OpenApiInfo { title: "Users API".into() },
        paths: vec![("/users".into(), users), ("/users/{id}".into(), one)],
        servers: vec![OpenApiServer { url: "https://api.example.com//".into() }],
    };
    let col = collection_from_openapi(&spec);
    assert_eq!(col.name, "Users API");
    assert_eq!(col.requests.len(), 3);
    assert_eq!(col.requests[0].name, "listUsers");
    assert_eq!(col.requests[0].url, "https://api.example.com/users");
    assert_eq!(col.requests[1].method, HttpMethod::POST);
    assert_eq!(col.requests[1].name, "Create a user");
    assert_eq!(col.requests[1].headers[0].key, "X-Token");
    assert_eq!(col.requests[1].params[0].key, "dry");
    assert_eq!(col.requests[1].body_type, BodyType::Json);
    assert_eq!(col.requests[2].name, "DELETE /users/{id}");
}

#[test]
fn trailing_slashes_trimmed() {
    assert_eq!(trim_end_matches("a//", '/'), "a");
    assert_eq!(trim_end_matches("", '/'), "");
}

fn spec_of(title: &str, paths: Vec<(String, OpenApiPathItem)>, servers: Vec<&str>) -> OpenApiSpec {
    OpenApiSpec {
        info: OpenApiInfo { title: title.into() },
        paths,
        servers: servers.into_iter().map(|u| OpenApiServer { url: u.into() }).collect(),
    }
}

#[test]
fn test_parse_simple_get_request() {
    let mut users = empty_item();
    users.get = Some(op(Some("listUsers"), Some("List users")));
    let col = collection_from_openapi(&spec_of("Test API", vec![("/users".into(), users)], vec![]));
    assert_eq!(col.name, "Test API");
    assert_eq!(col.requests.len(), 1);
    let req = &col.requests[0];
    assert_eq!(req.method, HttpMethod::GET);
    assert_eq!(req.url, "/users");
    assert_eq!(req.name, "listUsers");
}

#[test]
fn test_parse_multiple_methods_and_paths() {
    let mut users = empty_item();
    users.get = Some(op(None, Some("List")));
    users.post = Some(op(None, Some("Create")));
    let mut one = empty_item();
    one.get = Some(op(None, Some("Get user")));
    one.delete = Some(op(None, Some("Delete user")));
    let col = collection_from_openapi(&spec_of(
        "Multi API",
        vec![("/users".into(), users), ("/users/{id}".into(), one)],
        vec![],
    ));
    assert_eq!(col.name, "Multi API");
    assert_eq!(col.requests.len(), 4);
    let methods: Vec<&HttpMethod> = col.requests.iter().map(|r| &r.method).collect();
    assert!(methods.contains(&&HttpMethod::GET));
    assert!(methods.contains(&&HttpMethod::POST));
    assert!(methods.contains(&&HttpMethod::DELETE));
}

#[test]
fn test_parse_request_body_and_headers() {
    let mut create = op(None, Some("Create item"));
    create.parameters = vec![
        OpenApiParameter { name: "X-Custom".into(), location: "header".into(), required: None },
        OpenApiParameter { name: "page".into(), location: "query".into(), required: None },
    ];
    let schema = Json::Object(vec![
        (
            "properties".into(),
            Json::Object(vec![("name".into(), Json::Object(vec![("type".into(), Json::Str("string".into()))]))]),
        ),
        ("type".into(), Json::Str("object".into())),
    ]);
    create.request_body = Some(OpenApiRequestBody { content: vec![("application/json".into(), Some(schema))] });
    let mut items = empty_item();
    items.post = Some(create);
    let col = collection_from_openapi(&spec_of("Body API", vec![("/items".into(), items)], vec![]));
    let req = &col.requests[0];
    assert_eq!(req.method, HttpMethod::POST);
    assert_eq!(req.body_type, BodyType::Json);
    assert!(!req.body.is_empty());
    assert_eq!(req.headers.len(), 1);
    assert_eq!(req.headers[0].key, "X-Custom");
    assert_eq!(req.params.len(), 1);
    assert_eq!(req.params[0].key, "page");
}

#[test]
fn test_parse_with_server_base_url() {
    let mut health = empty_item();
    health.get = Some(op(None, Some("Health check")));
    let col = collection_from_openapi(&spec_of(
        "Server API",
        vec![("/health".into(), health)],
        vec!["https://api.example.com/v1"],
    ));
    assert_eq!(col.name, "Server API");
    assert_eq!(col.requests.len(), 1);
    assert_eq!(col.requests[0].url, "https://api.example.com/v1/health");
}

#[test]
fn postman_export_then_import_keeps_requests() {
    let mut json = Request::new("Create", HttpMethod::POST, "https://x.io/a");
    json.headers = vec![
        KeyValue { key: "A".into(), value: "1".into(), enabled: true },
        KeyValue { key: "B".into(), value: "2".into(), enabled: false },
    ];
    json.body = "{\"k\":1}".into();
    json.body_type = BodyType::Json;
    let mut text = Request::new("Note", HttpMethod::PUT, "https://x.io/b");
    text.body = "hello".into();
    text.body_type = BodyType::Text;
    let empty = Request::new("List", HttpMethod::GET, "https://x.io/c");
    let col = Collection { id: "c".into(), name: "Col".into(), folders: vec![], requests: vec![json.clone(), text.clone(), empty.clone()], created_at: 0 };
    let back = collection_from_postman(&postman_of(&col));
    for (orig, got) in [json, text, empty].iter().zip(back.requests.iter()) {
        assert_eq!(got.name, orig.name);
        assert_eq!(got.url, orig.url);
        assert_eq!(got.headers, orig.headers);
        assert_eq!(got.body, orig.body);
        assert_eq!(got.method, orig.method);
    }
    assert_eq!(back.requests[0].body_type, BodyType::Json);
    assert_eq!(back.requests[1].body_type, BodyType::Text);
    assert_eq!(back.requests[2].body_type, BodyType::NoBody);
}

#[test]
fn openapi_schema_becomes_pretty_json_body() {
    let mut create = op(None, Some("Create"));
    create.request_body = Some(OpenApiRequestBody {
        content: vec![("application/json".into(), Some(Json::Object(vec![("type".into(), Json::Str("object".into()))])))],
    });
    let mut items = empty_item();
    items.post = Some(create);
    let col = collection_from_openapi(&spec_of("S", vec![("/i".into(), items)], vec![]));
    assert_eq!(col.requests[0].body, "{\n  \"type\": \"object\"\n}");
}
