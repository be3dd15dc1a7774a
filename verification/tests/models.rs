use helios::models::{
    AppData, Auth, BodyType, Collection, Environment, Folder, HttpMethod, KeyValue, Request,
    Response,
};

#[test]
fn test_http_method_display() {
    assert_eq!(HttpMethod::GET.to_string(), "GET");
    assert_eq!(HttpMethod::POST.to_string(), "POST");
    assert_eq!(HttpMethod::PUT.to_string(), "PUT");
    assert_eq!(HttpMethod::DELETE.to_string(), "DELETE");
}

#[test]
fn test_body_type_display() {
    assert_eq!(BodyType::NoBody.to_string(), "none");
    assert_eq!(BodyType::Json.to_string(), "json");
    assert_eq!(BodyType::Form.to_string(), "form");
    assert_eq!(BodyType::Text.to_string(), "text");
    assert_eq!(BodyType::Xml.to_string(), "xml");
}

#[test]
fn test_request_new() {
    let req = Request::new("Test Request", HttpMethod::POST, "https://api.example.com/users");
    assert_eq!(req.name, "Test Request");
    assert_eq!(req.method, HttpMethod::POST);
    assert_eq!(req.url, "https://api.example.com/users");
    assert!(!req.id.is_empty());
    assert!(req.headers.is_empty());
    assert!(req.params.is_empty());
}

#[test]
fn test_request_default() {
    let req: Request = Default::default();
    assert_eq!(req.method, HttpMethod::GET);
    assert_eq!(req.body_type, BodyType::NoBody);
    assert_eq!(req.auth, Auth::NoAuth);
}

fn folder(id: &str, name: &str, seq: u32, folders: Vec<Folder>, requests: Vec<Request>) -> Folder {
    Folder {
        id: id.to_string(),
        name: name.to_string(),
        seq,
        variables: vec![],
        docs: String::new(),
        folders,
        requests,
        created_at: 0,
    }
}

#[test]
fn test_folder_nested_hierarchy() {
    let sub3 = folder(
        "sub3",
        "Level 3",
        1,
        vec![],
        vec![Request::new("Deep Request", HttpMethod::GET, "https://deep.example.com")],
    );
    let sub2 = folder("sub2", "Level 2", 1, vec![sub3], vec![]);
    let sub1 = folder("sub1", "Level 1", 1, vec![sub2], vec![]);
    let root = folder(
        "root",
        "Root Folder",
        0,
        vec![sub1],
        vec![Request::new("Root Request", HttpMethod::GET, "https://root.example.com")],
    );
    assert_eq!(root.name, "Root Folder");
    assert_eq!(root.folders[0].name, "Level 1");
    assert_eq!(root.folders[0].folders[0].name, "Level 2");
    assert_eq!(root.folders[0].folders[0].folders[0].name, "Level 3");
    assert_eq!(root.folders[0].folders[0].folders[0].folders.len(), 0);
    assert_eq!(root.to_string(), "Root Folder");
    assert_eq!(root.folders[0].folders[0].folders[0].to_string(), "Level 3");
}

#[test]
fn test_collection_with_folders() {
    let folder1 = folder(
        "f1",
        "Auth APIs",
        0,
        vec![],
        vec![Request::new("Login", HttpMethod::POST, "https://api.example.com/login")],
    );
    let folder2 = folder(
        "f2",
        "User APIs",
        1,
        vec![],
        vec![Request::new("Get User", HttpMethod::GET, "https://api.example.com/users/1")],
    );
    let col = Collection {
        id: "col1".to_string(),
        name: "My Collection".to_string(),
        folders: vec![folder1, folder2],
        requests: vec![Request::new("Health Check", HttpMethod::GET, "https://api.example.com/health")],
        created_at: 0,
    };
    assert_eq!(col.requests.len(), 1);
    assert_eq!(col.requests[0].name, "Health Check");
    assert_eq!(col.folders.len(), 2);
    assert_eq!(col.folders[0].name, "Auth APIs");
    assert_eq!(col.folders[0].requests.len(), 1);
    assert_eq!(col.folders[1].name, "User APIs");
    assert_eq!(col.folders[1].requests.len(), 1);
    let all = col.all_requests();
    assert_eq!(all.len(), 3);
}

#[test]
fn test_folder_tree_walk() {
    let sub_b = folder(
        "sub_b",
        "SubFolder B",
        0,
        vec![],
        vec![Request::new("req_b1", HttpMethod::POST, "https://b.example.com")],
    );
    let folder_a = folder(
        "folder_a",
        "Folder A",
        0,
        vec![sub_b],
        vec![Request::new("req_a1", HttpMethod::GET, "https://a.example.com")],
    );
    let folder_c = folder(
        "folder_c",
        "Folder C",
        1,
        vec![],
        vec![Request::new("req_c1", HttpMethod::DELETE, "https://c.example.com")],
    );
    let col = Collection {
        id: "col_walk".to_string(),
        name: "Walk Test".to_string(),
        folders: vec![folder_a, folder_c],
        requests: vec![
            Request::new("root_request1", HttpMethod::GET, "https://root1.example.com"),
            Request::new("root_request2", HttpMethod::PUT, "https://root2.example.com"),
        ],
        created_at: 0,
    };
    let all = col.all_requests();
    assert_eq!(all.len(), 5);
    let names: Vec<&str> = all.iter().map(|r| r.name.as_str()).collect();
    assert!(names.contains(&"root_request1"));
    assert!(names.contains(&"root_request2"));
    assert!(names.contains(&"req_a1"));
    assert!(names.contains(&"req_b1"));
    assert!(names.contains(&"req_c1"));
    // depth first: root requests, then folder A with its sub-folder, then folder C
    assert_eq!(names, vec!["root_request1", "root_request2", "req_a1", "req_b1", "req_c1"]);
    let folder_a_all = col.folders[0].all_requests();
    assert_eq!(folder_a_all.len(), 2);
    let names_a: Vec<&str> = folder_a_all.iter().map(|r| r.name.as_str()).collect();
    assert!(names_a.contains(&"req_a1"));
    assert!(names_a.contains(&"req_b1"));
}

#[test]
fn test_folder_variables() {
    let mut f = folder("f1", "Production", 0, vec![], vec![]);
    f.variables = vec![
        ("base_url".to_string(), "https://api.example.com".to_string()),
        ("token".to_string(), "abc123".to_string()),
    ];
    assert_eq!(f.variables.len(), 2);
    assert_eq!(f.variables[0].1, "https://api.example.com");
    assert_eq!(f.variables[1].1, "abc123");
}

#[test]
fn test_collection_default() {
    let col: Collection = Default::default();
    assert!(col.requests.is_empty());
    assert!(col.folders.is_empty());
    assert!(col.name.is_empty());
}

#[test]
fn test_environment_default() {
    let env: Environment = Default::default();
    assert!(env.variables.is_empty());
    assert!(env.name.is_empty());
}

#[test]
fn test_app_data_default() {
    let data: AppData = Default::default();
    assert!(data.collections.is_empty());
    assert!(data.environments.is_empty());
    assert!(data.history.is_empty());
    assert!(data.active_env_id.is_none());
}

#[test]
fn test_auth_bearer() {
    let auth = Auth::Bearer { token: "secret_token".to_string() };
    match auth {
        Auth::Bearer { token } => assert_eq!(token, "secret_token"),
        _ => panic!("Expected Bearer auth"),
    }
}

#[test]
fn test_auth_basic() {
    let auth = Auth::Basic { username: "admin".to_string(), password: "password".to_string() };
    match auth {
        Auth::Basic { username, password } => {
            assert_eq!(username, "admin");
            assert_eq!(password, "password");
        }
        _ => panic!("Expected Basic auth"),
    }
}

#[test]
fn test_response_default() {
    let resp: Response = Default::default();
    assert_eq!(resp.status, 0);
    assert_eq!(resp.body, "");
    assert_eq!(resp.duration_ms, 0);
}

#[test]
fn test_request_copy_keeps_every_field() {
    let mut req = Request::new("Copy me", HttpMethod::PATCH, "https://x.example.com");
    req.headers.push(KeyValue { key: "A".into(), value: "1".into(), enabled: false });
    req.body = "body".into();
    req.notes = "notes".into();
    let c = req.copy();
    assert_eq!(c, req);
}

#[test]
fn test_environment_new_has_fresh_id() {
    let a = Environment::new("dev");
    let b = Environment::new("dev");
    assert_eq!(a.name, "dev");
    assert_eq!(a.id.len(), 36);
    assert_ne!(a.id, b.id);
}
