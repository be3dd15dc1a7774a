use helios::file_storage::{
    collection_from_dir, folder_from_dir, folder_yml_of, ordered_values, position_of_name,
    request_file_name, request_id_from_stem, slugify, sort_by_seq, sorted_names, FileStorage,
    FolderYml,
};
use helios::models::{Folder, HttpMethod, Request};

#[test]
fn test_slugify() {
    assert_eq!(slugify("获取用户列表"), "获取用户列表");
    assert_eq!(slugify("Create Order"), "create-order");
    assert_eq!(slugify("GET /api/v1/users"), "get-api-v1-users");
    assert_eq!(slugify("test   spaces"), "test-spaces");
}

#[test]
fn test_slugify_edges() {
    assert_eq!(slugify(""), "");
    assert_eq!(slugify("--a--b--"), "a-b");
    assert_eq!(slugify("!!!"), "");
}

#[test]
fn test_request_file_names() {
    assert_eq!(request_file_name("Get Users"), "get-users.helios.yml");
    assert_eq!(request_id_from_stem("get-users.helios"), "get-users");
}

#[test]
fn test_save_request_paths() {
    let s = FileStorage::new("/data/collections".to_string());
    let req = Request::new("List Items", HttpMethod::GET, "https://x");
    let f = s.save_request("api", &req);
    assert_eq!(f.dir, "/data/collections/api");
    assert_eq!(f.path, "/data/collections/api/list-items.helios.yml");
    assert_eq!(f.yml.info.name, "List Items");
    assert_eq!(FileStorage::with_default_path("/d").base_dir, "/d/collections");
}

#[test]
fn test_folder_seq_sorting() {
    let items: Vec<(u32, &str)> = vec![(2, "c"), (0, "a"), (1, "b"), (0, "a2")];
    let sorted = sort_by_seq(items);
    let names: Vec<&str> = sorted.iter().map(|(_, n)| *n).collect();
    assert_eq!(names, vec!["a", "a2", "b", "c"]);
}

#[test]
fn test_folder_yml_of_folder() {
    let f = Folder {
        id: "f".into(),
        name: "Users".into(),
        seq: 3,
        variables: vec![("k".into(), "v".into())],
        docs: "d".into(),
        folders: vec![],
        requests: vec![],
        created_at: 0,
    };
    let y = folder_yml_of(&f);
    assert_eq!(y.name, "Users");
    assert_eq!(y.seq, 3);
    assert_eq!(y.variables, vec![("k".to_string(), "v".to_string())]);
    assert_eq!(y.docs, "d");
}

fn folder(name: &str, seq: u32) -> Folder {
    Folder {
        id: name.into(),
        name: name.into(),
        seq,
        variables: vec![],
        docs: String::new(),
        folders: vec![],
        requests: vec![],
        created_at: 0,
    }
}

#[test]
fn test_ordered_values() {
    let v = ordered_values(vec![(3u32, "d"), (1, "b"), (1, "c"), (0, "a")]);
    assert_eq!(v, vec!["a", "b", "c", "d"]);
    assert!(ordered_values::<u8>(vec![]).is_empty());
}

#[test]
fn test_folder_from_dir_without_folder_yml() {
    let f = folder_from_dir(None, "plain-dir".into(), vec![], vec![]);
    assert_eq!(f.name, "plain-dir");
    assert_eq!(f.seq, 0);
    assert!(f.variables.is_empty());
    assert_eq!(f.docs, "");
    assert_eq!(f.id.len(), 36);
}

#[test]
fn test_folder_from_dir_orders_by_seq() {
    let meta = FolderYml { name: "Users".into(), seq: 2, variables: vec![("a".into(), "1".into())], docs: "d".into() };
    let reqs = vec![
        (2u32, Request::new("Second", HttpMethod::GET, "/2")),
        (1u32, Request::new("First", HttpMethod::GET, "/1")),
    ];
    let subs = vec![folder("late", 5), folder("early", 1)];
    let f = folder_from_dir(Some(meta), "users".into(), reqs, subs);
    assert_eq!(f.name, "Users");
    assert_eq!(f.seq, 2);
    assert_eq!(f.variables, vec![("a".to_string(), "1".to_string())]);
    assert_eq!(f.docs, "d");
    assert_eq!(f.requests[0].name, "First");
    assert_eq!(f.requests[1].name, "Second");
    assert_eq!(f.folders[0].name, "early");
    assert_eq!(f.folders[1].name, "late");
}

#[test]
fn test_collection_from_dir_names() {
    let c = collection_from_dir(Some("My API".into()), "my-api".into(), vec![], vec![folder("b", 1), folder("a", 0)]);
    assert_eq!(c.name, "My API");
    assert_eq!(c.folders[0].name, "a");
    let d = collection_from_dir(None, "my-api".into(), vec![(0, Request::new("R", HttpMethod::POST, "/r"))], vec![]);
    assert_eq!(d.name, "my-api");
    assert_eq!(d.requests.len(), 1);
    assert_eq!(d.id.len(), 36);
}

#[test]
fn test_sorted_names_and_position() {
    let names = vec!["zeta".to_string(), "Alpha".to_string(), "beta".to_string()];
    assert_eq!(sorted_names(&names), vec!["Alpha".to_string(), "beta".to_string(), "zeta".to_string()]);
    assert_eq!(position_of_name(&names, "beta"), Some(2));
    assert_eq!(position_of_name(&names, "gamma"), None);
}
