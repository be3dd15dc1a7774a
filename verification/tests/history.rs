use helios::history::{HistoryEntry, HistoryManager, HistoryStorage, MAX_HISTORY_ITEMS};
use helios::models::{HistoryItem, HttpMethod, Request, Response};

fn create_test_request(url: &str, method: HttpMethod) -> Request {
    Request::new("Test", method, url)
}

fn create_test_response(status: u16, body: &str) -> Response {
    Response {
        status,
        status_text: "OK".to_string(),
        headers: vec![],
        body: body.to_string(),
        duration_ms: 100,
        timestamp: 0,
    }
}

#[test]
fn test_history_entry_creation() {
    let request = create_test_request("https://api.example.com/users", HttpMethod::GET);
    let entry = HistoryEntry::new(request.clone());
    assert_eq!(entry.request.url, "https://api.example.com/users");
    assert_eq!(entry.request.method, HttpMethod::GET);
    assert!(entry.response_status.is_none());
    assert!(entry.response_size.is_none());
    assert!(!entry.id.is_empty());
}

#[test]
fn test_history_entry_with_response() {
    let request = create_test_request("https://api.example.com/users", HttpMethod::GET);
    let response = create_test_response(200, "{\"data\": []}");
    let entry = HistoryEntry::new(request).with_response(&response);
    assert_eq!(entry.response_status, Some(200));
    assert_eq!(entry.response_size, Some(12));
    assert_eq!(entry.duration_ms, Some(100));
}

#[test]
fn test_history_entry_display_name() {
    let request = create_test_request("https://api.example.com/users", HttpMethod::GET);
    let response = create_test_response(200, "body");
    let entry = HistoryEntry::new(request).with_response(&response);
    let display = entry.display_name();
    assert!(display.contains("GET"));
    assert!(display.contains("api.example.com/users"));
    assert!(display.contains("200"));
    assert_eq!(display, "GET api.example.com/users (200)");
}

#[test]
fn test_history_entry_display_name_long_url() {
    let request = create_test_request(
        "http://https://example.com/a/very/long/path/that/goes/on/and/on",
        HttpMethod::POST,
    );
    let entry = HistoryEntry::new(request);
    // trim_start_matches("https://") then ("http://"): the inner https:// stays
    assert_eq!(entry.display_name(), "POST https://example.com/a/very/long/path/... (--)");
}

#[test]
fn test_history_manager_add_entry() {
    let mut manager = HistoryManager::new();
    let request = create_test_request("https://api.example.com/users", HttpMethod::GET);
    let entry = HistoryEntry::new(request);
    manager.add_entry(entry.clone());
    assert_eq!(manager.len(), 1);
    assert_eq!(manager.entries[0].id, entry.id);
}

#[test]
fn test_history_manager_max_limit() {
    let mut manager = HistoryManager::new();
    for i in 0..MAX_HISTORY_ITEMS + 10 {
        let request = create_test_request(&format!("https://api{}.com", i), HttpMethod::GET);
        manager.add_entry(HistoryEntry::new(request));
    }
    assert_eq!(manager.len(), MAX_HISTORY_ITEMS);
    assert_eq!(manager.entries[0].request.url, format!("https://api{}.com", MAX_HISTORY_ITEMS + 9));
}

#[test]
fn test_history_manager_search() {
    let mut manager = HistoryManager::new();
    let req1 = create_test_request("https://api.example.com/users", HttpMethod::GET);
    let req2 = create_test_request("https://api.github.com/repos", HttpMethod::POST);
    let req3 = create_test_request("https://api.example.com/articles", HttpMethod::GET);
    manager.add_entry(HistoryEntry::new(req1));
    manager.add_entry(HistoryEntry::new(req2));
    manager.add_entry(HistoryEntry::new(req3));
    let results = manager.search("example");
    assert_eq!(results.len(), 2);
    let results = manager.search("POST");
    assert_eq!(results.len(), 1);
    let results = manager.search("nonexistent");
    assert_eq!(results.len(), 0);
}

#[test]
fn test_history_manager_get_by_id() {
    let mut manager = HistoryManager::new();
    let request = create_test_request("https://api.example.com", HttpMethod::GET);
    let entry = HistoryEntry::new(request);
    let id = entry.id.clone();
    manager.add_entry(entry);
    assert!(manager.get_by_id(&id).is_some());
    assert!(manager.get_by_id("nonexistent").is_none());
}

#[test]
fn test_history_manager_remove_by_id() {
    let mut manager = HistoryManager::new();
    let request = create_test_request("https://api.example.com", HttpMethod::GET);
    let entry = HistoryEntry::new(request);
    let id = entry.id.clone();
    manager.add_entry(entry);
    assert_eq!(manager.len(), 1);
    assert!(manager.remove_by_id(&id));
    assert_eq!(manager.len(), 0);
    assert!(!manager.remove_by_id(&id));
}

#[test]
fn test_history_manager_clear() {
    let mut manager = HistoryManager::new();
    for i in 0..5 {
        let request = create_test_request(&format!("https://api{}.com", i), HttpMethod::GET);
        manager.add_entry(HistoryEntry::new(request));
    }
    assert_eq!(manager.len(), 5);
    manager.clear();
    assert!(manager.is_empty());
}

#[test]
fn test_history_entry_from_history_item() {
    let request = create_test_request("https://api.example.com", HttpMethod::POST);
    let response = create_test_response(201, "created");
    let item = HistoryItem {
        id: "item-1".to_string(),
        request: request.clone(),
        response,
        timestamp: 1_700_000_000_000,
    };
    let entry = HistoryEntry::from_history_item(&item);
    assert_eq!(entry.request.url, "https://api.example.com");
    assert_eq!(entry.response_status, Some(201));
    assert_eq!(entry.response_size, Some(7));
    assert_eq!(entry.timestamp, 1_700_000_000_000);
}

#[test]
fn test_history_response_size_counts_bytes() {
    let entry = HistoryEntry::new(Request::default()).with_response(&create_test_response(200, "é"));
    assert_eq!(entry.response_size, Some(2));
}

#[test]
fn test_history_get_all_entries_copies() {
    let mut manager = HistoryManager::new();
    manager.add_entry(HistoryEntry::new(create_test_request("https://a", HttpMethod::GET)));
    let all = manager.get_all_entries();
    assert_eq!(all, manager.entries);
}

#[test]
fn test_history_storage_file() {
    let s = HistoryStorage::new("/tmp/data".to_string());
    assert_eq!(s.history_file(), "/tmp/data/history.json");
}
