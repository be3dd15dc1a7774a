use helios::history::{HistoryManager, HistoryStorage};
use helios::models::{AppData, BodyType, Collection, HttpMethod, Request};
use helios::storage::Storage;
use helios::tui::app::{ActivePane, App, DialogType, InputMode, TabInfo};
use helios::tui::events::{format_headers, handle_key, sort_pairs_by_name, Effect};
use helios::tui::shortcuts::{Key, KeyCode};

fn key(code: KeyCode) -> Key {
    Key { code, ctrl: false, shift: false }
}

fn ctrl(c: char) -> Key {
    Key { code: KeyCode::Char(c), ctrl: true, shift: false }
}

fn collection(id: &str, name: &str, requests: Vec<Request>) -> Collection {
    Collection { id: id.to_string(), name: name.to_string(), folders: vec![], requests, created_at: 0 }
}

fn test_collections() -> Vec<Collection> {
    vec![
        collection(
            "1",
            "API",
            vec![
                Request::new("Get Users", HttpMethod::GET, "https://api.example.com/users"),
                Request::new("Create User", HttpMethod::POST, "https://api.example.com/users"),
            ],
        ),
        collection("2", "Auth", vec![Request::new("Login", HttpMethod::POST, "https://auth.example.com/login")]),
    ]
}

fn app_with(collections: Vec<Collection>) -> App {
    let mut data = AppData::default();
    data.collections = collections;
    App::with_data(
        Storage::with_data_dir("/tmp/helios-test".to_string()),
        data,
        HistoryStorage::new("/tmp/helios-test".to_string()),
        HistoryManager::new(),
    )
}

fn positions(app: &App, q: &str) -> Vec<(usize, usize)> {
    app.search_requests(q).into_iter().map(|(c, r, _)| (c, r)).collect()
}

#[test]
fn test_open_tab() {
    let mut tabs: Vec<TabInfo> = Vec::new();
    let req = Request::default();
    tabs.push(TabInfo { request: req, label: "Test".into(), source: None });
    assert_eq!(tabs.len(), 1);
    assert_eq!(tabs[0].label, "Test");
}

#[test]
fn test_close_tab() {
    let mut tabs: Vec<TabInfo> = Vec::new();
    tabs.push(TabInfo { request: Request::default(), label: "1".into(), source: None });
    tabs.push(TabInfo { request: Request::default(), label: "2".into(), source: None });
    tabs.remove(1);
    assert_eq!(tabs.len(), 1);
}

#[test]
fn test_tab_limit() {
    let mut tabs: Vec<TabInfo> = Vec::new();
    for i in 0..9 {
        tabs.push(TabInfo { request: Request::default(), label: format!("{}", i), source: None });
    }
    assert_eq!(tabs.len(), 9);
    assert!(tabs.len() >= 9);
}

#[test]
fn test_switch_tab() {
    let mut tabs: Vec<TabInfo> = Vec::new();
    tabs.push(TabInfo { request: Request::default(), label: "1".into(), source: None });
    tabs.push(TabInfo { request: Request::default(), label: "2".into(), source: None });
    let mut active = 0;
    assert_eq!(active, 0);
    active = 1;
    assert_eq!(active, 1);
    assert_eq!(tabs[active].label, "2");
}

#[test]
fn test_search_by_name() {
    let app = app_with(test_collections());
    assert_eq!(positions(&app, "users").len(), 2);
}

#[test]
fn test_search_by_url() {
    let app = app_with(test_collections());
    let results = positions(&app, "auth.example");
    assert_eq!(results.len(), 1);
    assert_eq!(results[0], (1, 0));
}

#[test]
fn test_search_case_insensitive() {
    let app = app_with(test_collections());
    assert_eq!(positions(&app, "USERS").len(), 2);
}

#[test]
fn test_search_no_match() {
    let app = app_with(test_collections());
    assert!(positions(&app, "nonexistent").is_empty());
}

#[test]
fn search_labels_show_method_name_and_url() {
    let app = app_with(test_collections());
    let hits = app.search_requests("login");
    assert_eq!(hits.len(), 1);
    assert_eq!(hits[0].2, "POST Login https://auth.example.com/login");
}

#[test]
fn first_start_seeds_demo_collections() {
    let app = app_with(vec![]);
    assert_eq!(app.data.collections.len(), 8);
    assert!(app.needs_save);
    assert_eq!(app.current_request.url, "https://httpbin.org/get");
    assert_eq!(app.current_request.headers.len(), 1);
    assert_eq!(app.current_request.headers[0].key, "Accept");
}

#[test]
fn loaded_data_is_kept() {
    let app = app_with(test_collections());
    assert_eq!(app.data.collections.len(), 2);
    assert!(!app.needs_save);
}

#[test]
fn ctrl_c_quits() {
    let mut app = app_with(test_collections());
    assert_eq!(handle_key(&mut app, ctrl('c')), Effect::Quit);
}

#[test]
fn tab_moves_focus_and_shift_tab_returns() {
    let mut app = app_with(test_collections());
    assert_eq!(app.active_pane, ActivePane::Sidebar);
    handle_key(&mut app, key(KeyCode::Tab));
    assert_eq!(app.active_pane, ActivePane::UrlBar);
    handle_key(&mut app, Key { code: KeyCode::Tab, ctrl: false, shift: true });
    assert_eq!(app.active_pane, ActivePane::Sidebar);
}

#[test]
fn new_collection_through_dialog() {
    let mut app = app_with(test_collections());
    app.open_dialog(DialogType::NewCollection, "New collection name:".to_string());
    for c in "Demo".chars() {
        handle_key(&mut app, key(KeyCode::Char(c)));
    }
    assert_eq!(app.dialog_buffer, "Demo");
    handle_key(&mut app, key(KeyCode::Enter));
    assert_eq!(app.dialog_type, DialogType::NoDialog);
    assert_eq!(app.input_mode, InputMode::Normal);
    assert_eq!(app.data.collections.len(), 3);
    assert_eq!(app.data.collections[2].name, "Demo");
    assert!(app.needs_save);
}

#[test]
fn delete_collection_after_confirmation() {
    let mut app = app_with(test_collections());
    app.delete_selected_item();
    assert_eq!(app.dialog_type, DialogType::DeleteConfirm);
    assert_eq!(app.dialog_message, "API");
    handle_key(&mut app, key(KeyCode::Left));
    handle_key(&mut app, key(KeyCode::Enter));
    assert_eq!(app.data.collections.len(), 1);
    assert_eq!(app.data.collections[0].name, "Auth");
    assert_eq!(app.status_message.as_ref().unwrap().0, "Deleted collection 'API'");
}

#[test]
fn delete_cancelled_by_default() {
    let mut app = app_with(test_collections());
    app.delete_selected_item();
    handle_key(&mut app, key(KeyCode::Enter));
    assert_eq!(app.data.collections.len(), 2);
    assert_eq!(app.status_message.as_ref().unwrap().0, "Delete cancelled");
}

#[test]
fn headers_are_copied_sorted_by_name() {
    let headers = vec![
        ("b".to_string(), "2".to_string()),
        ("a".to_string(), "1".to_string()),
        ("c".to_string(), "3".to_string()),
    ];
    let sorted = sort_pairs_by_name(&headers);
    assert_eq!(sorted[0].0, "a");
    assert_eq!(sorted[2].0, "c");
    assert_eq!(format_headers(&headers), "a: 1\nb: 2\nc: 3");
}

#[test]
fn scrolling_saturates() {
    let mut app = app_with(test_collections());
    app.active_pane = ActivePane::Response;
    handle_key(&mut app, key(KeyCode::Up));
    assert_eq!(app.response_scroll.1, 0);
}

#[test]
fn empty_data_is_seeded_with_demo_collections() {
    let app = app_with(vec![]);
    let names: Vec<&str> = app.data.collections.iter().map(|c| c.name.as_str()).collect();
    assert_eq!(
        names,
        vec!["🌐 httpbin.org", "📝 JSONPlaceholder", "👤 ReqRes", "🌤️ 天气与地理", "💰 金融数据", "🎮 娱乐与生活", "📻 广播与资讯", "📡 技术与开发"]
    );
    let counts: Vec<usize> = app.data.collections.iter().map(|c| c.requests.len()).collect();
    assert_eq!(counts, vec![8, 8, 7, 7, 5, 11, 6, 6]);
    assert!(app.needs_save);
}

#[test]
fn ctrl_n_opens_new_collection_dialog() {
    let mut app = app_with(test_collections());
    assert_eq!(handle_key(&mut app, ctrl('n')), Effect::NoEffect);
    assert_eq!(app.dialog_type, DialogType::NewCollection);
    assert_eq!(app.input_mode, InputMode::Editing);
}

#[test]
fn export_file_is_named_after_collection() {
    let mut app = app_with(test_collections());
    handle_key(&mut app, ctrl('e'));
    assert_eq!(app.dialog_type, DialogType::ExportCollection);
    for c in "json".chars() {
        handle_key(&mut app, key(KeyCode::Char(c)));
    }
    let e = handle_key(&mut app, key(KeyCode::Enter));
    assert_eq!(e, Effect::Export { collection: 0, postman: false, file_name: "API.json".to_string() });
}

#[test]
fn body_type_cycle_follows_guide() {
    let mut app = app_with(test_collections());
    app.current_request.body_type = BodyType::NoBody;
    let mut seen = vec![];
    for _ in 0..5 {
        app.cycle_body_type();
        seen.push(app.current_request.body_type.clone());
    }
    assert_eq!(seen, vec![BodyType::Json, BodyType::Form, BodyType::Text, BodyType::Xml, BodyType::NoBody]);
}

#[test]
fn m_changes_method_and_n_adds_row() {
    let mut app = app_with(test_collections());
    app.active_pane = ActivePane::UrlBar;
    let before = app.current_request.method.clone();
    handle_key(&mut app, key(KeyCode::Char('m')));
    assert_ne!(app.current_request.method, before);
    app.active_pane = ActivePane::RequestTabs;
    let rows = app.current_request.headers.len();
    handle_key(&mut app, key(KeyCode::Char('n')));
    assert_eq!(app.current_request.headers.len(), rows + 1);
}

#[test]
fn ctrl_s_asks_for_collection_and_saves_there() {
    let mut app = app_with(test_collections());
    handle_key(&mut app, ctrl('s'));
    assert_eq!(app.dialog_type, DialogType::SaveToCollection);
    for c in "Auth".chars() {
        handle_key(&mut app, key(KeyCode::Char(c)));
    }
    handle_key(&mut app, key(KeyCode::Enter));
    assert_eq!(app.dialog_type, DialogType::NoDialog);
    assert_eq!(app.data.collections[1].requests.len(), 2);
    assert_eq!(app.data.collections[1].requests[1].url, app.current_request.url);
    assert_eq!(app.status_message.as_ref().unwrap().0, "Saved to 'Auth'");

    handle_key(&mut app, ctrl('s'));
    for c in "nope".chars() {
        handle_key(&mut app, key(KeyCode::Char(c)));
    }
    handle_key(&mut app, key(KeyCode::Enter));
    assert_eq!(app.status_message.as_ref().unwrap().0, "Collection not found: nope");
    assert_eq!(app.data.collections[1].requests.len(), 2);
}

#[test]
fn guide_keys_switch_panes_tabs_and_rows() {
    let mut app = app_with(test_collections());
    handle_key(&mut app, ctrl('2'));
    assert_eq!(app.active_pane, ActivePane::UrlBar);
    handle_key(&mut app, ctrl('3'));
    assert_eq!(app.active_pane, ActivePane::RequestTabs);
    let rows = app.current_request.headers.len();
    handle_key(&mut app, key(KeyCode::Char('n')));
    assert_eq!(app.header_selected, Some(rows));
    handle_key(&mut app, key(KeyCode::Up));
    assert_eq!(app.header_selected, Some(rows - 1));
    handle_key(&mut app, key(KeyCode::Down));
    handle_key(&mut app, key(KeyCode::Down));
    assert_eq!(app.header_selected, Some(rows));
}

#[test]
fn graphql_body_cycles_to_form_data() {
    let mut app = app_with(test_collections());
    app.current_request.body_type = BodyType::Graphql;
    app.cycle_body_type();
    assert_eq!(app.current_request.body_type, BodyType::FormData);
    app.cycle_body_type();
    assert_eq!(app.current_request.body_type, BodyType::NoBody);
}
