use helios::history_diff::{diff_requests, FieldDiff};
use helios::models::{HttpMethod, KeyValue, Request};

fn make_request(method: HttpMethod, url: &str, body: &str) -> Request {
    let mut req = Request::default();
    req.method = method;
    req.url = url.to_string();
    req.body = body.to_string();
    req
}

#[test]
fn test_diff_identical_requests() {
    let r1 = make_request(HttpMethod::GET, "https://api.com", "");
    let r2 = make_request(HttpMethod::GET, "https://api.com", "");
    assert!(diff_requests(&r1, &r2).is_empty());
}

#[test]
fn test_diff_different_method() {
    let r1 = make_request(HttpMethod::GET, "https://api.com", "");
    let r2 = make_request(HttpMethod::POST, "https://api.com", "");
    let diffs = diff_requests(&r1, &r2);
    assert_eq!(diffs.len(), 1);
    assert!(matches!(diffs[0], FieldDiff::Method { .. }));
}

#[test]
fn test_diff_different_url() {
    let r1 = make_request(HttpMethod::GET, "https://api.com/v1", "");
    let r2 = make_request(HttpMethod::GET, "https://api.com/v2", "");
    let diffs = diff_requests(&r1, &r2);
    assert_eq!(diffs.len(), 1);
    assert!(matches!(diffs[0], FieldDiff::Url { .. }));
}

#[test]
fn test_diff_different_body() {
    let r1 = make_request(HttpMethod::POST, "https://api.com", r#"{"a":1}"#);
    let r2 = make_request(HttpMethod::POST, "https://api.com", r#"{"a":2}"#);
    let diffs = diff_requests(&r1, &r2);
    assert_eq!(diffs.len(), 1);
    assert!(matches!(diffs[0], FieldDiff::Body { .. }));
}

#[test]
fn test_diff_header_changed() {
    let mut r1 = make_request(HttpMethod::GET, "https://api.com", "");
    r1.headers = vec![KeyValue { key: "Accept".into(), value: "json".into(), enabled: true }];
    let mut r2 = make_request(HttpMethod::GET, "https://api.com", "");
    r2.headers = vec![KeyValue { key: "Accept".into(), value: "html".into(), enabled: true }];
    let diffs = diff_requests(&r1, &r2);
    assert_eq!(diffs.len(), 1);
    assert!(matches!(diffs[0], FieldDiff::Header { .. }));
}

#[test]
fn test_diff_header_added() {
    let r1 = make_request(HttpMethod::GET, "https://api.com", "");
    let mut r2 = make_request(HttpMethod::GET, "https://api.com", "");
    r2.headers = vec![KeyValue { key: "X-New".into(), value: "val".into(), enabled: true }];
    let diffs = diff_requests(&r1, &r2);
    assert_eq!(diffs.len(), 1);
    match &diffs[0] {
        FieldDiff::Header { key, old_value, new_value } => {
            assert_eq!(key, "X-New");
            assert!(old_value.is_none());
            assert!(new_value.is_some());
        }
        _ => panic!("expected Header diff"),
    }
}

#[test]
fn test_diff_order_and_last_value_wins() {
    let mut r1 = make_request(HttpMethod::GET, "https://a", "x");
    r1.params = vec![
        KeyValue { key: "p".into(), value: "1".into(), enabled: true },
        KeyValue { key: "p".into(), value: "2".into(), enabled: true },
        KeyValue { key: "gone".into(), value: "g".into(), enabled: true },
    ];
    let mut r2 = make_request(HttpMethod::PUT, "https://b", "y");
    r2.params = vec![KeyValue { key: "p".into(), value: "2".into(), enabled: false }];
    let diffs = diff_requests(&r1, &r2);
    assert_eq!(
        diffs,
        vec![
            FieldDiff::Method { old: "GET".into(), new: "PUT".into() },
            FieldDiff::Url { old: "https://a".into(), new: "https://b".into() },
            FieldDiff::Body { old: "x".into(), new: "y".into() },
            FieldDiff::Param { key: "gone".into(), old_value: Some("g".into()), new_value: None },
        ]
    );
}

fn swap(d: &FieldDiff) -> FieldDiff {
    match d.clone() {
        FieldDiff::Method { old, new } => FieldDiff::Method { old: new, new: old },
        FieldDiff::Url { old, new } => FieldDiff::Url { old: new, new: old },
        FieldDiff::Header { key, old_value, new_value } => FieldDiff::Header { key, old_value: new_value, new_value: old_value },
        FieldDiff::Body { old, new } => FieldDiff::Body { old: new, new: old },
        FieldDiff::Param { key, old_value, new_value } => FieldDiff::Param { key, old_value: new_value, new_value: old_value },
    }
}

#[test]
fn diff_the_other_way_swaps_old_and_new() {
    let mut a = Request::new("a", HttpMethod::GET, "https://x.io/a");
    a.headers = vec![
        KeyValue { key: "A".into(), value: "1".into(), enabled: true },
        KeyValue { key: "B".into(), value: "2".into(), enabled: true },
    ];
    a.body = "x".into();
    let mut b = Request::new("b", HttpMethod::POST, "https://x.io/b");
    b.headers = vec![
        KeyValue { key: "B".into(), value: "3".into(), enabled: true },
        KeyValue { key: "C".into(), value: "4".into(), enabled: true },
    ];
    let ab = diff_requests(&a, &b);
    let ba = diff_requests(&b, &a);
    assert_eq!(ab.len(), ba.len());
    for d in &ab {
        assert!(ba.contains(&swap(d)));
    }
}
