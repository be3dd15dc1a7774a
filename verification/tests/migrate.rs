use helios::migrate::{status_dry_run, status_migrated, status_without_data, total_requests, MigrationStatus};
use helios::models::{Collection, HttpMethod, Request};

fn cols() -> Vec<Collection> {
    vec![
        Collection {
            id: "c1".into(),
            name: "用户API".into(),
            folders: vec![],
            requests: vec![
                Request::new("获取用户列表", HttpMethod::GET, "https://api.example.com/users"),
                Request::new("创建用户", HttpMethod::POST, "https://api.example.com/users"),
            ],
            created_at: 0,
        },
        Collection {
            id: "c2".into(),
            name: "订单API".into(),
            folders: vec![],
            requests: vec![Request::new("查询订单", HttpMethod::GET, "https://api.example.com/orders")],
            created_at: 0,
        },
    ]
}

#[test]
fn test_migration_status_default() {
    let status = MigrationStatus::default();
    assert!(!status.migrated);
    assert_eq!(status.collections_migrated, 0);
    assert_eq!(status.requests_migrated, 0);
}

#[test]
fn test_migrate_dry_run_no_side_effects() {
    let status = status_dry_run("/old/data.json".into(), &cols());
    assert!(!status.migrated);
    assert_eq!(status.collections_migrated, 2);
    assert_eq!(status.requests_migrated, 3);
    assert_eq!(status.legacy_data_file.as_deref(), Some("/old/data.json"));
}

#[test]
fn test_migration_statuses() {
    assert_eq!(total_requests(&cols()), 3);
    let none = status_without_data("/x".into());
    assert!(!none.migrated);
    assert_eq!(none.requests_migrated, 0);
    let done = status_migrated("2025-01-01T00:00:00+08:00".into(), "/x.bak".into(), &cols());
    assert!(done.migrated);
    assert_eq!(done.migrated_at.as_deref(), Some("2025-01-01T00:00:00+08:00"));
    assert_eq!(done.requests_migrated, 3);
}
