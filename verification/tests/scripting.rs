use helios::models::Request;
use helios::scripting::{apply_pre_script, apply_resolved_script, parse_pre_script, ScriptAction};

#[test]
fn test_parse_set_header() {
    let actions = parse_pre_script("@header X-Token=abc123");
    assert_eq!(actions.len(), 1);
    assert_eq!(actions[0], ScriptAction::SetHeader { key: "X-Token".into(), value: "abc123".into() });
}

#[test]
fn test_parse_set_var() {
    let actions = parse_pre_script("@set auth_token=xyz789");
    assert_eq!(actions.len(), 1);
    assert_eq!(actions[0], ScriptAction::SetVar { name: "auth_token".into(), value: "xyz789".into() });
}

#[test]
fn test_parse_delay() {
    let actions = parse_pre_script("@delay 500");
    assert_eq!(actions.len(), 1);
    assert_eq!(actions[0], ScriptAction::DelayMs(500));
}

#[test]
fn test_parse_multiple_actions() {
    let actions = parse_pre_script("@header X-Ts=123\n@set key=val\n@delay 100");
    assert_eq!(actions.len(), 3);
}

#[test]
fn test_parse_comments_and_empty_lines() {
    let actions = parse_pre_script("# this is a comment\n\n@header A=B\n# another comment\n");
    assert_eq!(actions.len(), 1);
}

#[test]
fn test_apply_set_header() {
    let mut req = Request::default();
    let actions = vec![ScriptAction::SetHeader { key: "X-Custom".into(), value: "test-value".into() }];
    apply_pre_script(&mut req, &actions);
    assert!(req.headers.iter().any(|h| h.key == "X-Custom" && h.value == "test-value"));
}

#[test]
fn test_apply_set_var() {
    let mut req = Request::default();
    let actions = vec![ScriptAction::SetVar { name: "token".into(), value: "abc".into() }];
    let vars = apply_pre_script(&mut req, &actions);
    assert_eq!(vars.iter().find(|(k, _)| k == "token").unwrap().1, "abc");
}

#[test]
fn test_parse_rejects_malformed_lines() {
    let actions = parse_pre_script("@header NoEquals\n@delay -5\n@delay +7\n@unknown x=y\n@set  a = b = c ");
    assert_eq!(
        actions,
        vec![
            ScriptAction::DelayMs(7),
            ScriptAction::SetVar { name: "a".into(), value: "b = c".into() },
        ]
    );
}

#[test]
fn test_later_set_replaces_earlier() {
    let mut req = Request::default();
    let actions = vec![
        ScriptAction::SetVar { name: "a".into(), value: "1".into() },
        ScriptAction::SetVar { name: "b".into(), value: "2".into() },
        ScriptAction::SetVar { name: "a".into(), value: "3".into() },
    ];
    let vars = apply_resolved_script(&mut req, &actions, &vec![]);
    assert_eq!(vars, vec![("a".to_string(), "3".to_string()), ("b".to_string(), "2".to_string())]);
}

#[test]
fn test_header_values_are_resolved() {
    let mut req = Request::default();
    let actions = vec![ScriptAction::SetHeader { key: "X-Id".into(), value: "id-{{$uuid}}".into() }];
    apply_pre_script(&mut req, &actions);
    assert_eq!(req.headers.len(), 1);
    assert!(req.headers[0].value.starts_with("id-"));
    assert_eq!(req.headers[0].value.len(), 3 + 36);
}
