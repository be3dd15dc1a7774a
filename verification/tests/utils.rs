use helios::utils::{fill_builtin_variables, replace_variables, resolve_builtin_variables};

#[test]
fn test_replace_variables_both_forms() {
    let vars = vec![("host".to_string(), "example.com".to_string())];
    assert_eq!(replace_variables("https://{{host}}/a/{{ host }}", &vars), "https://example.com/a/example.com");
    assert_eq!(replace_variables("{{other}}", &vars), "{{other}}");
}

#[test]
fn test_fill_builtin_variables_exact() {
    let r = fill_builtin_variables(
        "{{$timestamp}} {{$uuid}} {{$randomInt}} {{$randomStr}} {{$date}} {{$other}}",
        "1",
        "U",
        "7",
        "abcdefgh",
        "2024-01-02",
    );
    assert_eq!(r, "1 U 7 abcdefgh 2024-01-02 {{$other}}");
}

#[test]
fn test_resolve_builtin_variables_shapes() {
    let r = resolve_builtin_variables("{{$uuid}}|{{$randomInt}}|{{$randomStr}}|{{$date}}|{{$timestamp}}");
    let parts: Vec<&str> = r.split('|').collect();
    assert_eq!(parts.len(), 5);
    assert_eq!(parts[0].len(), 36);
    let n: u64 = parts[1].parse().unwrap();
    assert!(n < 10000);
    assert_eq!(parts[2].len(), 8);
    assert!(parts[2].chars().all(|c| c.is_ascii_digit() || c.is_ascii_lowercase()));
    assert_eq!(parts[3].len(), 10);
    assert!(parts[4].parse::<u128>().unwrap() > 0);
    assert_eq!(resolve_builtin_variables("plain"), "plain");
}

#[test]
fn text_without_placeholders_is_unchanged() {
    let vars = vec![("a".to_string(), "1".to_string()), ("{".to_string(), "x".to_string())];
    assert_eq!(replace_variables("plain {a} text }}", &vars), "plain {a} text }}");
}

#[test]
fn duplicate_variable_first_entry_wins() {
    let vars = vec![("a".to_string(), "1".to_string()), ("a".to_string(), "2".to_string())];
    assert_eq!(replace_variables("{{a}}-{{ a }}", &vars), "1-1");
}
