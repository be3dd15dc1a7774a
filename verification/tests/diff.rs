use helios::diff::{diff_strings, DiffLine};

#[test]
fn test_identical_strings() {
    let a = "hello\nworld";
    let result = diff_strings(a, a);
    assert_eq!(
        result,
        vec![DiffLine::Equal("hello".to_string()), DiffLine::Equal("world".to_string())]
    );
}

#[test]
fn test_completely_different_strings() {
    let a = "aaa\nbbb";
    let b = "ccc\nddd";
    let result = diff_strings(a, b);
    assert_eq!(
        result,
        vec![
            DiffLine::Remove("aaa".to_string()),
            DiffLine::Remove("bbb".to_string()),
            DiffLine::Add("ccc".to_string()),
            DiffLine::Add("ddd".to_string()),
        ]
    );
}

#[test]
fn test_additions_only() {
    let a = "line1";
    let b = "line1\nline2";
    let result = diff_strings(a, b);
    assert_eq!(
        result,
        vec![DiffLine::Equal("line1".to_string()), DiffLine::Add("line2".to_string())]
    );
}

#[test]
fn test_removals_only() {
    let a = "line1\nline2\nline3";
    let b = "line1\nline3";
    let result = diff_strings(a, b);
    assert_eq!(
        result,
        vec![
            DiffLine::Equal("line1".to_string()),
            DiffLine::Remove("line2".to_string()),
            DiffLine::Equal("line3".to_string()),
        ]
    );
}

#[test]
fn test_mixed_changes() {
    let a = "one\ntwo\nthree\nfour";
    let b = "one\nthree\nfour\nfive";
    let result = diff_strings(a, b);
    assert_eq!(
        result,
        vec![
            DiffLine::Equal("one".to_string()),
            DiffLine::Remove("two".to_string()),
            DiffLine::Equal("three".to_string()),
            DiffLine::Equal("four".to_string()),
            DiffLine::Add("five".to_string()),
        ]
    );
}

#[test]
fn test_diff_empty_texts() {
    assert!(diff_strings("", "").is_empty());
    assert_eq!(diff_strings("", "x"), vec![DiffLine::Add("x".to_string())]);
    assert_eq!(diff_strings("x", ""), vec![DiffLine::Remove("x".to_string())]);
}

#[test]
fn test_diff_sides_rebuild_inputs() {
    // the old side (equal and removed lines) is the old text, the new side the new text
    let a = "a\nb\nc\nd";
    let b = "b\nx\nd\ne";
    let d = diff_strings(a, b);
    let old: Vec<String> = d
        .iter()
        .filter_map(|l| match l {
            DiffLine::Equal(s) | DiffLine::Remove(s) => Some(s.clone()),
            DiffLine::Add(_) => None,
        })
        .collect();
    let new: Vec<String> = d
        .iter()
        .filter_map(|l| match l {
            DiffLine::Equal(s) | DiffLine::Add(s) => Some(s.clone()),
            DiffLine::Remove(_) => None,
        })
        .collect();
    assert_eq!(old, vec!["a", "b", "c", "d"]);
    assert_eq!(new, vec!["b", "x", "d", "e"]);
}
