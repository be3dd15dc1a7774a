use helios::tui::highlight::{format_age, highlight_json, TokenKind};

fn pieces(line: &[(String, TokenKind)]) -> Vec<(&str, TokenKind)> {
    line.iter().map(|(t, k)| (t.as_str(), *k)).collect()
}

#[test]
fn highlight_splits_json_lines() {
    let out = highlight_json("{\"a\": 1,\n \"b\": true}");
    assert_eq!(out.len(), 2);
    assert_eq!(
        pieces(&out[0]),
        vec![
            ("{", TokenKind::Punct),
            ("\"a\"", TokenKind::Str),
            (":", TokenKind::Punct),
            (" ", TokenKind::Plain),
            ("1", TokenKind::Number),
            (",", TokenKind::Punct),
        ]
    );
    assert_eq!(
        pieces(&out[1]),
        vec![
            (" ", TokenKind::Plain),
            ("\"b\"", TokenKind::Str),
            (":", TokenKind::Punct),
            (" ", TokenKind::Plain),
            ("true", TokenKind::Bool),
            ("}", TokenKind::Punct),
        ]
    );
}

#[test]
fn highlight_words_numbers_and_escapes() {
    let out = highlight_json("[null, -2.5, abc, \"x\\\"y\"]");
    assert_eq!(
        pieces(&out[0]),
        vec![
            ("[", TokenKind::Punct),
            ("null", TokenKind::Null),
            (",", TokenKind::Punct),
            (" ", TokenKind::Plain),
            ("-2.5", TokenKind::Number),
            (",", TokenKind::Punct),
            (" ", TokenKind::Plain),
            ("abc", TokenKind::Word),
            (",", TokenKind::Punct),
            (" ", TokenKind::Plain),
            ("\"x\\\"y\"", TokenKind::Str),
            ("]", TokenKind::Punct),
        ]
    );
}

#[test]
fn highlight_keeps_every_character() {
    let text = "{\"k\": [1, false, \"unterminated\n  - x y\n}";
    for (line, ps) in text.split('\n').zip(highlight_json(text)) {
        let joined: String = ps.iter().map(|(t, _)| t.as_str()).collect();
        assert_eq!(joined, line);
    }
}

#[test]
fn highlight_empty_text_has_no_lines() {
    assert!(highlight_json("").is_empty());
}

#[test]
fn age_texts() {
    assert_eq!(format_age(30), "just now");
    assert_eq!(format_age(120), "2m ago");
    assert_eq!(format_age(7200), "2h ago");
    assert_eq!(format_age(172800), "2d ago");
}
