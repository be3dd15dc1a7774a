use helios::curl_parser::{parse_curl, parse_header_value, parse_method, tokenize, CurlError};
use helios::models::{BodyType, HttpMethod};

#[test]
fn test_parse_simple_get() {
    let req = parse_curl("curl https://example.com").unwrap();
    assert_eq!(req.method, HttpMethod::GET);
    assert_eq!(req.url, "https://example.com");
    assert!(req.body.is_empty());
    assert!(req.headers.is_empty());
}

#[test]
fn test_parse_post_with_body() {
    let req = parse_curl(r#"curl -X POST https://example.com -d '{"key":"value"}'"#).unwrap();
    assert_eq!(req.method, HttpMethod::POST);
    assert_eq!(req.url, "https://example.com");
    assert_eq!(req.body, r#"{"key":"value"}"#);
    assert_eq!(req.body_type, BodyType::Json);
}

#[test]
fn test_parse_single_header() {
    let req = parse_curl("curl -H 'Accept: application/json' https://example.com").unwrap();
    assert_eq!(req.method, HttpMethod::GET);
    assert_eq!(req.url, "https://example.com");
    assert_eq!(req.headers.len(), 1);
    assert_eq!(req.headers[0].key, "Accept");
    assert_eq!(req.headers[0].value, "application/json");
    assert!(req.headers[0].enabled);
}

#[test]
fn test_parse_multiple_headers() {
    let req = parse_curl("curl -H 'A: 1' -H 'B: 2' https://example.com").unwrap();
    assert_eq!(req.method, HttpMethod::GET);
    assert_eq!(req.url, "https://example.com");
    assert_eq!(req.headers.len(), 2);
    assert_eq!(req.headers[0].key, "A");
    assert_eq!(req.headers[0].value, "1");
    assert_eq!(req.headers[1].key, "B");
    assert_eq!(req.headers[1].value, "2");
}

#[test]
fn test_parse_put_method() {
    let req = parse_curl("curl -X PUT https://example.com").unwrap();
    assert_eq!(req.method, HttpMethod::PUT);
    assert_eq!(req.url, "https://example.com");
}

#[test]
fn test_parse_invalid_input_empty() {
    let result = parse_curl("");
    assert!(result.is_err());
}

#[test]
fn test_parse_invalid_input_no_url() {
    let result = parse_curl("curl -X GET");
    assert!(result.is_err());
}

#[test]
fn test_parse_invalid_input_not_curl() {
    let result = parse_curl("wget https://example.com");
    assert!(result.is_err());
}

#[test]
fn test_parse_post_infers_method_from_body() {
    let req = parse_curl(r#"curl https://example.com -d '{"a":1}'"#).unwrap();
    assert_eq!(req.method, HttpMethod::POST);
    assert_eq!(req.body, r#"{"a":1}"#);
}

#[test]
fn test_parse_request_name() {
    let req = parse_curl("curl https://example.com").unwrap();
    assert_eq!(req.name, "GET https://example.com");
}

#[test]
fn test_parse_with_line_continuations() {
    let input = "curl \\\n  -X POST \\\n  https://example.com";
    let req = parse_curl(input).unwrap();
    assert_eq!(req.method, HttpMethod::POST);
    assert_eq!(req.url, "https://example.com");
}

#[test]
fn test_curl_errors_are_told_apart() {
    assert_eq!(parse_curl("").unwrap_err(), CurlError::EmptyCommand);
    assert_eq!(parse_curl("wget x").unwrap_err(), CurlError::NotCurl);
    assert_eq!(parse_curl("curl https://a -X").unwrap_err(), CurlError::MissingMethod);
    assert_eq!(parse_curl("curl https://a -H").unwrap_err(), CurlError::MissingHeader);
    assert_eq!(parse_curl("curl https://a -d").unwrap_err(), CurlError::MissingData);
    assert_eq!(parse_curl("curl -X FETCH https://a").unwrap_err(), CurlError::UnknownMethod);
    assert_eq!(parse_curl("curl -X GET").unwrap_err(), CurlError::NoUrl);
    assert_eq!(parse_curl("curl 'https://a").unwrap_err(), CurlError::UnclosedSingleQuote);
    assert_eq!(parse_curl("curl \"https://a").unwrap_err(), CurlError::UnclosedDoubleQuote);
}

#[test]
fn test_tokenize_quotes_and_escapes() {
    assert_eq!(tokenize("  a 'b c' \"d e\"  ").unwrap(), vec!["a", "b c", "d e"]);
    assert_eq!(tokenize(r#"a\ b"#).unwrap(), vec!["a b"]);
    assert_eq!(tokenize(r#"'a\b'"#).unwrap(), vec![r#"a\b"#]);
    assert_eq!(tokenize("").unwrap(), Vec::<String>::new());
}

#[test]
fn test_parse_method_ignores_case() {
    assert_eq!(parse_method("patch"), Ok(HttpMethod::PATCH));
    assert_eq!(parse_method("Options"), Ok(HttpMethod::OPTIONS));
    assert_eq!(parse_method("get it"), Err(CurlError::UnknownMethod));
}

#[test]
fn test_parse_header_value_forms() {
    assert_eq!(parse_header_value(" A : b:c "), ("A".to_string(), "b:c".to_string()));
    assert_eq!(parse_header_value("NoColon"), ("NoColon".to_string(), String::new()));
}

#[test]
fn test_first_url_and_later_method_win() {
    let req = parse_curl("curl http://one -X PUT https://two -X DELETE").unwrap();
    assert_eq!(req.url, "http://one");
    assert_eq!(req.method, HttpMethod::DELETE);
    assert_eq!(req.id.len(), 36);
}

#[test]
fn first_url_is_taken() {
    assert_eq!(parse_curl("curl https://a.com https://b.com").unwrap().url, "https://a.com");
}
