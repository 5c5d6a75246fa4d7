use http_server::{
    decode_body, parse_content_length, parse_fields, parse_head, parse_query, split_field,
    split_target, HTTPMethod, HeadError, StringMap,
};

fn value<'a>(map: &'a StringMap, key: &str) -> Option<&'a str> {
    map.get(key).map(|v| v.as_str())
}

#[test]
fn target_without_query() {
    assert_eq!(split_target("/hello"), ("/hello", ""));
    assert_eq!(split_target(""), ("", ""));
}

#[test]
fn target_is_split_at_the_first_question_mark() {
    assert_eq!(split_target("/users/?id=42"), ("/users/", "id=42"));
    assert_eq!(split_target("/a?b?c"), ("/a", "b?c"));
    assert_eq!(split_target("/a?"), ("/a", ""));
    assert_eq!(split_target("?x=1"), ("", "x=1"));
}

#[test]
fn query_with_a_keyless_token() {
    let query = parse_query("a=1&b=2&c");
    assert_eq!(query.len(), 2);
    assert_eq!(value(&query, "a"), Some("1"));
    assert_eq!(value(&query, "b"), Some("2"));
    assert_eq!(value(&query, "c"), None);
}

#[test]
fn query_tokens_need_exactly_one_equals_sign() {
    let query = parse_query("a=b=c&d&=&e=&=f&&g=1");
    assert_eq!(query.len(), 3);
    assert_eq!(value(&query, "a"), None);
    assert_eq!(value(&query, "d"), None);
    assert_eq!(value(&query, ""), Some("f"));
    assert_eq!(value(&query, "e"), Some(""));
    assert_eq!(value(&query, "g"), Some("1"));
}

#[test]
fn later_query_parameters_override_earlier_ones() {
    let query = parse_query("a=1&b=2&a=3");
    assert_eq!(query.len(), 2);
    assert_eq!(value(&query, "a"), Some("3"));
    assert_eq!(value(&query, "b"), Some("2"));
}

#[test]
fn query_values_are_not_decoded() {
    let query = parse_query("q=a%20b+c&r=%3D");
    assert_eq!(value(&query, "q"), Some("a%20b+c"));
    assert_eq!(value(&query, "r"), Some("%3D"));
}

#[test]
fn the_empty_query_has_no_parameters() {
    assert_eq!(parse_query("").len(), 0);
}

#[test]
fn a_field_is_split_at_the_first_colon() {
    assert_eq!(split_field("Host: x\r"), Some(("Host", "x")));
    assert_eq!(split_field("Host: localhost:8080\r"), Some(("Host", "localhost:8080")));
    assert_eq!(split_field("Accept:*/*"), Some(("Accept", "*/*")));
    assert_eq!(split_field(":"), Some(("", "")));
    assert_eq!(split_field("X-Empty:   \r"), Some(("X-Empty", "")));
}

#[test]
fn a_field_key_is_taken_as_it_is() {
    assert_eq!(split_field(" Host : x "), Some((" Host ", "x")));
    assert_eq!(split_field("hOsT:x"), Some(("hOsT", "x")));
}

#[test]
fn a_line_without_colon_is_no_field() {
    assert_eq!(split_field("\r"), None);
    assert_eq!(split_field(""), None);
    assert_eq!(split_field("GET / HTTP/1.1\r"), None);
}

#[test]
fn fields_are_collected_and_later_ones_override() {
    let lines = vec!["Host: x\r", "garbage\r", "Accept: a\r", "Host: y\r", "\r", ""];
    let fields = parse_fields(&lines);
    assert_eq!(fields.len(), 2);
    assert_eq!(value(&fields, "Host"), Some("y"));
    assert_eq!(value(&fields, "Accept"), Some("a"));
    assert_eq!(fields.entry(0).map(|(k, _)| k.as_str()), Some("Host"));
    assert_eq!(fields.entry(1).map(|(k, _)| k.as_str()), Some("Accept"));
}

#[test]
fn content_length_is_read_from_its_field() {
    assert_eq!(parse_content_length(&vec!["Content-Length: 5\r", "\r", ""]), 5);
    assert_eq!(parse_content_length(&vec!["Content-Length:0012\r"]), 12);
    assert_eq!(parse_content_length(&vec!["Content-Length: +7\r"]), 7);
}

#[test]
fn content_length_defaults_to_zero() {
    assert_eq!(parse_content_length(&vec![]), 0);
    assert_eq!(parse_content_length(&vec!["Host: x\r", "\r", ""]), 0);
    assert_eq!(parse_content_length(&vec!["content-length: 5\r"]), 0);
    assert_eq!(parse_content_length(&vec!["Content-Length 5\r"]), 0);
}

#[test]
fn a_malformed_content_length_counts_as_zero() {
    assert_eq!(parse_content_length(&vec!["Content-Length: five\r"]), 0);
    assert_eq!(parse_content_length(&vec!["Content-Length: -1\r"]), 0);
    assert_eq!(parse_content_length(&vec!["Content-Length: \r"]), 0);
    assert_eq!(parse_content_length(&vec!["Content-Length: 5:6\r"]), 0);
    assert_eq!(
        parse_content_length(&vec!["Content-Length: 99999999999999999999999999\r"]),
        0
    );
}

#[test]
fn the_last_content_length_counts() {
    assert_eq!(
        parse_content_length(&vec!["Content-Length: 5\r", "Host: x\r", "Content-Length: 9\r"]),
        9
    );
    assert_eq!(parse_content_length(&vec!["Content-Length: 5\r", "Content-Length: x\r"]), 0);
    assert_eq!(parse_content_length(&vec!["Content-Length: 5\r", "Content-Length\r"]), 5);
}

#[test]
fn any_key_that_begins_with_content_length_counts() {
    assert_eq!(parse_content_length(&vec!["Content-Length-Hint: 4\r"]), 4);
}

#[test]
fn a_simple_head_is_read() {
    let head = parse_head("GET /hello HTTP/1.1\r\nHost: x\r\n\r\n").unwrap();
    assert_eq!(head.method, HTTPMethod::GET);
    assert_eq!(head.path, "/hello");
    assert_eq!(head.query.len(), 0);
    assert_eq!(head.headers.len(), 1);
    assert_eq!(value(&head.headers, "Host"), Some("x"));
    assert_eq!(head.content_length, 0);
}

#[test]
fn a_head_with_query_and_trailing_slash() {
    let head = parse_head("GET /users/?id=42 HTTP/1.1\r\n\r\n").unwrap();
    assert_eq!(head.method, HTTPMethod::GET);
    assert_eq!(head.path, "/users");
    assert_eq!(head.query.len(), 1);
    assert_eq!(value(&head.query, "id"), Some("42"));
    assert_eq!(head.headers.len(), 0);
}

#[test]
fn a_head_that_announces_a_body() {
    let head = parse_head("POST /echo HTTP/1.1\r\nContent-Length: 5\r\n\r\n").unwrap();
    assert_eq!(head.method, HTTPMethod::POST);
    assert_eq!(head.path, "/echo");
    assert_eq!(head.content_length, 5);
    assert_eq!(value(&head.headers, "Content-Length"), Some("5"));
}

#[test]
fn bare_line_feeds_end_lines_too() {
    let head = parse_head("PUT /x HTTP/1.1\nA: 1\n\n").unwrap();
    assert_eq!(head.method, HTTPMethod::PUT);
    assert_eq!(head.path, "/x");
    assert_eq!(value(&head.headers, "A"), Some("1"));
}

#[test]
fn the_protocol_version_is_not_checked() {
    let head = parse_head("DELETE /x whatever and more\r\n\r\n").unwrap();
    assert_eq!(head.method, HTTPMethod::DELETE);
    assert_eq!(head.path, "/x");
}

#[test]
fn the_request_line_is_split_at_single_spaces() {
    let head = parse_head("GET  /x HTTP/1.1\r\n\r\n").unwrap();
    assert_eq!(head.path, "");
}

#[test]
fn fewer_than_three_lines_is_an_error() {
    assert_eq!(parse_head("").err(), Some(HeadError::TooFewLines));
    assert_eq!(parse_head("GET / HTTP/1.1").err(), Some(HeadError::TooFewLines));
    assert_eq!(parse_head("GET / HTTP/1.1\r\n").err(), Some(HeadError::TooFewLines));
    assert_eq!(parse_head("FOO\n").err(), Some(HeadError::TooFewLines));
}

#[test]
fn fewer_than_three_tokens_is_an_error() {
    assert_eq!(parse_head("GET\r\n\r\n").err(), Some(HeadError::MalformedRequestLine));
    assert_eq!(parse_head("GET /x\r\n\r\n").err(), Some(HeadError::MalformedRequestLine));
    assert_eq!(parse_head("\n\n").err(), Some(HeadError::MalformedRequestLine));
    assert_eq!(parse_head("FOO\r\n\r\n").err(), Some(HeadError::MalformedRequestLine));
}

#[test]
fn an_unknown_method_is_an_error() {
    assert_eq!(parse_head("FOO /x HTTP/1.1\r\n\r\n").err(), Some(HeadError::UnknownMethod));
    assert_eq!(parse_head("get /x HTTP/1.1\r\n\r\n").err(), Some(HeadError::UnknownMethod));
    assert_eq!(parse_head(" GET /x HTTP/1.1\r\n\r\n").err(), Some(HeadError::UnknownMethod));
    assert_eq!(parse_head("INVALID /x HTTP/1.1\r\n\r\n").err(), Some(HeadError::UnknownMethod));
}

#[test]
fn every_method_is_read() {
    let methods = [
        ("GET", HTTPMethod::GET),
        ("HEAD", HTTPMethod::HEAD),
        ("POST", HTTPMethod::POST),
        ("PUT", HTTPMethod::PUT),
        ("DELETE", HTTPMethod::DELETE),
        ("CONNECT", HTTPMethod::CONNECT),
        ("OPTIONS", HTTPMethod::OPTION),
        ("TRACE", HTTPMethod::TRACE),
        ("PATCH", HTTPMethod::PATCH),
    ];
    for (token, method) in methods {
        let text = format!("{} / HTTP/1.1\r\n\r\n", token);
        assert_eq!(parse_head(&text).unwrap().method, method);
    }
}

#[test]
fn a_valid_body_is_decoded() {
    assert_eq!(decode_body(b"hello".to_vec()), "hello");
    assert_eq!(decode_body(Vec::new()), "");
    assert_eq!(decode_body(vec![0xc3, 0xa9, 0xe4, 0xb8, 0x96]), "\u{e9}\u{4e16}");
}

#[test]
fn an_invalid_body_becomes_empty() {
    assert_eq!(decode_body(vec![0xff]), "");
    assert_eq!(decode_body(vec![b'a', 0xc3]), "");
    assert_eq!(decode_body(vec![0xc0, 0x80]), "");
    assert_eq!(decode_body(vec![0xed, 0xa0, 0x80]), "");
}

#[test]
fn a_head_and_a_body_make_a_request() {
    let head = parse_head("POST /echo/?a=1 HTTP/1.1\r\nContent-Length: 5\r\n\r\n").unwrap();
    let request = head.with_body(String::from("hello"));
    assert_eq!(request.method, HTTPMethod::POST);
    assert_eq!(request.path, "/echo");
    assert_eq!(value(&request.query, "a"), Some("1"));
    assert_eq!(value(&request.headers, "Content-Length"), Some("5"));
    assert_eq!(request.body, "hello");
}
