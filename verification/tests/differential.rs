use http_server::{
    normalize_path, parse_head, parse_query, split_target, HTTPMethod, HeadError, StringMap,
};
use std::collections::HashMap;

/// A small deterministic generator of test inputs.
struct Generator {
    state: u64,
}

impl Generator {
    fn new(seed: u64) -> Generator {
        Generator { state: seed }
    }

    fn next(&mut self, bound: usize) -> usize {
        self.state = self.state.wrapping_mul(6364136223846793005).wrapping_add(1442695040888963407);
        ((self.state >> 33) as usize) % bound
    }

    fn text(&mut self, atoms: &[&str], max_atoms: usize) -> String {
        let count = self.next(max_atoms + 1);
        let mut text = String::new();
        for _ in 0..count {
            text.push_str(atoms[self.next(atoms.len())]);
        }
        text
    }
}

fn same_map(found: &StringMap, expected: &HashMap<String, String>) -> bool {
    if found.len() != expected.len() {
        return false;
    }
    expected.iter().all(|(key, value)| found.get(key) == Some(value))
}

fn query_by_std(query: &str) -> HashMap<String, String> {
    let mut params = HashMap::new();
    for token in query.split('&') {
        let sides: Vec<&str> = token.split('=').collect();
        if sides.len() == 2 {
            params.insert(String::from(sides[0]), String::from(sides[1]));
        }
    }
    params
}

fn path_by_std(path: &str) -> &str {
    let mut path = path;
    while path.len() > 1 && path.ends_with('/') {
        path = &path[..path.len() - 1];
    }
    path
}

fn method_by_std(token: &str) -> Option<HTTPMethod> {
    match token {
        "GET" => Some(HTTPMethod::GET),
        "HEAD" => Some(HTTPMethod::HEAD),
        "POST" => Some(HTTPMethod::POST),
        "PUT" => Some(HTTPMethod::PUT),
        "DELETE" => Some(HTTPMethod::DELETE),
        "CONNECT" => Some(HTTPMethod::CONNECT),
        "OPTIONS" => Some(HTTPMethod::OPTION),
        "TRACE" => Some(HTTPMethod::TRACE),
        "PATCH" => Some(HTTPMethod::PATCH),
        _ => None,
    }
}

struct Expected {
    method: HTTPMethod,
    path: String,
    query: HashMap<String, String>,
    headers: HashMap<String, String>,
    content_length: usize,
}

fn head_by_std(text: &str) -> Result<Expected, HeadError> {
    let lines: Vec<&str> = text.split('\n').collect();
    if lines.len() < 3 {
        return Err(HeadError::TooFewLines);
    }
    let tokens: Vec<&str> = lines[0].split(' ').collect();
    if tokens.len() < 3 {
        return Err(HeadError::MalformedRequestLine);
    }
    let method = match method_by_std(tokens[0]) {
        Some(method) => method,
        None => return Err(HeadError::UnknownMethod),
    };
    let (path, query) = match tokens[1].find('?') {
        Some(at) => (&tokens[1][..at], &tokens[1][at + 1..]),
        None => (tokens[1], ""),
    };
    let mut headers = HashMap::new();
    let mut content_length = 0;
    for line in &lines[1..] {
        if let Some((key, value)) = line.split_once(':') {
            headers.insert(String::from(key), String::from(value.trim()));
            if line.starts_with("Content-Length") {
                content_length = value.trim().parse::<usize>().unwrap_or(0);
            }
        }
    }
    Ok(Expected {
        method,
        path: String::from(path_by_std(path)),
        query: query_by_std(query),
        headers,
        content_length,
    })
}

#[test]
fn queries_agree_with_a_hash_map() {
    let atoms = ["a", "b", "c", "1", "2", "=", "=", "&", "&", "?", "%20", "\u{e9}"];
    let mut generator = Generator::new(1);
    for _ in 0..3000 {
        let query = generator.text(&atoms, 12);
        assert!(same_map(&parse_query(&query), &query_by_std(&query)), "{:?}", query);
    }
}

#[test]
fn paths_agree_with_slicing() {
    let atoms = ["/", "/", "/", "a", "b", ".", "\u{e9}"];
    let mut generator = Generator::new(2);
    for _ in 0..3000 {
        let path = generator.text(&atoms, 8);
        assert_eq!(normalize_path(&path), path_by_std(&path), "{:?}", path);
    }
}

#[test]
fn targets_agree_with_find() {
    let atoms = ["/", "a", "?", "?", "=", "&", "1"];
    let mut generator = Generator::new(3);
    for _ in 0..3000 {
        let target = generator.text(&atoms, 8);
        let expected = match target.find('?') {
            Some(at) => (&target[..at], &target[at + 1..]),
            None => (target.as_str(), ""),
        };
        assert_eq!(split_target(&target), expected, "{:?}", target);
    }
}

#[test]
fn heads_agree_with_the_standard_library() {
    let atoms = [
        "GET", "POST", "OPTIONS", "FOO", " ", " ", " ", "/", "/x", "?", "a=1", "&", "HTTP/1.1",
        "\r\n", "\r\n", "\n", "Host", "Content-Length", ":", ": ", "5", "12", "+3", "x", "\t",
        "\u{a0}", "\u{e9}",
    ];
    let mut generator = Generator::new(4);
    for _ in 0..20000 {
        let text = generator.text(&atoms, 24);
        match (parse_head(&text), head_by_std(&text)) {
            (Ok(found), Ok(expected)) => {
                assert_eq!(found.method, expected.method, "{:?}", text);
                assert_eq!(found.path, expected.path, "{:?}", text);
                assert_eq!(found.content_length, expected.content_length, "{:?}", text);
                assert!(same_map(&found.query, &expected.query), "{:?}", text);
                assert!(same_map(&found.headers, &expected.headers), "{:?}", text);
            }
            (Err(found), Err(expected)) => assert_eq!(found, expected, "{:?}", text),
            (found, _) => panic!("{:?} read as {:?}", text, found.map(|head| head.path)),
        }
    }
}

#[test]
fn well_formed_heads_agree_with_the_standard_library() {
    let methods = ["GET", "HEAD", "POST", "PUT", "DELETE", "CONNECT", "OPTIONS", "TRACE", "PATCH"];
    let path_atoms = ["/", "/", "a", "b", "users", "\u{e9}"];
    let query_atoms = ["a", "b", "id", "=", "=", "&", "1", "42", "?"];
    let line_atoms = [
        "Host", "Accept", "Content-Length", "X", ":", ":", " ", "5", "10", "007", "text", "\t",
        "-1", "+", "localhost:8080",
    ];
    let mut generator = Generator::new(5);
    for _ in 0..3000 {
        let mut text = String::from(methods[generator.next(methods.len())]);
        text.push(' ');
        text.push_str(&generator.text(&path_atoms, 6));
        if generator.next(2) == 0 {
            text.push('?');
            text.push_str(&generator.text(&query_atoms, 8));
        }
        text.push_str(" HTTP/1.1\r\n");
        for _ in 0..generator.next(5) {
            text.push_str(&generator.text(&line_atoms, 6));
            text.push_str("\r\n");
        }
        text.push_str("\r\n");
        let found = parse_head(&text).unwrap();
        let expected = head_by_std(&text).ok().unwrap();
        assert_eq!(found.method, expected.method, "{:?}", text);
        assert_eq!(found.path, expected.path, "{:?}", text);
        assert_eq!(found.content_length, expected.content_length, "{:?}", text);
        assert!(same_map(&found.query, &expected.query), "{:?}", text);
        assert!(same_map(&found.headers, &expected.headers), "{:?}", text);
    }
}
