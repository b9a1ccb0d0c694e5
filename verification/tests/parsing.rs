use http_server::method::Method;
use http_server::query_string::Value;
use http_server::request::{get_next_word, ParseError, Request};

#[test]
fn next_word_splits_at_first_delimiter() {
    assert_eq!(get_next_word("GET /a b"), Some(("GET", "/a b")));
    assert_eq!(get_next_word("word\rrest"), Some(("word", "rest")));
    assert_eq!(get_next_word(" leading"), Some(("", "leading")));
    assert_eq!(get_next_word("nodelimiter"), None);
    assert_eq!(get_next_word(""), None);
}

#[test]
fn valid_line_without_query() {
    let buf = b"GET /index.html HTTP/1.1\r\nHost: example\r\n\r\n";
    let req = Request::parse(buf).unwrap();
    assert_eq!(*req.method(), Method::GET);
    assert_eq!(req.path(), "/index.html");
    assert!(req.query_string().is_none());
}

#[test]
fn every_verb_is_recognized() {
    let verbs = [
        ("GET", Method::GET),
        ("POST", Method::POST),
        ("DELETE", Method::DELETE),
        ("PUT", Method::PUT),
        ("HEAD", Method::HEAD),
        ("CONNECT", Method::CONNECT),
        ("OPTIONS", Method::OPTIONS),
        ("TRACE", Method::TRACE),
        ("PATCH", Method::PATCH),
    ];
    for (spelling, verb) in verbs {
        let line = format!("{} /p HTTP/1.1\r\n", spelling);
        let buf = line.as_bytes();
        let req = Request::parse(buf).unwrap();
        assert_eq!(*req.method(), verb);
        assert_eq!(req.path(), "/p");
    }
}

#[test]
fn lowercase_verb_is_rejected() {
    let buf = b"get / HTTP/1.1\r\n";
    assert_eq!(Request::parse(buf).unwrap_err(), ParseError::InvalidMethod);
}

#[test]
fn search_query_is_split() {
    let buf = b"GET /search?name=abc&sort=1 HTTP/1.1\r\n";
    let req = Request::parse(buf).unwrap();
    assert_eq!(*req.method(), Method::GET);
    assert_eq!(req.path(), "/search");
    let qs = req.query_string().unwrap();
    match qs.get("name").unwrap() {
        Value::Single(v) => assert_eq!(*v, "abc"),
        Value::Multiple(_) => panic!("name occurred once"),
    }
    match qs.get("sort").unwrap() {
        Value::Single(v) => assert_eq!(*v, "1"),
        Value::Multiple(_) => panic!("sort occurred once"),
    }
    assert!(qs.get("absent").is_none());
}

#[test]
fn repeated_key_keeps_order() {
    let buf = b"GET /x?a=1&a=2&a=3 HTTP/1.1\r\n";
    let req = Request::parse(buf).unwrap();
    let qs = req.query_string().unwrap();
    match qs.get("a").unwrap() {
        Value::Single(_) => panic!("a occurred three times"),
        Value::Multiple(vs) => assert_eq!(vs.as_slice(), &["1", "2", "3"]),
    }
}

#[test]
fn invalid_utf8_is_invalid_encoding() {
    let buf = [0xffu8, 0xfe, 0x20, 0x20];
    assert_eq!(Request::parse(&buf).unwrap_err(), ParseError::InvalidEncoding);
}

#[test]
fn missing_token_boundary_is_invalid_request() {
    assert_eq!(Request::parse(b"").unwrap_err(), ParseError::InvalidRequest);
    assert_eq!(Request::parse(b"GET").unwrap_err(), ParseError::InvalidRequest);
    assert_eq!(Request::parse(b"GET /").unwrap_err(), ParseError::InvalidRequest);
    assert_eq!(
        Request::parse(b"GET / HTTP/1.1").unwrap_err(),
        ParseError::InvalidRequest
    );
}

#[test]
fn wrong_protocol_is_invalid_protocol() {
    assert_eq!(
        Request::parse(b"GET / HTTP/1.0\r\n").unwrap_err(),
        ParseError::InvalidProtocol
    );
}

#[test]
fn unknown_verb_is_invalid_method() {
    assert_eq!(
        Request::parse(b"FETCH / HTTP/1.1\r\n").unwrap_err(),
        ParseError::InvalidMethod
    );
}

#[test]
fn protocol_is_checked_before_method() {
    assert_eq!(
        Request::parse(b"FETCH / HTTP/1.0\r\n").unwrap_err(),
        ParseError::InvalidProtocol
    );
}

#[test]
fn multibyte_path_splits_on_character_boundaries() {
    let line = "GET /caf\u{e9}?mood=\u{263a} HTTP/1.1\r\n";
    let req = Request::parse(line.as_bytes()).unwrap();
    assert_eq!(req.path(), "/caf\u{e9}");
    let qs = req.query_string().unwrap();
    match qs.get("mood").unwrap() {
        Value::Single(v) => assert_eq!(*v, "\u{263a}"),
        Value::Multiple(_) => panic!("mood occurred once"),
    }
}

#[test]
fn trailing_zero_bytes_are_tolerated() {
    let mut buf = [0u8; 64];
    let line = b"GET /zeroes HTTP/1.1\r\n\r\n";
    buf[..line.len()].copy_from_slice(line);
    let req = Request::parse(&buf).unwrap();
    assert_eq!(req.path(), "/zeroes");
}

#[test]
fn key_without_equals_maps_to_empty_value() {
    let buf = b"GET /x?flag&a=1 HTTP/1.1\r\n";
    let req = Request::parse(buf).unwrap();
    let qs = req.query_string().unwrap();
    match qs.get("flag").unwrap() {
        Value::Single(v) => assert_eq!(*v, ""),
        Value::Multiple(_) => panic!("flag occurred once"),
    }
}

#[test]
fn empty_query_text_maps_empty_key() {
    let buf = b"GET /x? HTTP/1.1\r\n";
    let req = Request::parse(buf).unwrap();
    assert_eq!(req.path(), "/x");
    let qs = req.query_string().unwrap();
    match qs.get("").unwrap() {
        Value::Single(v) => assert_eq!(*v, ""),
        Value::Multiple(_) => panic!("empty key occurred once"),
    }
}

#[test]
fn parsing_twice_yields_equal_requests() {
    let buf = b"GET /search?name=abc&name=def HTTP/1.1\r\n";
    let first = Request::parse(buf).unwrap();
    let second = Request::parse(buf).unwrap();
    assert_eq!(*first.method(), *second.method());
    assert_eq!(first.path(), second.path());
    let q1 = first.query_string().unwrap();
    let q2 = second.query_string().unwrap();
    match (q1.get("name").unwrap(), q2.get("name").unwrap()) {
        (Value::Multiple(a), Value::Multiple(b)) => assert_eq!(a, b),
        _ => panic!("name occurred twice in both"),
    }
}

#[test]
fn parse_error_messages() {
    assert_eq!(ParseError::InvalidRequest.message(), "Invalid Request");
    assert_eq!(ParseError::InvalidEncoding.message(), "Invalid Encoding");
    assert_eq!(ParseError::InvalidProtocol.message(), "Invalid Protocol");
    assert_eq!(ParseError::InvalidMethod.message(), "Invalid Method");
}

#[test]
fn method_parse_matches_exactly() {
    assert_eq!(Method::parse("GET").unwrap(), Method::GET);
    assert_eq!(Method::parse("PATCH").unwrap(), Method::PATCH);
    assert!(Method::parse("get").is_err());
    assert!(Method::parse("GETX").is_err());
    assert!(Method::parse("").is_err());
}
