use http_message::{Headers, Method, Request, RequestError, Version};

#[test]
fn test_request_from() {
    assert_eq!(
        Request::from(format!("GET /index.html HTTP/1.1\r\n\r\n\r\n\r\n").as_bytes()).unwrap(),
        Request {
            method: Method::Get,
            target: String::from("/index.html"),
            version: Version::OneOne,
            headers: Headers::new(),
            body: Vec::new()
        }
    )
}

#[test]
fn parse_headers_last_occurrence_wins() {
    let r = Request::from(b"POST /x HTTP/1.1\r\nHost: a\r\nA: 1\r\nHost: b\r\n\r\nbody\r\n")
        .unwrap();
    assert_eq!(r.method, Method::Post);
    assert_eq!(r.target, "/x");
    assert_eq!(r.version, Version::OneOne);
    assert_eq!(r.headers.len(), 2);
    assert_eq!(r.headers.get("Host"), Some(&String::from("b")));
    assert_eq!(r.headers.get("A"), Some(&String::from("1")));
    assert_eq!(r.headers.get("Missing"), None);
    assert_eq!(r.body, b"body".to_vec());
}

#[test]
fn parse_trims_header_value_not_name() {
    let r = Request::from(b"GET / HTTP/1.1\r\nT : \t v \t\r\n\r\n\r\n").unwrap();
    assert_eq!(r.headers.get("T "), Some(&String::from("v")));
    assert_eq!(r.headers.get("T"), None);
}

#[test]
fn parse_empty_header_value() {
    let r = Request::from(b"GET / HTTP/1.1\r\nEmpty:\r\n\r\n\r\n").unwrap();
    assert_eq!(r.headers.get("Empty"), Some(&String::from("")));
}

#[test]
fn parse_tolerates_bare_line_feeds() {
    let r = Request::from(b"GET / HTTP/1.1\n\nbody\n").unwrap();
    assert_eq!(r.body, b"body".to_vec());
}

#[test]
fn parse_body_is_one_line_rest_discarded() {
    let r = Request::from(b"GET / HTTP/1.1\r\n\r\nfirst\r\nsecond\r\n").unwrap();
    assert_eq!(r.body, b"first".to_vec());
}

#[test]
fn parse_header_without_colon_fails() {
    let r = Request::from(b"GET / HTTP/1.1\r\nfoo\r\n\r\n\r\n");
    assert!(matches!(r, Err(RequestError::NoHeaderColon)));
}

#[test]
fn parse_non_ascii_method_fails() {
    let r = Request::from(b"G\xc3\x89T / HTTP/1.1\r\n\r\n\r\n\r\n");
    assert!(matches!(r, Err(RequestError::NotAsciiEncoding(_))));
}

#[test]
fn parse_non_ascii_target_fails() {
    let r = Request::from(b"GET /caf\xc3\xa9 HTTP/1.1\r\n\r\n\r\n\r\n");
    assert!(matches!(r, Err(RequestError::NotAsciiEncoding(_))));
}

#[test]
fn parse_non_ascii_header_fails() {
    let r = Request::from(b"GET / HTTP/1.1\r\nx: caf\xc3\xa9\r\n\r\n\r\n");
    assert!(matches!(r, Err(RequestError::NotAsciiEncoding(_))));
}

#[test]
fn parse_too_few_tokens_fails() {
    assert!(matches!(
        Request::from(b"GET\r\n\r\n\r\n\r\n"),
        Err(RequestError::InvalidRequestLine)
    ));
    assert!(matches!(
        Request::from(b"GET /\r\n\r\n\r\n\r\n"),
        Err(RequestError::InvalidRequestLine)
    ));
}

#[test]
fn parse_unknown_method_fails() {
    let r = Request::from(b"FOO / HTTP/1.1\r\n\r\n\r\n\r\n");
    assert!(matches!(r, Err(RequestError::InvalidMethod(_))));
}

#[test]
fn parse_lowercase_method_fails() {
    let r = Request::from(b"get / HTTP/1.1\r\n\r\n\r\n\r\n");
    assert!(matches!(r, Err(RequestError::InvalidMethod(_))));
}

#[test]
fn parse_unknown_version_fails() {
    let r = Request::from(b"GET / HTTP/9.9\r\n\r\n\r\n\r\n");
    assert!(matches!(r, Err(RequestError::InvalidVersion(_))));
}

#[test]
fn parse_missing_blank_line_fails() {
    let r = Request::from(b"GET / HTTP/1.1");
    assert!(matches!(r, Err(RequestError::NoEnd)));
    let r = Request::from(b"GET / HTTP/1.1\r\nA: 1");
    assert!(matches!(r, Err(RequestError::NoEnd)));
}

#[test]
fn parse_missing_body_line_fails() {
    let r = Request::from(b"GET / HTTP/1.1\n");
    assert!(matches!(r, Err(RequestError::NoEnd)));
}

#[test]
fn parse_empty_input_fails() {
    assert!(matches!(
        Request::from(b""),
        Err(RequestError::InvalidMethod(_))
    ));
}

#[test]
fn parse_double_space_start_line_shifts_tokens() {
    let r = Request::from(b"GET  / HTTP/1.1\r\n\r\n\r\n");
    assert!(matches!(r, Err(RequestError::InvalidVersion(_))));
}

#[test]
fn parse_ignores_tokens_beyond_the_third() {
    let r = Request::from(b"GET / HTTP/1.1 extra\r\n\r\n\r\n\r\n").unwrap();
    assert_eq!(r.method, Method::Get);
    assert_eq!(r.target, "/");
    assert_eq!(r.version, Version::OneOne);
}

#[test]
fn error_messages() {
    assert_eq!(
        Request::from(b"GET / HTTP/1.1")
            .unwrap_err()
            .message(),
        "no message end"
    );
    assert_eq!(RequestError::NoRequestLine.message(), "no request line");
    assert_eq!(RequestError::InvalidRequestLine.message(), "invalid request line");
    assert_eq!(RequestError::NoHeaderColon.message(), "no colon in header");
}
