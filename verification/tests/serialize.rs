use http_message::{Headers, Request, RequestError, Response, Status, Version};

#[test]
fn serialize_from_status_ok() {
    let bytes = Response::from_status(Status::Okay).to_bytes();
    assert_eq!(bytes, b"HTTP/1.1 200 OK\r\n\r\n\r\n\r\n".to_vec());
    assert!(bytes.starts_with(b"HTTP/1.1 200 OK\r\n\r\n"));
}

#[test]
fn serialize_headers_sorted_regardless_of_insertion_order() {
    let mut h1 = Headers::new();
    h1.insert(String::from("b"), String::from("2"));
    h1.insert(String::from("a"), String::from("1"));
    let mut h2 = Headers::new();
    h2.insert(String::from("a"), String::from("1"));
    h2.insert(String::from("b"), String::from("2"));
    let r1 = Response {
        version: Version::OneOne,
        status: Status::Okay,
        headers: h1,
        body: Vec::new(),
    };
    let r2 = Response {
        version: Version::OneOne,
        status: Status::Okay,
        headers: h2,
        body: Vec::new(),
    };
    let b1 = r1.to_bytes();
    let b2 = r2.to_bytes();
    assert_eq!(b1, b2);
    assert_eq!(
        b1,
        b"HTTP/1.1 200 OK\r\n\r\na: 1\r\n\r\nb: 2\r\n\r\n\r\n\r\n".to_vec()
    );
}

#[test]
fn serialize_sorts_by_whole_line_not_name_alone() {
    let mut h = Headers::new();
    h.insert(String::from("x-b"), String::from("1"));
    h.insert(String::from("x-a"), String::from("2"));
    h.insert(String::from("a"), String::from("3"));
    let r = Response {
        version: Version::OneOne,
        status: Status::Okay,
        headers: h,
        body: Vec::new(),
    };
    assert_eq!(
        r.to_bytes(),
        b"HTTP/1.1 200 OK\r\n\r\na: 3\r\n\r\nx-a: 2\r\n\r\nx-b: 1\r\n\r\n\r\n\r\n".to_vec()
    );
}

#[test]
fn serialize_with_body_and_header() {
    let mut h = Headers::new();
    h.insert(String::from("Content-Type"), String::from("text/plain"));
    let r = Response {
        version: Version::OneOne,
        status: Status::NotFound,
        headers: h,
        body: b"nope".to_vec(),
    };
    assert_eq!(
        r.to_bytes(),
        b"HTTP/1.1 404 Not Found\r\n\r\nContent-Type: text/plain\r\n\r\n\r\n\r\nnope".to_vec()
    );
}

#[test]
fn serialize_overwritten_header_keeps_last_value() {
    let mut h = Headers::new();
    h.insert(String::from("k"), String::from("old"));
    h.insert(String::from("k"), String::from("new"));
    let r = Response {
        version: Version::Two,
        status: Status::Teapot,
        headers: h,
        body: Vec::new(),
    };
    assert_eq!(
        r.to_bytes(),
        b"HTTP/2.0 418 I'm a teapot\r\n\r\nk: new\r\n\r\n\r\n\r\n".to_vec()
    );
}

#[test]
fn serialized_response_is_not_a_parseable_request() {
    let bytes = Response::from_status(Status::Okay).to_bytes();
    assert!(matches!(
        Request::from(&bytes),
        Err(RequestError::InvalidMethod(_))
    ));
}
