use http_message::{string_from_ascii, Method, Version};

#[test]
fn method_tokens_round_trip() {
    let table: [(&str, Method); 8] = [
        ("GET", Method::Get),
        ("HEAD", Method::Head),
        ("POST", Method::Post),
        ("PUT", Method::Put),
        ("DELETE", Method::Delete),
        ("CONNECT", Method::Connect),
        ("OPTIONS", Method::Options),
        ("TRACE", Method::Trace),
    ];
    for (token, method) in table {
        assert_eq!(Method::try_from(token).unwrap(), method);
    }
}

#[test]
fn method_decode_is_exact_and_case_sensitive() {
    assert!(Method::try_from("get").is_err());
    assert!(Method::try_from("GE").is_err());
    assert!(Method::try_from("GETX").is_err());
    assert!(Method::try_from(" GET").is_err());
    assert!(Method::try_from("").is_err());
}

#[test]
fn version_tokens_round_trip() {
    let table: [(&str, Version); 3] = [
        ("HTTP/1.1", Version::OneOne),
        ("HTTP/2.0", Version::Two),
        ("HTTP/3.0", Version::Three),
    ];
    for (token, version) in table {
        assert_eq!(Version::try_from(token).unwrap(), version);
        assert_eq!(Version::try_from(&version.to_string()).unwrap(), version);
        assert_eq!(version.to_string(), token);
    }
}

#[test]
fn version_decode_is_exact() {
    assert!(Version::try_from("HTTP/1.0").is_err());
    assert!(Version::try_from("http/1.1").is_err());
    assert!(Version::try_from("HTTP/1.1 ").is_err());
    assert!(Version::try_from("").is_err());
}

#[test]
fn token_error_messages() {
    assert_eq!(
        Method::try_from("nope").unwrap_err().message(),
        "invalid http method"
    );
    assert_eq!(
        Version::try_from("nope").unwrap_err().message(),
        "invalid http version"
    );
}

#[test]
fn string_from_ascii_accepts_ascii() {
    assert_eq!(string_from_ascii(b"hello, world!").unwrap(), "hello, world!");
    assert_eq!(string_from_ascii(b"").unwrap(), "");
}

#[test]
fn string_from_ascii_rejects_high_bytes() {
    assert!(string_from_ascii(b"caf\xc3\xa9").is_err());
    assert!(string_from_ascii(b"\x80").is_err());
    assert!(string_from_ascii(b"ok\xffok").is_err());
}
