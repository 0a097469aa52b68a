use tinyserve::error::Error;
use tinyserve::http::{Method, Request, StatusCode, Version};

fn chars(s: &str) -> Vec<char> {
    s.chars().collect()
}

#[test]
fn parses_get_request() {
    let r = Request::from_buffer(b"GET /index.html HTTP/1.1\r\nHost: x\r\n\r\nbody").ok().unwrap();
    assert!(r.is_get());
    assert_eq!(r.uri(), "/index.html");
    assert_eq!(r.uri_chars(), &chars("/index.html"));
}

#[test]
fn parses_request_without_headers() {
    let r = Request::from_buffer(b"POST /a HTTP/1.1\r\n\r\n").ok().unwrap();
    assert!(!r.is_get());
    assert_eq!(r.uri(), "/a");
}

#[test]
fn extra_spaces_in_request_line_are_skipped() {
    let r = Request::from_buffer(b"  DELETE \t /x   HTTP/1.1 \r\n\r\n").ok().unwrap();
    assert_eq!(r.uri(), "/x");
}

#[test]
fn missing_separator() {
    let r = Request::from_buffer(b"GET / HTTP/1.1\r\nHost: x\r\n");
    assert_eq!(r.err(), Some(Error::MissingSeparator));
    assert_eq!(Request::from_buffer(b"").err(), Some(Error::MissingSeparator));
}

#[test]
fn wrong_number_of_parts() {
    assert_eq!(Request::from_buffer(b"GET /\r\n\r\n").err(), Some(Error::InvalidRequestLine));
    assert_eq!(Request::from_buffer(b"\r\n\r\n").err(), Some(Error::InvalidRequestLine));
    assert_eq!(
        Request::from_buffer(b"GET / HTTP/1.1 x\r\n\r\n").err(),
        Some(Error::InvalidRequestLine)
    );
}

#[test]
fn unknown_method() {
    assert_eq!(Request::from_buffer(b"get / HTTP/1.1\r\n\r\n").err(), Some(Error::InvalidMethod));
    assert_eq!(Request::from_buffer(b"PATCH / HTTP/1.1\r\n\r\n").err(), Some(Error::InvalidMethod));
}

#[test]
fn unknown_version() {
    assert_eq!(Request::from_buffer(b"GET / HTTP/1.0\r\n\r\n").err(), Some(Error::InvalidVersion));
    assert_eq!(Request::from_buffer(b"GET / 1.1\r\n\r\n").err(), Some(Error::InvalidVersion));
}

#[test]
fn header_without_colon_space() {
    assert_eq!(
        Request::from_buffer(b"GET / HTTP/1.1\r\nHost:x\r\n\r\n").err(),
        Some(Error::InvalidHeader)
    );
}

#[test]
fn method_checked_before_version_and_headers() {
    assert_eq!(Request::from_buffer(b"FOO / HTTP/2\r\nbad\r\n\r\n").err(), Some(Error::InvalidMethod));
}

#[test]
fn invalid_utf8_in_uri_is_replaced() {
    let r = Request::from_buffer(b"GET /\xff HTTP/1.1\r\n\r\n").ok().unwrap();
    assert_eq!(r.uri(), "/\u{FFFD}");
}

#[test]
fn from_head_takes_decoded_head() {
    let r = Request::from_head(&chars("PUT /p HTTP/1.1\r\nA: b"), vec![1, 2]).ok().unwrap();
    assert_eq!(r.uri(), "/p");
    assert!(!r.is_get());
}

#[test]
fn method_and_version_names() {
    assert_eq!(Method::parse(&chars("GET")), Some(Method::Get));
    assert_eq!(Method::parse(&chars("PUT")), Some(Method::Put));
    assert_eq!(Method::parse(&chars("POST")), Some(Method::Post));
    assert_eq!(Method::parse(&chars("DELETE")), Some(Method::Delete));
    assert_eq!(Method::parse(&chars("GETS")), None);
    assert_eq!(Version::parse(&chars("HTTP/1.1")), Some(Version::OnePointOne));
    assert_eq!(Version::parse(&chars("HTTP/1.11")), None);
}

#[test]
fn status_codes() {
    assert_eq!(StatusCode::Success.code(), 200);
    assert_eq!(StatusCode::NotFound.code(), 404);
    assert_eq!(StatusCode::InternalServerError.code(), 505);
    assert_eq!(StatusCode::Success.reason(), "OK");
    assert_eq!(StatusCode::NotFound.reason(), "NOT FOUND");
    assert_eq!(StatusCode::InternalServerError.reason(), "INTERNAL SERVER ERROR");
}

#[test]
fn status_code_into_number() {
    assert_eq!(u32::from(StatusCode::Success), 200);
    assert_eq!(u32::from(StatusCode::NotFound), 404);
    let n: u32 = StatusCode::InternalServerError.into();
    assert_eq!(n, 505);
}
