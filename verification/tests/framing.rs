use edge::buffer::Buffer;
use edge::framing::{check_request, framing, Framing};
use edge::headers::Headers;
use edge::http::{HttpVersion, Method};
use edge::request::{self, Request, RequestHead, RequestUri};

fn req(method: Method, version: HttpVersion, fields: &[(&str, &str)]) -> Request {
    let mut headers = Headers::new();
    for (name, value) in fields {
        headers.append_raw(name, value.as_bytes().to_vec());
    }
    let head =
        RequestHead { method, uri: RequestUri::AbsolutePath("/".to_string()), version, headers };
    request::new("http://localhost:3000", head).unwrap()
}

fn post(fields: &[(&str, &str)]) -> Request {
    req(Method::Post, HttpVersion::Http11, fields)
}

const NOT_CHUNKED: &str = "Last encoding of Transfer-Encoding must be chunked";
const INVALID_LENGTH: &str = "Invalid Content-Length header";
const TRACE_BODY: &str = "A client MUST NOT send a message body in a TRACE request.";

#[test]
fn content_length_gives_a_fixed_body() {
    assert_eq!(framing(&post(&[("Content-Length", "12")])), Ok(Framing::Fixed(12)));
    let mut buffer = None;
    assert_eq!(check_request(&post(&[("Content-Length", "12")]), &mut buffer), Ok(true));
    let buffer: Buffer = buffer.unwrap();
    assert_eq!(buffer.len(), 12);
    assert_eq!(buffer.window(), 12);
    assert_eq!(buffer.as_ref(), &[0u8; 12][..]);
}

#[test]
fn content_length_zero_means_no_body() {
    assert_eq!(framing(&post(&[("Content-Length", "0")])), Ok(Framing::NoBody));
    let mut buffer = None;
    assert_eq!(check_request(&post(&[("Content-Length", "0")]), &mut buffer), Ok(false));
    assert!(buffer.is_none());
    let trace = req(Method::Trace, HttpVersion::Http11, &[("Content-Length", "0")]);
    assert_eq!(framing(&trace), Ok(Framing::NoBody));
}

#[test]
fn chunked_gives_an_unbounded_body() {
    assert_eq!(framing(&post(&[("Transfer-Encoding", "chunked")])), Ok(Framing::Unbounded));
    assert_eq!(framing(&post(&[("Transfer-Encoding", "gzip, chunked")])), Ok(Framing::Unbounded));
    let mut buffer = None;
    assert_eq!(check_request(&post(&[("Transfer-Encoding", "chunked")]), &mut buffer), Ok(true));
    let buffer: Buffer = buffer.unwrap();
    assert_eq!(buffer.len(), 0);
    assert_eq!(buffer.window(), 4096);
}

#[test]
fn transfer_encoding_must_end_in_chunked() {
    assert_eq!(framing(&post(&[("Transfer-Encoding", "gzip")])), Err(NOT_CHUNKED));
    assert_eq!(framing(&post(&[("Transfer-Encoding", "chunked, gzip")])), Err(NOT_CHUNKED));
    assert_eq!(framing(&post(&[("Transfer-Encoding", "Chunked")])), Err(NOT_CHUNKED));
    assert_eq!(framing(&post(&[("Transfer-Encoding", "")])), Err(NOT_CHUNKED));
    let get = req(Method::Get, HttpVersion::Http11, &[("Transfer-Encoding", "gzip")]);
    assert_eq!(framing(&get), Err(NOT_CHUNKED));
    let mut buffer = None;
    assert_eq!(check_request(&post(&[("Transfer-Encoding", "gzip")]), &mut buffer), Err(NOT_CHUNKED));
    assert!(buffer.is_none());
}

#[test]
fn transfer_encoding_rules_over_content_length() {
    let both = [("Transfer-Encoding", "chunked"), ("Content-Length", "5")];
    assert_eq!(framing(&post(&both)), Ok(Framing::Unbounded));
    let both = [("Content-Length", "5"), ("Transfer-Encoding", "chunked")];
    assert_eq!(framing(&post(&both)), Ok(Framing::Unbounded));
    let both = [("Transfer-Encoding", "chunked"), ("Content-Length", "nonsense")];
    assert_eq!(framing(&post(&both)), Ok(Framing::Unbounded));
    let both = [("Transfer-Encoding", "chunked"), ("Content-Length", "0")];
    assert_eq!(framing(&post(&both)), Ok(Framing::Unbounded));
    let both = [("Transfer-Encoding", "gzip"), ("Content-Length", "5")];
    assert_eq!(framing(&post(&both)), Err(NOT_CHUNKED));
    let trace = req(
        Method::Trace,
        HttpVersion::Http11,
        &[("Transfer-Encoding", "chunked"), ("Content-Length", "5")],
    );
    assert_eq!(framing(&trace), Err(TRACE_BODY));
}

#[test]
fn invalid_content_length_is_refused() {
    assert_eq!(framing(&post(&[("Content-Length", "12a")])), Err(INVALID_LENGTH));
    assert_eq!(framing(&post(&[("Content-Length", "-1")])), Err(INVALID_LENGTH));
    assert_eq!(framing(&post(&[("Content-Length", "")])), Err(INVALID_LENGTH));
    let twice = [("Content-Length", "5"), ("Content-Length", "6")];
    assert_eq!(framing(&post(&twice)), Err(INVALID_LENGTH));
    let get = req(Method::Get, HttpVersion::Http11, &[("Content-Length", "x")]);
    assert_eq!(framing(&get), Err(INVALID_LENGTH));
}

#[test]
fn repeated_equal_content_length_is_accepted() {
    let twice = [("Content-Length", "5"), ("Content-Length", "5")];
    assert_eq!(framing(&post(&twice)), Ok(Framing::Fixed(5)));
}

#[test]
fn without_framing_headers_http1_has_no_body() {
    for version in [HttpVersion::Http09, HttpVersion::Http10, HttpVersion::Http11] {
        assert_eq!(framing(&req(Method::Post, version, &[])), Ok(Framing::NoBody));
        assert_eq!(framing(&req(Method::Trace, version, &[])), Ok(Framing::NoBody));
    }
}

#[test]
fn without_framing_headers_http2_may_have_a_body() {
    assert_eq!(framing(&req(Method::Post, HttpVersion::Http20, &[])), Ok(Framing::Unbounded));
    assert_eq!(framing(&req(Method::Get, HttpVersion::Http20, &[])), Ok(Framing::NoBody));
    assert_eq!(framing(&req(Method::Trace, HttpVersion::Http20, &[])), Err(TRACE_BODY));
}

#[test]
fn methods_without_payload_ignore_a_declared_body() {
    for method in [Method::Get, Method::Head, Method::Delete, Method::Connect] {
        let r = req(method.clone(), HttpVersion::Http11, &[("Content-Length", "5")]);
        assert_eq!(framing(&r), Ok(Framing::NoBody));
        let r = req(method, HttpVersion::Http11, &[("Transfer-Encoding", "chunked")]);
        assert_eq!(framing(&r), Ok(Framing::NoBody));
    }
}

#[test]
fn trace_must_not_have_a_body() {
    let r = req(Method::Trace, HttpVersion::Http11, &[("Content-Length", "5")]);
    assert_eq!(framing(&r), Err(TRACE_BODY));
    let mut buffer = None;
    assert_eq!(check_request(&r, &mut buffer), Err(TRACE_BODY));
    assert!(buffer.is_none());
}

#[test]
fn other_methods_take_a_body() {
    for method in [
        Method::Post,
        Method::Put,
        Method::Patch,
        Method::Options,
        Method::Extension("PURGE".to_string()),
    ] {
        let r = req(method, HttpVersion::Http11, &[("Content-Length", "5")]);
        assert_eq!(framing(&r), Ok(Framing::Fixed(5)));
    }
}
