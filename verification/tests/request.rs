use edge::buffer::Buffer;
use edge::headers::Headers;
use edge::http::{HttpVersion, Method, Status};
use edge::params::Params;
use edge::request::{self, BodyError, Request, RequestHead, RequestUri};

const BASE: &str = "http://localhost:3000";

fn head(method: Method, target: &str, fields: &[(&str, &str)]) -> RequestHead {
    let mut headers = Headers::new();
    for (name, value) in fields {
        headers.append_raw(name, value.as_bytes().to_vec());
    }
    RequestHead {
        method,
        uri: RequestUri::AbsolutePath(target.to_string()),
        version: HttpVersion::Http11,
        headers,
    }
}

fn get(target: &str) -> Request {
    request::new(BASE, head(Method::Get, target, &[])).unwrap()
}

fn with_body(fields: &[(&str, &str)], body: &[u8]) -> Request {
    let mut r = request::new(BASE, head(Method::Post, "/", fields)).unwrap();
    request::set_body(Some(&mut r), Some(Buffer::from(body.to_vec())));
    r
}

#[test]
fn path_is_split_into_segments() {
    let r = get("/hello/Jane/Doe");
    assert_eq!(r.path(), &vec!["hello".to_string(), "Jane".to_string(), "Doe".to_string()]);
    assert!(matches!(r.method(), Method::Get));
    assert_eq!(*r.version(), HttpVersion::Http11);
    assert!(r.fragment().is_none());
    assert!(r.param("first").is_none());
}

#[test]
fn root_path_is_one_empty_segment() {
    assert_eq!(get("/").path(), &vec![String::new()]);
}

#[test]
fn trailing_slash_gives_an_empty_last_segment() {
    assert_eq!(get("/a/").path(), &vec!["a".to_string(), String::new()]);
}

#[test]
fn dot_segments_are_resolved_by_the_url_crate() {
    assert_eq!(get("/a/../b/./c").path(), &vec!["b".to_string(), "c".to_string()]);
}

#[test]
fn star_gives_the_wildcard_segment() {
    let h = RequestHead {
        method: Method::Options,
        uri: RequestUri::Star,
        version: HttpVersion::Http11,
        headers: Headers::new(),
    };
    let r = request::new(BASE, h).unwrap();
    assert_eq!(r.path(), &vec!["*".to_string()]);
    assert!(r.query("a").is_none());
    assert!(r.fragment().is_none());
}

#[test]
fn query_pairs_are_decoded_and_the_last_of_a_name_stays() {
    let r = get("/search?q=rust+lang&page=2&q=verus%21&empty");
    assert_eq!(r.path(), &vec!["search".to_string()]);
    assert_eq!(r.query("q"), Some("verus!"));
    assert_eq!(r.query("page"), Some("2"));
    assert_eq!(r.query("empty"), Some(""));
    assert_eq!(r.query("none"), None);
}

#[test]
fn fragment_is_kept() {
    let r = get("/data.csv?x=1#row=4");
    assert_eq!(r.fragment(), Some("row=4"));
    assert_eq!(r.query("x"), Some("1"));
}

#[test]
fn other_targets_are_refused() {
    let mut h = head(Method::Get, "/", &[]);
    h.uri = RequestUri::Authority("example.com:80".to_string());
    assert_eq!(request::new(BASE, h).err(), Some("unsupported request URI".to_string()));
    let mut h = head(Method::Get, "/", &[]);
    h.uri = RequestUri::AbsoluteUri("http://example.com/".to_string());
    assert_eq!(request::new(BASE, h).err(), Some("unsupported request URI".to_string()));
}

#[test]
fn target_without_segments_is_refused() {
    let h = head(Method::Get, "mailto:someone@example.com", &[]);
    assert_eq!(request::new(BASE, h).err(), Some("unsupported request URI".to_string()));
}

#[test]
fn error_of_the_url_crate_comes_back_as_its_message() {
    let h = head(Method::Get, "/", &[]);
    assert_eq!(
        request::new("not a url", h).err(),
        Some("relative URL without a base".to_string())
    );
    let h = head(Method::Get, "//[bad/", &[]);
    assert_eq!(request::new(BASE, h).err(), Some("invalid IPv6 address".to_string()));
}

#[test]
fn body_is_missing_until_set() {
    let mut r = get("/");
    assert!(matches!(r.body(), Err(BodyError::Empty)));
    assert!(matches!(r.form(), Err(BodyError::Empty)));
    assert!(matches!(r.json(), Err(BodyError::Empty)));
    request::set_body(Some(&mut r), Some(Buffer::from(b"abc".to_vec())));
    assert_eq!(r.body().unwrap(), b"abc");
    request::set_body(None, Some(Buffer::from(b"xyz".to_vec())));
    assert_eq!(r.body().unwrap(), b"abc");
    request::set_body(Some(&mut r), None);
    assert!(matches!(r.body(), Err(BodyError::Empty)));
}

#[test]
fn form_needs_the_form_content_type() {
    let r = with_body(&[], b"a=1");
    assert!(matches!(r.form(), Err(BodyError::MissingContentType)));
    let r = with_body(&[("Content-Type", "text/plain")], b"a=1");
    assert!(matches!(r.form(), Err(BodyError::InvalidContentType)));
    let r = with_body(&[("Content-Type", "application/json")], b"a=1");
    assert!(matches!(r.form(), Err(BodyError::InvalidContentType)));
}

#[test]
fn content_type_beyond_ascii_counts_as_missing() {
    let r = with_body(&[("Content-Type", "application/json; x=\"aé\"")], b"{}");
    assert!(matches!(r.json(), Err(BodyError::MissingContentType)));
    let r = with_body(
        &[("Content-Type", "application/x-www-form-urlencoded; x=\"aé\"")],
        b"a=1",
    );
    assert!(matches!(r.form(), Err(BodyError::MissingContentType)));
}

#[test]
fn form_is_parsed_by_the_url_crate() {
    let r = with_body(
        &[("Content-Type", "application/x-www-form-urlencoded")],
        b"%23first=%25try%25&name=Jane+Doe&name=Jo",
    );
    let form = r.form().unwrap();
    assert_eq!(form.get("#first"), Some("%try%"));
    assert_eq!(form.get("name"), Some("Jo"));
    assert_eq!(form.get("other"), None);
}

#[test]
fn json_needs_the_json_content_type() {
    let r = with_body(&[], b"{}");
    assert!(matches!(r.json(), Err(BodyError::MissingContentType)));
    let r = with_body(&[("Content-Type", "application/x-www-form-urlencoded")], b"{}");
    assert!(matches!(r.json(), Err(BodyError::InvalidContentType)));
}

#[test]
fn json_is_parsed_by_serde_json() {
    let r = with_body(&[("Content-Type", "application/json; charset=utf-8")], b"{\"a\": [1, 2]}");
    let value = r.json().unwrap();
    assert_eq!(value["a"][1], serde_json::Value::from(2));
    let r = with_body(&[("Content-Type", "application/json")], b"{\"a\": ");
    assert!(matches!(r.json(), Err(BodyError::Json(_))));
}

#[test]
fn cookies_come_from_the_cookie_header() {
    let r = request::new(BASE, head(Method::Get, "/", &[("Cookie", "a=1; b=2")])).unwrap();
    assert_eq!(r.cookies(), vec!["a=1".to_string(), "b=2".to_string()]);
    assert!(get("/").cookies().is_empty());
}

#[test]
fn params_are_set_by_the_router() {
    let mut r = get("/");
    assert_eq!(r.param("id"), None);
    let mut p = Params::new();
    p.insert("id".to_string(), "7".to_string());
    p.insert("id".to_string(), "8".to_string());
    request::set_params(&mut r, p);
    assert_eq!(r.param("id"), Some("8"));
    assert_eq!(r.param("ID"), None);
}

#[test]
fn params_clear_forgets_everything() {
    let mut p = Params::from_pairs(vec![("a".to_string(), "1".to_string())]);
    assert_eq!(p.get("a"), Some("1"));
    p.clear();
    assert_eq!(p.get("a"), None);
}

#[test]
fn status_helpers() {
    assert_eq!(Status::ok(), Status(200));
    assert_eq!(Status::no_content(), Status(204));
    assert_eq!(Status::found(), Status(302));
    assert_eq!(Status::not_modified(), Status(304));
    assert_eq!(Status::bad_request(), Status(400));
    assert_eq!(Status::not_found(), Status(404));
    assert_eq!(Status::internal_server_error(), Status(500));
    assert!(Status(100).is_informational());
    assert!(Status(199).is_informational());
    assert!(!Status(99).is_informational());
    assert!(!Status(200).is_informational());
    assert!(Status(101).forbids_body());
    assert!(Status(204).forbids_body());
    assert!(Status(304).forbids_body());
    assert!(!Status(200).forbids_body());
    assert!(!Status(404).forbids_body());
}

#[test]
fn methods_and_versions() {
    assert!(Method::Get.same(&Method::Get));
    assert!(!Method::Get.same(&Method::Head));
    assert!(Method::Extension("PURGE".to_string()).same(&Method::Extension("PURGE".to_string())));
    assert!(!Method::Extension("PURGE".to_string()).same(&Method::Extension("purge".to_string())));
    assert!(HttpVersion::Http09.is_http1x());
    assert!(HttpVersion::Http10.is_http1x());
    assert!(HttpVersion::Http11.is_http1x());
    assert!(!HttpVersion::Http20.is_http1x());
}
