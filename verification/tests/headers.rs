use edge::headers::{decimal, Headers};

fn lines(values: &[&str]) -> Vec<Vec<u8>> {
    values.iter().map(|v| v.as_bytes().to_vec()).collect()
}

#[test]
fn headers_start_empty() {
    let h = Headers::new();
    assert!(h.fields().is_empty());
    assert!(!h.has("Content-Type"));
    assert!(h.get_raw("Content-Type").is_none());
}

#[test]
fn set_raw_is_found_whatever_the_case() {
    let mut h = Headers::new();
    h.set_raw("Content-Type", lines(&["text/plain"]));
    assert_eq!(h.get_raw("content-type"), Some(&lines(&["text/plain"])));
    assert_eq!(h.get_raw("CONTENT-TYPE"), Some(&lines(&["text/plain"])));
    assert!(h.has("Content-type"));
    assert!(!h.has("Content-Typ"));
    assert!(!h.has("Content-Type "));
}

#[test]
fn set_raw_replaces_the_field_of_that_name() {
    let mut h = Headers::new();
    h.set_raw("X-One", lines(&["1"]));
    h.set_raw("X-Two", lines(&["2"]));
    h.set_raw("x-one", lines(&["3"]));
    assert_eq!(h.fields().len(), 2);
    assert_eq!(h.get_raw("X-One"), Some(&lines(&["3"])));
    assert_eq!(h.get_raw("X-Two"), Some(&lines(&["2"])));
    assert_eq!(h.fields()[0].name, "X-Two");
    assert_eq!(h.fields()[1].name, "x-one");
}

#[test]
fn remove_takes_only_that_name() {
    let mut h = Headers::new();
    h.set_raw("Content-Length", lines(&["5"]));
    h.set_raw("Content-Type", lines(&["text/plain"]));
    h.remove("content-length");
    assert!(!h.has("Content-Length"));
    assert!(h.has("Content-Type"));
    h.remove("Content-Length");
    assert_eq!(h.fields().len(), 1);
}

#[test]
fn append_raw_adds_a_line() {
    let mut h = Headers::new();
    h.append_raw("Set-Cookie", b"a=1".to_vec());
    h.append_raw("set-cookie", b"b=2".to_vec());
    assert_eq!(h.get_raw("Set-Cookie"), Some(&lines(&["a=1", "b=2"])));
    assert_eq!(h.fields().len(), 1);
}

#[test]
fn non_ascii_letters_are_not_folded() {
    let mut h = Headers::new();
    h.set_raw("É", lines(&["1"]));
    assert!(h.has("É"));
    assert!(!h.has("é"));
}

#[test]
fn content_length_is_read_by_hyper() {
    let mut h = Headers::new();
    assert_eq!(h.content_length(), None);
    h.set_raw("Content-Length", lines(&["3495"]));
    assert_eq!(h.content_length(), Some(3495));
    h.set_raw("Content-Length", lines(&["5", "5"]));
    assert_eq!(h.content_length(), Some(5));
    h.set_raw("Content-Length", lines(&["5", "6"]));
    assert_eq!(h.content_length(), None);
    h.set_raw("Content-Length", lines(&["34v95"]));
    assert_eq!(h.content_length(), None);
    h.set_raw("Content-Length", lines(&["18446744073709551615"]));
    assert_eq!(h.content_length(), Some(u64::MAX));
    h.set_raw("Content-Length", lines(&["18446744073709551616"]));
    assert_eq!(h.content_length(), None);
}

#[test]
fn transfer_encoding_is_read_by_hyper() {
    let mut h = Headers::new();
    assert_eq!(h.transfer_encoding(), None);
    h.set_raw("Transfer-Encoding", lines(&["gzip, chunked"]));
    assert_eq!(h.transfer_encoding(), Some(vec!["gzip".to_string(), "chunked".to_string()]));
    h.set_raw("Transfer-Encoding", lines(&["chunked", "br"]));
    assert_eq!(h.transfer_encoding(), Some(vec!["chunked".to_string(), "br".to_string()]));
    h.set_raw("Transfer-Encoding", vec![vec![0xff, 0xfe]]);
    assert_eq!(h.transfer_encoding(), None);
}

#[test]
fn content_type_is_read_by_hyper() {
    let mut h = Headers::new();
    assert_eq!(h.content_type(), None);
    h.set_raw("Content-Type", lines(&["application/json; charset=utf-8"]));
    assert_eq!(h.content_type(), Some(("application".to_string(), "json".to_string())));
    h.set_raw("Content-Type", lines(&["Application/X-WWW-Form-UrlEncoded"]));
    assert_eq!(
        h.content_type(),
        Some(("application".to_string(), "x-www-form-urlencoded".to_string()))
    );
    h.set_raw("Content-Type", lines(&["nonsense"]));
    assert_eq!(h.content_type(), None);
}

#[test]
fn content_type_with_a_byte_beyond_ascii_is_not_read() {
    let mut h = Headers::new();
    h.set_raw("Content-Type", lines(&["a/b; x=\"aé\""]));
    assert_eq!(h.content_type(), None);
    h.set_raw("Content-Type", lines(&["application/json; x=\"é\""]));
    assert_eq!(h.content_type(), None);
    h.set_raw("Content-Type", vec![vec![b'a', b'/', b'b', 0x80]]);
    assert_eq!(h.content_type(), None);
    h.set_raw("Content-Type", lines(&["application/json; x=\"a~\""]));
    assert_eq!(h.content_type(), Some(("application".to_string(), "json".to_string())));
    h.set_raw("Content-Type", vec![vec![b'a', b'/', b'b', 0x7f]]);
    assert_eq!(h.content_type(), None);
    h.set_raw("Content-Type", lines(&["a/b; x=\"\""]));
    assert_eq!(h.content_type(), Some(("a".to_string(), "b".to_string())));
}

#[test]
fn names_fold_only_the_ascii_letters() {
    let mut h = Headers::new();
    h.set_raw("AZaz", lines(&["1"]));
    assert!(h.has("azAZ"));
    assert!(!h.has("AZa"));
    assert!(!h.has("AZazz"));
    h.set_raw("@[", lines(&["2"]));
    assert!(h.has("@["));
    assert!(!h.has("`{"));
    assert!(!h.has("`["));
    assert!(!h.has("@{"));
    h.set_raw("", lines(&["3"]));
    assert!(h.has(""));
    assert_eq!(h.fields().len(), 3);
}

#[test]
fn cookies_are_read_by_hyper() {
    let mut h = Headers::new();
    assert!(h.cookies().is_empty());
    h.set_raw("Cookie", lines(&["foo=bar; baz=quux"]));
    assert_eq!(h.cookies(), vec!["foo=bar".to_string(), "baz=quux".to_string()]);
}

#[test]
fn decimal_gives_ascii_digits() {
    assert_eq!(decimal(0), b"0".to_vec());
    assert_eq!(decimal(7), b"7".to_vec());
    assert_eq!(decimal(10), b"10".to_vec());
    assert_eq!(decimal(3495), b"3495".to_vec());
    assert_eq!(decimal(u64::MAX), b"18446744073709551615".to_vec());
}
