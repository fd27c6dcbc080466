use edge::headers::Headers;
use edge::http::{HttpVersion, Method};
use edge::request::{self, Request, RequestHead, RequestUri};
use edge::router::{get_inner, get_segments, Callback, PatternError, Route, Router, RouterAny, Segment};

fn req(method: Method, target: &str) -> Request {
    let head = RequestHead {
        method,
        uri: RequestUri::AbsolutePath(target.to_string()),
        version: HttpVersion::Http11,
        headers: Headers::new(),
    };
    request::new("http://localhost:3000", head).unwrap()
}

fn name(callback: Option<&Callback<&'static str>>) -> Option<&'static str> {
    match callback {
        Some(Callback::Instance(name)) => Some(*name),
        Some(Callback::Static(name)) => Some(*name),
        None => None,
    }
}

fn table(router: Router<&'static str, ()>, prefix: &str) -> RouterAny<&'static str, ()> {
    let mut inner = get_inner(router);
    inner.set_prefix(prefix);
    inner
}

fn fixed(segment: &Segment) -> Option<&str> {
    match segment {
        Segment::Fixed(text) => Some(text),
        Segment::Variable(_) => None,
    }
}

fn variable(segment: &Segment) -> Option<&str> {
    match segment {
        Segment::Variable(name) => Some(name),
        Segment::Fixed(_) => None,
    }
}

#[test]
fn segments_of_a_pattern() {
    let s = get_segments("/hello/:first/:last").unwrap();
    assert_eq!(s.len(), 3);
    assert_eq!(fixed(&s[0]), Some("hello"));
    assert_eq!(variable(&s[1]), Some("first"));
    assert_eq!(variable(&s[2]), Some("last"));
}

#[test]
fn segments_of_the_root() {
    let s = get_segments("/").unwrap();
    assert_eq!(s.len(), 1);
    assert_eq!(fixed(&s[0]), Some(""));
    assert!(s[0].is_empty());
}

#[test]
fn segments_keep_empty_pieces_and_other_characters() {
    let s = get_segments("//a:b/:/é/").unwrap();
    assert_eq!(s.len(), 5);
    assert_eq!(fixed(&s[0]), Some(""));
    assert_eq!(fixed(&s[1]), Some("a:b"));
    assert_eq!(variable(&s[2]), Some(""));
    assert_eq!(fixed(&s[3]), Some("é"));
    assert_eq!(fixed(&s[4]), Some(""));
    assert!(!s[1].is_empty());
    assert!(!s[2].is_empty());
}

#[test]
fn malformed_patterns_are_refused() {
    assert_eq!(get_segments("").err(), Some(PatternError::Empty));
    assert_eq!(get_segments("hello").err(), Some(PatternError::NoLeadingSlash));
    assert_eq!(get_segments("é/").err(), Some(PatternError::NoLeadingSlash));
    assert_eq!(PatternError::Empty.message(), "route must not be empty");
    assert_eq!(PatternError::NoLeadingSlash.message(), "route must begin with a slash");
    assert!(Route::new(Method::Get, "x", Callback::Static(1)).is_err());
    assert!(Route::new(Method::Get, "/x", Callback::Static(1)).is_ok());
}

#[test]
fn route_variables_are_bound() {
    let mut router = Router::new();
    router.get("/hello/:first/:last", "hello");
    let t = table(router, "/");
    let mut r = req(Method::Get, "/hello/Jane/Doe");
    assert_eq!(name(t.find_callback(&mut r)), Some("hello"));
    assert_eq!(r.param("first"), Some("Jane"));
    assert_eq!(r.param("last"), Some("Doe"));
    assert_eq!(r.param("hello"), None);
}

#[test]
fn first_registered_route_wins() {
    let mut router = Router::new();
    router.get("/a/:x", "variable");
    router.get("/a/b", "literal");
    let t = table(router, "/");
    let mut r = req(Method::Get, "/a/b");
    assert_eq!(name(t.find_callback(&mut r)), Some("variable"));
    assert_eq!(r.param("x"), Some("b"));

    let mut router = Router::new();
    router.get("/a/b", "literal");
    router.get("/a/:x", "variable");
    let t = table(router, "/");
    let mut r = req(Method::Get, "/a/b");
    assert_eq!(name(t.find_callback(&mut r)), Some("literal"));
    assert_eq!(r.param("x"), None);
    let mut r = req(Method::Get, "/a/c");
    assert_eq!(name(t.find_callback(&mut r)), Some("variable"));
    assert_eq!(r.param("x"), Some("c"));
}

#[test]
fn bindings_of_a_failed_attempt_are_forgotten() {
    let mut router = Router::new();
    router.get("/:a/x", "first");
    router.get("/:b/y", "second");
    let t = table(router, "/");
    let mut r = req(Method::Get, "/v/y");
    assert_eq!(name(t.find_callback(&mut r)), Some("second"));
    assert_eq!(r.param("b"), Some("v"));
    assert_eq!(r.param("a"), None);
}

#[test]
fn segment_counts_must_be_equal() {
    let mut router = Router::new();
    router.get("/a", "a");
    router.get("/a/b/c", "abc");
    let t = table(router, "/");
    assert_eq!(name(t.find_callback(&mut req(Method::Get, "/a/b"))), None);
    assert_eq!(name(t.find_callback(&mut req(Method::Get, "/a"))), Some("a"));
    assert_eq!(name(t.find_callback(&mut req(Method::Get, "/a/"))), None);
    assert_eq!(name(t.find_callback(&mut req(Method::Get, "/a/b/c"))), Some("abc"));
}

#[test]
fn routes_are_looked_up_by_method() {
    let mut router = Router::new();
    router.get("/x", "get");
    router.post("/x", "post");
    router.put("/x", "put");
    router.delete("/x", "delete");
    router.head("/x", "head");
    router.insert(Method::Patch, "/x", "patch");
    router.insert_static(Method::Options, "/x", "options");
    let t = table(router, "/");
    assert_eq!(name(t.find_callback(&mut req(Method::Get, "/x"))), Some("get"));
    assert_eq!(name(t.find_callback(&mut req(Method::Post, "/x"))), Some("post"));
    assert_eq!(name(t.find_callback(&mut req(Method::Put, "/x"))), Some("put"));
    assert_eq!(name(t.find_callback(&mut req(Method::Delete, "/x"))), Some("delete"));
    assert_eq!(name(t.find_callback(&mut req(Method::Head, "/x"))), Some("head"));
    assert_eq!(name(t.find_callback(&mut req(Method::Patch, "/x"))), Some("patch"));
    assert!(matches!(
        t.find_callback(&mut req(Method::Options, "/x")),
        Some(Callback::Static("options"))
    ));
    assert_eq!(name(t.find_callback(&mut req(Method::Trace, "/x"))), None);
}

#[test]
fn static_and_instance_callbacks_are_told_apart() {
    let mut router = Router::new();
    router.get("/i", "instance");
    router.get_static("/s", "static");
    let t = table(router, "/");
    assert!(matches!(t.find_callback(&mut req(Method::Get, "/i")), Some(Callback::Instance("instance"))));
    assert!(matches!(t.find_callback(&mut req(Method::Get, "/s")), Some(Callback::Static("static"))));
}

#[test]
fn no_match_leaves_the_request_as_it_is() {
    let mut router = Router::new();
    router.get("/a/:x", "a");
    let t = table(router, "/");
    let mut r = req(Method::Get, "/b/c");
    assert_eq!(name(t.find_callback(&mut r)), None);
    assert_eq!(r.param("x"), None);
}

#[test]
fn the_root_route_matches_the_root_path() {
    let mut router = Router::new();
    router.get("/", "root");
    let t = table(router, "/");
    assert_eq!(name(t.find_callback(&mut req(Method::Get, "/"))), Some("root"));
    assert_eq!(name(t.find_callback(&mut req(Method::Get, "/x"))), None);
}

#[test]
fn a_mounted_router_sees_only_paths_under_its_prefix() {
    let mut router = Router::new();
    router.get("/users/:id", "user");
    let t = table(router, "/api/v1");
    let mut r = req(Method::Get, "/api/v1/users/7");
    assert!(t.match_prefix(r.path()));
    assert_eq!(name(t.find_callback(&mut r)), Some("user"));
    assert_eq!(r.param("id"), Some("7"));
    let mut r = req(Method::Get, "/users/7");
    assert!(!t.match_prefix(r.path()));
    assert_eq!(name(t.find_callback(&mut r)), None);
    let mut r = req(Method::Get, "/api");
    assert!(!t.match_prefix(r.path()));
    assert_eq!(name(t.find_callback(&mut r)), None);
}

#[test]
fn a_prefix_with_a_variable_matches_nothing() {
    let mut router = Router::new();
    router.get("/x", "x");
    let t = table(router, "/:tenant");
    assert_eq!(name(t.find_callback(&mut req(Method::Get, "/acme/x"))), None);
}

#[test]
fn middleware_is_kept_in_order() {
    let mut router: Router<&'static str, u8> = Router::new();
    router.add_middleware(1);
    router.add_middleware(2);
    router.get("/", "root");
    let inner = get_inner(router);
    assert_eq!(inner.middleware(), &vec![1u8, 2]);
    let empty: RouterAny<&'static str, u8> = RouterAny::new();
    assert!(empty.middleware().is_empty());
}
