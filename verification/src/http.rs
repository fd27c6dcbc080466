//! The protocol's vocabulary: methods, versions and status codes.

use vstd::prelude::*;

verus! {

/// Whether two strings hold the same text.
pub fn same_text(a: &String, b: &String) -> (r: bool)
    ensures
        r == (a@ == b@),
{
    *a == *b
}

/// A request method.
#[derive(Clone, Debug, PartialEq, Eq)]
pub enum Method {
    Options,
    Get,
    Post,
    Put,
    Delete,
    Head,
    Trace,
    Connect,
    Patch,
    /// Any other method, by its name.
    Extension(String),
}

/// Mathematical form of a [`Method`].
pub enum MethodView {
    Options,
    Get,
    Post,
    Put,
    Delete,
    Head,
    Trace,
    Connect,
    Patch,
    Extension(Seq<char>),
}

impl View for Method {
    type V = MethodView;

    open spec fn view(&self) -> MethodView {
        match *self {
            Method::Options => MethodView::Options,
            Method::Get => MethodView::Get,
            Method::Post => MethodView::Post,
            Method::Put => MethodView::Put,
            Method::Delete => MethodView::Delete,
            Method::Head => MethodView::Head,
            Method::Trace => MethodView::Trace,
            Method::Connect => MethodView::Connect,
            Method::Patch => MethodView::Patch,
            Method::Extension(name) => MethodView::Extension(name@),
        }
    }
}

impl Method {
    /// Whether two methods are the same one.
    pub fn same(&self, other: &Method) -> (r: bool)
        ensures
            r == (self@ == other@),
    {
        match (self, other) {
            (Method::Options, Method::Options) => true,
            (Method::Get, Method::Get) => true,
            (Method::Post, Method::Post) => true,
            (Method::Put, Method::Put) => true,
            (Method::Delete, Method::Delete) => true,
            (Method::Head, Method::Head) => true,
            (Method::Trace, Method::Trace) => true,
            (Method::Connect, Method::Connect) => true,
            (Method::Patch, Method::Patch) => true,
            (Method::Extension(a), Method::Extension(b)) => same_text(a, b),
            _ => false,
        }
    }
}

/// A protocol version.
#[derive(Clone, Copy, Debug, PartialEq, Eq, Structural)]
pub enum HttpVersion {
    Http09,
    Http10,
    Http11,
    Http20,
}

impl HttpVersion {
    /// The versions in which a message without framing headers has no body.
    pub open spec fn spec_is_http1x(self) -> bool {
        self == HttpVersion::Http09 || self == HttpVersion::Http10 || self == HttpVersion::Http11
    }

    /// The versions in which a message without framing headers has no body.
    #[verifier::when_used_as_spec(spec_is_http1x)]
    pub fn is_http1x(self) -> (r: bool)
        ensures
            r == self.spec_is_http1x(),
    {
        match self {
            HttpVersion::Http20 => false,
            _ => true,
        }
    }
}

/// A status code.
#[derive(Clone, Copy, Debug, PartialEq, Eq, Structural)]
pub struct Status(pub u16);

impl Status {
    /// 200
    pub fn ok() -> (s: Status)
        ensures
            s == Status(200),
    {
        Status(200)
    }

    /// 204
    pub fn no_content() -> (s: Status)
        ensures
            s == Status(204),
    {
        Status(204)
    }

    /// 302
    pub fn found() -> (s: Status)
        ensures
            s == Status(302),
    {
        Status(302)
    }

    /// 304
    pub fn not_modified() -> (s: Status)
        ensures
            s == Status(304),
    {
        Status(304)
    }

    /// 400
    pub fn bad_request() -> (s: Status)
        ensures
            s == Status(400),
    {
        Status(400)
    }

    /// 404
    pub fn not_found() -> (s: Status)
        ensures
            s == Status(404),
    {
        Status(404)
    }

    /// 500
    pub fn internal_server_error() -> (s: Status)
        ensures
            s == Status(500),
    {
        Status(500)
    }

    /// The codes from 100 to 199.
    pub open spec fn spec_is_informational(self) -> bool {
        100 <= self.0 <= 199
    }

    /// The codes from 100 to 199.
    #[verifier::when_used_as_spec(spec_is_informational)]
    pub fn is_informational(self) -> (r: bool)
        ensures
            r == self.spec_is_informational(),
    {
        100 <= self.0 && self.0 <= 199
    }

    /// A response with such a status never has a body, and so carries no length:
    /// the informational ones, 204 and 304.
    pub open spec fn spec_forbids_body(self) -> bool {
        self.spec_is_informational() || self.0 == 204 || self.0 == 304
    }

    /// A response with such a status never has a body, and so carries no length:
    /// the informational ones, 204 and 304.
    #[verifier::when_used_as_spec(spec_forbids_body)]
    pub fn forbids_body(self) -> (r: bool)
        ensures
            r == self.spec_forbids_body(),
    {
        self.is_informational() || self.0 == 204 || self.0 == 304
    }
}

} // verus!
