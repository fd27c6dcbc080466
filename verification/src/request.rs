//! A request as the application sees it: method, version and headers as they
//! came, the target resolved into path segments, query and fragment, the
//! parameters that a route bound, and the body once it was read.

use crate::buffer::{Buffer, BufferView};
use crate::headers::{lookup, media_type_in, texts_view, FieldView, Headers};
use crate::http::{HttpVersion, Method, MethodView};
use crate::params::{map_of, pairs_view, Params};
use vstd::prelude::*;

verus! {

/// A JSON value of the `serde_json` crate.
#[verifier::external_type_specification]
#[verifier::external_body]
pub struct ExJsonValue(serde_json::Value);

/// The error of the `serde_json` crate.
#[verifier::external_type_specification]
#[verifier::external_body]
pub struct ExJsonError(serde_json::Error);

/// The target of a request, as the request line gives it.
#[derive(Clone, Debug)]
pub enum RequestUri {
    /// A path, with a query and a fragment where there are any.
    AbsolutePath(String),
    /// A whole URL.
    AbsoluteUri(String),
    /// A host and a port.
    Authority(String),
    /// The asterisk.
    Star,
}

/// What is known of a request once its request line and headers were read.
#[derive(Clone, Debug)]
pub struct RequestHead {
    pub method: Method,
    pub uri: RequestUri,
    pub version: HttpVersion,
    pub headers: Headers,
}

/// The parts of a URL that a request is asked for.
pub struct Location {
    /// The path segments. None where the URL cannot be a base.
    pub path: Option<Vec<String>>,
    /// The pairs of the query, in their order.
    pub query: Vec<(String, String)>,
    pub fragment: Option<String>,
}

/// Mathematical form of a [`Location`].
pub struct LocationView {
    pub path: Option<Seq<Seq<char>>>,
    pub query: Seq<(Seq<char>, Seq<char>)>,
    pub fragment: Option<Seq<char>>,
}

impl View for Location {
    type V = LocationView;

    open spec fn view(&self) -> LocationView {
        LocationView {
            path: match self.path {
                Some(path) => Some(texts_view(path)),
                None => None,
            },
            query: pairs_view(self.query),
            fragment: match self.fragment {
                Some(fragment) => Some(fragment@),
                None => None,
            },
        }
    }
}

/// The URL that the `url` crate makes of `reference` taken relative to the URL
/// `base`, in parts: its path segments, the pairs of its query, its fragment. Or
/// the message of the crate's error, where either text is refused.
///
/// The name stands for a composition: `Url::parse` on `base`, `Url::join` of
/// `reference` on what that gave, and `path_segments`, `query_pairs` and
/// `fragment` on the joined URL; or, where parsing or joining fails, the text
/// that the crate prints for its error.
pub uninterp spec fn joined(base: Seq<char>, reference: Seq<char>) -> Result<
    LocationView,
    Seq<char>,
>;

/// The pairs that the `url` crate reads from a body in the
/// `application/x-www-form-urlencoded` syntax.
pub uninterp spec fn form_pairs(body: Seq<u8>) -> Seq<(Seq<char>, Seq<char>)>;

/// Whether the `serde_json` crate reads a JSON value from these bytes.
pub uninterp spec fn is_json(body: Seq<u8>) -> bool;

/// Parses `base` with `Url::parse`, resolves `reference` against it with
/// `Url::join`, and takes the result apart with `path_segments`, `query_pairs` and
/// `fragment`. An error of the crate comes back as its message. The contract
/// names the result, and says of it what the crate documents of `path_segments`:
/// where there are segments, there is at least one.
#[verifier::external_body]
fn join(base: &str, reference: &str) -> (r: Result<Location, String>)
    ensures
        joined(base@, reference@) == match r {
            Ok(location) => Ok::<LocationView, Seq<char>>(location@),
            Err(message) => Err::<LocationView, Seq<char>>(message@),
        },
        r matches Ok(location) ==> (location.path matches Some(path) ==> path@.len() >= 1),
{
    let url = url::Url::parse(base).and_then(|b| b.join(reference)).map_err(|e| e.to_string())?;
    Ok(
        Location {
            path: url.path_segments().map(|segments| segments.map(String::from).collect()),
            query: url.query_pairs().into_owned().collect(),
            fragment: url.fragment().map(String::from),
        },
    )
}

/// Calls `url::form_urlencoded::parse` on the body and collects the pairs it
/// yields, in their order. The contract names the result.
#[verifier::external_body]
fn parse_form(body: &[u8]) -> (r: Vec<(String, String)>)
    ensures
        pairs_view(r) == form_pairs(body@),
{
    url::form_urlencoded::parse(body).into_owned().collect()
}

/// Calls `serde_json::from_slice` on the body. The contract names on which bytes
/// it gives a value, and says nothing of the value.
#[verifier::external_body]
fn parse_json(body: &[u8]) -> (r: Result<serde_json::Value, serde_json::Error>)
    ensures
        r.is_ok() == is_json(body@),
{
    serde_json::from_slice(body)
}

/// Why a request's body could not be had in the form that was asked for.
#[derive(Debug)]
pub enum BodyError {
    /// The request has no body.
    Empty,
    /// The request has no `Content-Type` field.
    MissingContentType,
    /// The `Content-Type` field names another media type.
    InvalidContentType,
    /// The body is no JSON text.
    Json(serde_json::Error),
}

/// A request.
pub struct Request {
    method: Method,
    version: HttpVersion,
    headers: Headers,
    path: Vec<String>,
    query: Option<Params>,
    fragment: Option<String>,
    params: Option<Params>,
    body: Option<Buffer>,
}

/// Mathematical form of a [`Request`].
pub struct RequestView {
    pub method: MethodView,
    pub version: HttpVersion,
    pub headers: Seq<FieldView>,
    pub path: Seq<Seq<char>>,
    pub query: Option<Map<Seq<char>, Seq<char>>>,
    pub fragment: Option<Seq<char>>,
    pub params: Option<Map<Seq<char>, Seq<char>>>,
    pub body: Option<BufferView>,
}

impl View for Request {
    type V = RequestView;

    closed spec fn view(&self) -> RequestView {
        RequestView {
            method: self.method@,
            version: self.version,
            headers: self.headers@,
            path: texts_view(self.path),
            query: match self.query {
                Some(query) => Some(query@),
                None => None,
            },
            fragment: match self.fragment {
                Some(fragment) => Some(fragment@),
                None => None,
            },
            params: match self.params {
                Some(params) => Some(params@),
                None => None,
            },
            body: match self.body {
                Some(body) => Some(body@),
                None => None,
            },
        }
    }
}

/// The message of the error for a target that is neither a path nor the asterisk,
/// or that resolves to a URL without path segments.
pub open spec fn unsupported_uri() -> Seq<char> {
    "unsupported request URI"@
}

/// The request that [`new`] makes of a head, or the message of its error.
pub open spec fn new_spec(base_url: Seq<char>, head: RequestHead) -> Result<
    RequestView,
    Seq<char>,
> {
    let blank = RequestView {
        method: head.method@,
        version: head.version,
        headers: head.headers@,
        path: seq!["*"@],
        query: None,
        fragment: None,
        params: None,
        body: None,
    };
    match head.uri {
        RequestUri::Star => Ok(blank),
        RequestUri::AbsolutePath(reference) => match joined(base_url, reference@) {
            Ok(location) => match location.path {
                Some(path) => Ok(
                    RequestView {
                        path,
                        query: Some(map_of(location.query)),
                        fragment: location.fragment,
                        ..blank
                    },
                ),
                None => Err(unsupported_uri()),
            },
            Err(message) => Err(message),
        },
        _ => Err(unsupported_uri()),
    }
}

/// Makes a request of its head. The asterisk gives the one path segment `*` and
/// neither query nor fragment. A path is resolved against `base_url`, and its
/// segments, query and fragment are those of the resulting URL. Any other target
/// is refused, and so is a path that the `url` crate refuses, with its message.
pub fn new(base_url: &str, head: RequestHead) -> (r: Result<Request, String>)
    ensures
        new_spec(base_url@, head) == match r {
            Ok(request) => Ok::<RequestView, Seq<char>>(request@),
            Err(message) => Err::<RequestView, Seq<char>>(message@),
        },
        r matches Ok(request) ==> request@.path.len() >= 1,
{
    let RequestHead { method, uri, version, headers } = head;
    match uri {
        RequestUri::Star => {
            let mut path: Vec<String> = Vec::new();
            path.push(String::from_str("*"));
            assert(texts_view(path) =~= seq!["*"@]);
            Ok(
                Request {
                    method,
                    version,
                    headers,
                    path,
                    query: None,
                    fragment: None,
                    params: None,
                    body: None,
                },
            )
        },
        RequestUri::AbsolutePath(reference) => {
            match join(base_url, reference.as_str()) {
                Ok(location) => {
                    let Location { path, query, fragment } = location;
                    match path {
                        Some(path) => {
                            assert(texts_view(path).len() == path@.len());
                            Ok(
                                Request {
                                    method,
                                    version,
                                    headers,
                                    path,
                                    query: Some(Params::from_pairs(query)),
                                    fragment,
                                    params: None,
                                    body: None,
                                },
                            )
                        },
                        None => Err(String::from_str("unsupported request URI")),
                    }
                },
                Err(message) => Err(message),
            }
        },
        _ => Err(String::from_str("unsupported request URI")),
    }
}

/// Gives the request, if there is one, its body, or takes it away.
pub fn set_body(request: Option<&mut Request>, body: Option<Buffer>)
    ensures
        request matches Some(given) ==> final(given)@ == (RequestView {
            body: match body {
                Some(body) => Some(body@),
                None => None,
            },
            ..given@
        }),
{
    if let Some(req) = request {
        req.body = body;
    }
}

/// Gives the request the parameters that a route bound.
pub fn set_params(request: &mut Request, params: Params)
    ensures
        final(request)@ == (RequestView { params: Some(params@), ..old(request)@ }),
{
    request.params = Some(params);
}

/// Whether a media type is `application/json`.
pub open spec fn is_json_type(media: (Seq<char>, Seq<char>)) -> bool {
    media.0 == "application"@ && media.1 == "json"@
}

/// Whether a media type is `application/x-www-form-urlencoded`.
pub open spec fn is_form_type(media: (Seq<char>, Seq<char>)) -> bool {
    media.0 == "application"@ && media.1 == "x-www-form-urlencoded"@
}

/// The media type that the headers declare: what `hyper` reads from the
/// `Content-Type` field, and none where that field holds a byte that is no ASCII
/// character.
pub open spec fn declared_type(headers: Seq<FieldView>) -> Option<(Seq<char>, Seq<char>)> {
    match lookup(headers, "Content-Type"@) {
        Some(lines) => media_type_in(lines),
        None => None,
    }
}

/// Whether a text is the given one.
fn text_is(text: &String, wanted: &str) -> (r: bool)
    ensures
        r == (text@ == wanted@),
{
    let wanted = String::from_str(wanted);
    *text == wanted
}

impl Request {
    /// The bytes of the body.
    pub fn body(&self) -> (r: Result<&[u8], BodyError>)
        ensures
            match self@.body {
                Some(body) => r matches Ok(bytes) && bytes@ == body.content,
                None => r matches Err(BodyError::Empty),
            },
    {
        match &self.body {
            Some(buffer) => Ok(buffer.as_ref()),
            None => Err(BodyError::Empty),
        }
    }

    /// The cookies that the request carries.
    pub fn cookies(&self) -> (r: Vec<String>)
        ensures
            texts_view(r) == match lookup(self@.headers, "Cookie"@) {
                Some(lines) => match crate::headers::cookies_of(lines) {
                    Some(cookies) => cookies,
                    None => Seq::empty(),
                },
                None => Seq::empty(),
            },
    {
        self.headers.cookies()
    }

    /// The body read as a form. The request must have a body, and declare it to be
    /// `application/x-www-form-urlencoded`.
    pub fn form(&self) -> (r: Result<Params, BodyError>)
        ensures
            match self@.body {
                None => r matches Err(BodyError::Empty),
                Some(body) => match declared_type(self@.headers) {
                    None => r matches Err(BodyError::MissingContentType),
                    Some(media) => if is_form_type(media) {
                        r matches Ok(form) && form@ == map_of(form_pairs(body.content))
                    } else {
                        r matches Err(BodyError::InvalidContentType)
                    },
                },
            },
    {
        let body = match self.body() {
            Ok(body) => body,
            Err(e) => { return Err(e); },
        };
        match self.headers.content_type() {
            Some((top, sub)) => {
                if text_is(&top, "application") && text_is(&sub, "x-www-form-urlencoded") {
                    Ok(Params::from_pairs(parse_form(body)))
                } else {
                    Err(BodyError::InvalidContentType)
                }
            },
            None => Err(BodyError::MissingContentType),
        }
    }

    /// The body read as JSON. The request must have a body, and declare it to be
    /// `application/json`.
    pub fn json(&self) -> (r: Result<serde_json::Value, BodyError>)
        ensures
            match self@.body {
                None => r matches Err(BodyError::Empty),
                Some(body) => match declared_type(self@.headers) {
                    None => r matches Err(BodyError::MissingContentType),
                    Some(media) => if !is_json_type(media) {
                        r matches Err(BodyError::InvalidContentType)
                    } else if is_json(body.content) {
                        r is Ok
                    } else {
                        r matches Err(BodyError::Json(_))
                    },
                },
            },
    {
        let body = match self.body() {
            Ok(body) => body,
            Err(e) => { return Err(e); },
        };
        match self.headers.content_type() {
            Some((top, sub)) => {
                if text_is(&top, "application") && text_is(&sub, "json") {
                    match parse_json(body) {
                        Ok(value) => Ok(value),
                        Err(e) => Err(BodyError::Json(e)),
                    }
                } else {
                    Err(BodyError::InvalidContentType)
                }
            },
            None => Err(BodyError::MissingContentType),
        }
    }

    /// The protocol version.
    pub fn version(&self) -> (r: &HttpVersion)
        ensures
            *r == self@.version,
    {
        &self.version
    }

    /// The method.
    pub fn method(&self) -> (r: &Method)
        ensures
            r@ == self@.method,
    {
        &self.method
    }

    /// The header fields.
    pub fn headers(&self) -> (r: &Headers)
        ensures
            r@ == self@.headers,
    {
        &self.headers
    }

    /// The value that the matching route bound to `key`.
    pub fn param(&self, key: &str) -> (r: Option<&str>)
        ensures
            match r {
                Some(value) => self@.params matches Some(params) && params.dom().contains(key@)
                    && params[key@] == value@,
                None => self@.params matches Some(params) ==> !params.dom().contains(key@),
            },
    {
        match &self.params {
            Some(params) => params.get(key),
            None => None,
        }
    }

    /// The segments of the path.
    pub fn path(&self) -> (r: &Vec<String>)
        ensures
            texts_view(*r) == self@.path,
    {
        &self.path
    }

    /// The value that the query gives to `key`.
    pub fn query(&self, key: &str) -> (r: Option<&str>)
        ensures
            match r {
                Some(value) => self@.query matches Some(query) && query.dom().contains(key@)
                    && query[key@] == value@,
                None => self@.query matches Some(query) ==> !query.dom().contains(key@),
            },
    {
        match &self.query {
            Some(query) => query.get(key),
            None => None,
        }
    }

    /// The fragment of the target.
    pub fn fragment(&self) -> (r: Option<&str>)
        ensures
            match r {
                Some(fragment) => self@.fragment == Some(fragment@),
                None => self@.fragment.is_none(),
            },
    {
        match &self.fragment {
            Some(fragment) => Some(fragment.as_str()),
            None => None,
        }
    }
}

} // verus!
