//! Whether a request has a body to read, and how long it is: the rules of message
//! body length, applied once to the head of a request before any byte of a body
//! is read.

use crate::buffer::{zeros, Buffer, BufferView};
use crate::headers::{
    content_length_of, fold_case, lemma_set_keeps_others, lookup, same_name, texts_view,
    transfer_codings_of, with, FieldView,
};
use crate::http::{HttpVersion, Method, MethodView};
use crate::request::{Request, RequestView};
use vstd::prelude::*;

verus! {

/// What the head of a request says of its body.
#[derive(Clone, Copy, Debug, PartialEq, Eq, Structural)]
pub enum Framing {
    /// There is no body to read.
    NoBody,
    /// The body has this many bytes.
    Fixed(usize),
    /// The body ends where the transport says so.
    Unbounded,
}

/// The message for a `Transfer-Encoding` whose last coding is not `chunked`.
pub open spec fn not_chunked() -> Seq<char> {
    "Last encoding of Transfer-Encoding must be chunked"@
}

/// The message for a `Content-Length` that is no single number.
pub open spec fn invalid_length() -> Seq<char> {
    "Invalid Content-Length header"@
}

/// The message for a TRACE request with a body.
pub open spec fn body_in_trace() -> Seq<char> {
    "A client MUST NOT send a message body in a TRACE request."@
}

/// Whether a body means nothing in a request of this method.
pub open spec fn ignores_body(method: MethodView) -> bool {
    method == MethodView::Get || method == MethodView::Head || method == MethodView::Delete
        || method == MethodView::Connect
}

/// What a request's version and headers say of the length of its body: the number
/// of bytes, none where the length is open, or the message of the error where
/// they contradict the rules.
///
/// A `Transfer-Encoding` field rules alone, whatever `Content-Length` says: its
/// last coding must be `chunked`, and the length is then open. Without it a
/// `Content-Length` field must hold one number that fits in memory. Without
/// either, a request of a version before 2 has no body, and the length of any
/// other is open.
pub open spec fn declared_length(version: HttpVersion, headers: Seq<FieldView>) -> Result<
    Option<usize>,
    Seq<char>,
> {
    match lookup(headers, "Transfer-Encoding"@) {
        Some(lines) => match transfer_codings_of(lines) {
            Some(codings) => if codings.len() > 0 && codings.last() == "chunked"@ {
                Ok(None)
            } else {
                Err(not_chunked())
            },
            None => Err(not_chunked()),
        },
        None => match lookup(headers, "Content-Length"@) {
            Some(lines) => match content_length_of(lines) {
                Some(len) => if len <= usize::MAX {
                    Ok(Some(len as usize))
                } else {
                    Err(invalid_length())
                },
                None => Err(invalid_length()),
            },
            None => if version.spec_is_http1x() {
                Ok(Some(0usize))
            } else {
                Ok(None)
            },
        },
    }
}

/// What the head of a request says of its body, or the message of the error
/// where the request is refused.
///
/// A length of zero means no body, whatever the method. Otherwise the methods
/// GET, HEAD, DELETE and CONNECT take no body, so that what was declared is left
/// unread; TRACE must not have one; and every other method has the body that was
/// declared.
pub open spec fn framing_of(request: RequestView) -> Result<Framing, Seq<char>> {
    match declared_length(request.version, request.headers) {
        Err(message) => Err(message),
        Ok(Some(len)) if len == 0 => Ok(Framing::NoBody),
        Ok(length) => if ignores_body(request.method) {
            Ok(Framing::NoBody)
        } else if request.method == MethodView::Trace {
            Err(body_in_trace())
        } else {
            match length {
                Some(len) => Ok(Framing::Fixed(len)),
                None => Ok(Framing::Unbounded),
            }
        },
    }
}

/// The buffer that a body with the given framing is read into.
pub open spec fn buffer_for(framing: Framing) -> Option<BufferView> {
    match framing {
        Framing::NoBody => None,
        Framing::Fixed(len) => Some(
            BufferView { content: zeros(len as nat), pos: 0, growable: false },
        ),
        Framing::Unbounded => Some(BufferView { content: Seq::empty(), pos: 0, growable: true }),
    }
}

/// Whether a text is the given one.
fn is(text: &String, wanted: &str) -> (r: bool)
    ensures
        r == (text@ == wanted@),
{
    let wanted = String::from_str(wanted);
    *text == wanted
}

/// What a request's version and headers say of the length of its body.
fn declared(req: &Request) -> (r: Result<Option<usize>, &'static str>)
    ensures
        declared_length(req@.version, req@.headers) == match r {
            Ok(length) => Ok::<Option<usize>, Seq<char>>(length),
            Err(message) => Err::<Option<usize>, Seq<char>>(message@),
        },
{
    let headers = req.headers();
    if headers.has("Transfer-Encoding") {
        match headers.transfer_encoding() {
            Some(codings) => {
                let n = codings.len();
                assert(texts_view(codings).len() == n);
                if n > 0 && is(&codings[n - 1], "chunked") {
                    Ok(None)
                } else {
                    Err("Last encoding of Transfer-Encoding must be chunked")
                }
            },
            None => Err("Last encoding of Transfer-Encoding must be chunked"),
        }
    } else if headers.has("Content-Length") {
        match headers.content_length() {
            Some(len) => {
                if len <= usize::MAX as u64 {
                    Ok(Some(len as usize))
                } else {
                    Err("Invalid Content-Length header")
                }
            },
            None => Err("Invalid Content-Length header"),
        }
    } else if req.version().is_http1x() {
        Ok(Some(0))
    } else {
        Ok(None)
    }
}

/// What the head of a request says of its body.
pub fn framing(req: &Request) -> (r: Result<Framing, &'static str>)
    ensures
        framing_of(req@) == match r {
            Ok(framing) => Ok::<Framing, Seq<char>>(framing),
            Err(message) => Err::<Framing, Seq<char>>(message@),
        },
{
    let length = match declared(req) {
        Ok(length) => length,
        Err(message) => { return Err(message); },
    };
    match length {
        Some(len) => {
            if len == 0 {
                return Ok(Framing::NoBody);
            }
        },
        None => {},
    }
    match req.method() {
        Method::Get | Method::Head | Method::Delete | Method::Connect => Ok(Framing::NoBody),
        Method::Trace => Err("A client MUST NOT send a message body in a TRACE request."),
        _ => match length {
            Some(len) => Ok(Framing::Fixed(len)),
            None => Ok(Framing::Unbounded),
        },
    }
}

/// Decides whether the body of a request is to be read, and makes the buffer for
/// it: one of the declared length, or a growable one where the length is open.
/// Answers whether there is a body to read, or why the request is refused; the
/// buffer is touched only where there is one.
pub fn check_request(req: &Request, buffer: &mut Option<Buffer>) -> (r: Result<
    bool,
    &'static str,
>)
    ensures
        match framing_of(req@) {
            Err(message) => r matches Err(m) && m@ == message && *final(buffer) == *old(buffer),
            Ok(Framing::NoBody) => r == Ok::<bool, &'static str>(false) && *final(buffer) == *old(
                buffer,
            ),
            Ok(framing) => r == Ok::<bool, &'static str>(true) && (*final(buffer) matches Some(b)
                && Some(b@) == buffer_for(framing)),
        },
{
    match framing(req) {
        Err(message) => Err(message),
        Ok(Framing::NoBody) => Ok(false),
        Ok(Framing::Fixed(len)) => {
            *buffer = Some(Buffer::new_fixed(len));
            Ok(true)
        },
        Ok(Framing::Unbounded) => {
            *buffer = Some(Buffer::new());
            Ok(true)
        },
    }
}

/// Precedence: where a request has a `Transfer-Encoding` field, its framing is the
/// same whatever its `Content-Length` field is set to.
pub proof fn lemma_transfer_encoding_overrides_length(
    request: RequestView,
    length: Seq<Seq<u8>>,
)
    requires
        lookup(request.headers, "Transfer-Encoding"@).is_some(),
    ensures
        framing_of(
            RequestView {
                headers: with(request.headers, "Content-Length"@, length),
                ..request
            },
        ) == framing_of(request),
{
    assert(!same_name("Content-Length"@, "Transfer-Encoding"@)) by {
        reveal_strlit("Content-Length");
        reveal_strlit("Transfer-Encoding");
        assert(fold_case("Content-Length"@).len() == 14);
        assert(fold_case("Transfer-Encoding"@).len() == 17);
    }
    lemma_set_keeps_others(request.headers, "Content-Length"@, length, "Transfer-Encoding"@);
}

/// A request whose `Transfer-Encoding` does not end in `chunked` is refused,
/// whatever else it holds.
pub proof fn lemma_unchunked_transfer_is_refused(request: RequestView)
    requires
        lookup(request.headers, "Transfer-Encoding"@) matches Some(lines) && !(
        transfer_codings_of(lines) matches Some(codings) && codings.len() > 0 && codings.last()
            == "chunked"@),
    ensures
        framing_of(request) == Err::<Framing, Seq<char>>(not_chunked()),
{
}

} // verus!
