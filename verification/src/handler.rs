//! The life of one request on a connection, as a machine that is driven from
//! outside: the caller reads from and writes to the transport, runs callbacks
//! and moves replies from the side that makes them to the side that writes them,
//! and tells the machine what came of each; the machine keeps the state and
//! answers what is to be done next.

use crate::buffer::{Buffer, BufferView, Progress, ReadEvent, TransferError, WriteEvent};
use crate::framing::{buffer_for, check_request, framing_of, Framing};
use crate::headers::{
    decimal, decimal_digits, lemma_without, lookup, texts_view, without, FieldView, Headers,
};
use crate::http::{Method, MethodView, Status};
use crate::request::{new_spec, set_body, Request, RequestHead, RequestView};
use crate::response::{
    ascii_bytes, file_body, is_streaming, send_file, set_streaming, utf8, Action, FileRead,
    HandlerResult, Response, ResponseView,
};
use crate::params::map_of;
use crate::router::{bindings, Callback, RouterAny, RouterView};
use vstd::prelude::*;

verus! {

/// The template registry of the `handlebars` crate.
#[verifier::external_type_specification]
#[verifier::external_body]
pub struct ExHandlebars<'reg>(handlebars::Handlebars<'reg>);

/// What the connection does next.
#[derive(Clone, Copy, Debug, PartialEq, Eq, Structural)]
pub enum Next {
    /// Waits until the transport can be read.
    Read,
    /// Waits until the transport can be written.
    Write,
    /// Waits until it is woken.
    Wait,
    /// Is done with this request.
    End,
    /// Is torn down.
    Remove,
}

/// What the side that makes a response hands to the side that writes it.
#[derive(Debug)]
pub enum Reply {
    /// The status and the header fields.
    Headers(Response),
    /// The body, or one chunk of a streamed body. An empty one ends a stream.
    Body(Buffer),
}

/// Mathematical form of a [`Reply`].
pub enum ReplyView {
    Headers(ResponseView),
    Body(BufferView),
}

impl View for Reply {
    type V = ReplyView;

    open spec fn view(&self) -> ReplyView {
        match *self {
            Reply::Headers(response) => ReplyView::Headers(response@),
            Reply::Body(body) => ReplyView::Body(body@),
        }
    }
}

/// The replies of a list, each in its mathematical form.
pub open spec fn replies_view(replies: Vec<Reply>) -> Seq<ReplyView> {
    replies@.map_values(|reply: Reply| reply@)
}

/// The body that a callback's result stands for.
pub enum Body<S> {
    /// No body.
    Empty,
    /// These bytes.
    Full(Buffer),
    /// What the application writes when it is handed a stream.
    Streaming(S),
    /// The content of the file with this name, which is yet to be read.
    File(String),
}

/// Mathematical form of a [`Body`].
pub enum BodyView<S> {
    Empty,
    Full(BufferView),
    Streaming(S),
    File(Seq<char>),
}

impl<S> View for Body<S> {
    type V = BodyView<S>;

    open spec fn view(&self) -> BodyView<S> {
        match *self {
            Body::Empty => BodyView::Empty,
            Body::Full(buffer) => BodyView::Full(buffer@),
            Body::Streaming(stream) => BodyView::Streaming(stream),
            Body::File(name) => BodyView::File(name@),
        }
    }
}

/// A growable buffer that holds `content`, at position 0: a body that is ready to
/// be written.
pub open spec fn ready(content: Seq<u8>) -> BufferView {
    BufferView { content, pos: 0, growable: true }
}

/// The bytes of an ASCII text.
pub open spec fn ascii(text: Seq<char>) -> Seq<u8> {
    text.map_values(|c: char| c as u8)
}

/// The response with a media type set.
pub open spec fn typed(response: ResponseView, media: Seq<char>) -> ResponseView {
    response.with_header("Content-Type"@, ascii(media))
}

/// The response and the body after a template was rendered, with what rendering
/// gave: the text, or the error in words. A text is the body, as HTML unless the
/// response declares a media type. An error makes the status 500 and is the
/// body, as plain text.
pub open spec fn rendered(response: ResponseView, outcome: Result<Seq<char>, Seq<char>>) -> (
    ResponseView,
    BufferView,
) {
    match outcome {
        Ok(text) => (
            if response.has_content_type() {
                response
            } else {
                typed(response, "text/html; charset=utf-8"@)
            },
            ready(utf8(text)),
        ),
        Err(message) => (
            typed(response.with_status(Status(500)), "text/plain"@),
            ready(utf8(message)),
        ),
    }
}

/// The response and the body that a callback's result stands for. `outcome` is
/// what rendering gave, and counts only where a template is rendered.
pub open spec fn settled<S>(
    response: ResponseView,
    result: HandlerResult<S>,
    outcome: Result<Seq<char>, Seq<char>>,
) -> (ResponseView, BodyView<S>) {
    match result {
        Ok(Action::End(status)) => (
            match status {
                Some(status) => response.with_status(status),
                None => response,
            },
            BodyView::Empty,
        ),
        Ok(Action::Redirect(status, url)) => (
            response.with_status(status).with_header("Location"@, utf8(url@)),
            BodyView::Empty,
        ),
        Ok(Action::Render(_, _)) => (
            rendered(response, outcome).0,
            BodyView::Full(rendered(response, outcome).1),
        ),
        Ok(Action::Send(body)) => (response, BodyView::Full(ready(body@))),
        Ok(Action::SendFile(name)) => (response, BodyView::File(name@)),
        Ok(Action::Stream(stream)) => (
            ResponseView { streaming: true, ..response },
            BodyView::Streaming(stream),
        ),
        Err(error) => match error.message {
            None => (response.with_status(error.status), BodyView::Empty),
            Some(message) => (
                typed(response.with_status(error.status), "text/plain"@),
                BodyView::Full(ready(utf8(message@))),
            ),
        },
    }
}

/// Calls `render` of the `handlebars` registry on the name of a template and a
/// JSON value, and turns an error into its message. Nothing is claimed of the
/// result: it depends on the templates that the registry holds, and rendering
/// runs the helpers that were registered in it.
#[verifier::external_body]
fn render_template(
    handlebars: &handlebars::Handlebars<'_>,
    name: &str,
    json: &serde_json::Value,
) -> (r: Result<String, String>) {
    handlebars.render(name, json).map_err(|e| e.to_string())
}

/// Sets the media type of a response to an ASCII text.
fn set_type(response: &mut Response, media: &str)
    requires
        media.is_ascii(),
    ensures
        final(response)@ == typed(old(response)@, media@),
{
    response.content_type(ascii_bytes(media));
}

/// What rendering gave, as texts.
pub open spec fn outcome_view(outcome: Result<String, String>) -> Result<Seq<char>, Seq<char>> {
    match outcome {
        Ok(text) => Ok(text@),
        Err(message) => Err(message@),
    }
}

/// Settles the response for what rendering a template gave, and hands out the
/// body.
pub fn rendered_body(response: &mut Response, outcome: Result<String, String>) -> (body: Buffer)
    ensures
        (final(response)@, body@) == rendered(old(response)@, outcome_view(outcome)),
{
    match outcome {
        Ok(text) => {
            if !response.has_header("Content-Type") {
                proof {
                    reveal_strlit("text/html; charset=utf-8");
                }
                set_type(response, "text/html; charset=utf-8");
            }
            Buffer::from(text.as_str().as_bytes_vec())
        },
        Err(message) => {
            response.status(Status::internal_server_error());
            proof {
                reveal_strlit("text/plain");
            }
            set_type(response, "text/plain");
            Buffer::from(message.as_str().as_bytes_vec())
        },
    }
}

/// Renders the template with the given name on the given data, and settles the
/// response for what that gave.
pub fn render(
    response: &mut Response,
    handlebars: &handlebars::Handlebars<'_>,
    name: &str,
    json: &serde_json::Value,
) -> (body: Buffer)
    ensures
        exists|outcome: Result<Seq<char>, Seq<char>>|
            (final(response)@, body@) == rendered(old(response)@, outcome),
{
    let outcome = render_template(handlebars, name, json);
    rendered_body(response, outcome)
}

/// Turns the result of a callback into the response's status and header fields
/// and into a body. A file that is to be sent is not read here: its name comes
/// back, for [`file_body`].
pub fn process_handle_result<S>(
    response: &mut Response,
    result: HandlerResult<S>,
    handlebars: &handlebars::Handlebars<'_>,
) -> (body: Body<S>)
    ensures
        exists|outcome: Result<Seq<char>, Seq<char>>|
            (final(response)@, body@) == settled(old(response)@, result, outcome),
{
    let ghost any = Ok::<Seq<char>, Seq<char>>(Seq::empty());
    match result {
        Ok(Action::End(status)) => {
            match status {
                Some(status) => {
                    response.status(status);
                },
                None => {},
            }
            assert((response@, BodyView::<S>::Empty) == settled(old(response)@, result, any));
            Body::Empty
        },
        Ok(Action::Redirect(status, url)) => {
            response.status(status);
            response.location(url);
            assert((response@, BodyView::<S>::Empty) == settled(old(response)@, result, any));
            Body::Empty
        },
        Ok(Action::Render(name, json)) => {
            let outcome = render_template(handlebars, name.as_str(), &json);
            let ghost given = outcome_view(outcome);
            let buffer = rendered_body(response, outcome);
            assert((response@, BodyView::<S>::Full(buffer@)) == settled(
                old(response)@,
                result,
                given,
            ));
            Body::Full(buffer)
        },
        Ok(Action::Send(bytes)) => {
            let buffer = Buffer::from(bytes);
            assert((response@, BodyView::<S>::Full(buffer@)) == settled(
                old(response)@,
                result,
                any,
            ));
            Body::Full(buffer)
        },
        Ok(Action::SendFile(name)) => {
            assert((response@, BodyView::<S>::File(name@)) == settled(
                old(response)@,
                result,
                any,
            ));
            Body::File(name)
        },
        Ok(Action::Stream(stream)) => {
            set_streaming(response);
            assert((response@, BodyView::Streaming(stream)) == settled(
                old(response)@,
                result,
                any,
            ));
            Body::Streaming(stream)
        },
        Err(error) => {
            let crate::response::HandlerError { status, message } = error;
            response.status(status);
            match message {
                None => {
                    assert((response@, BodyView::<S>::Empty) == settled(
                        old(response)@,
                        result,
                        any,
                    ));
                    Body::Empty
                },
                Some(message) => {
                    proof {
                        reveal_strlit("text/plain");
                    }
                    set_type(response, "text/plain");
                    let buffer = Buffer::from(message.as_str().as_bytes_vec());
                    assert((response@, BodyView::<S>::Full(buffer@)) == settled(
                        old(response)@,
                        result,
                        any,
                    ));
                    Body::Full(buffer)
                },
            }
        },
    }
}

/// The body that goes with a file that was read, and the response settled for it.
pub fn sent_file<S>(response: &mut Response, path: &str, file: FileRead) -> (body: Body<S>)
    ensures
        exists|extension: Option<Seq<char>>|
            final(response)@ == old(response)@.file_sent(extension, file),
        body@ == match file_body(file) {
            Some(bytes) => BodyView::<S>::Full(ready(bytes)),
            None => BodyView::<S>::Empty,
        },
{
    match send_file(response, path, file) {
        Some(bytes) => Body::Full(Buffer::from(bytes)),
        None => Body::Empty,
    }
}

/// The replies that carry a response and its body to the side that writes them,
/// in their order: the head first, with the length of a body that is known, then
/// that body. A streamed body follows later, chunk by chunk.
pub open spec fn replies_for<S>(response: ResponseView, body: BodyView<S>) -> Seq<ReplyView> {
    match body {
        BodyView::Full(buffer) => seq![
            ReplyView::Headers(
                response.with_header("Content-Length"@, decimal_digits(buffer.content.len())),
            ),
            ReplyView::Body(buffer),
        ],
        _ => seq![ReplyView::Headers(response)],
    }
}

/// The replies that carry a response and its body, and what is to write the
/// streamed body once they are on their way. A file must have been read before.
pub fn replies<S>(response: Response, body: Body<S>) -> (r: (Vec<Reply>, Option<S>))
    requires
        !(body is File),
    ensures
        replies_view(r.0) == replies_for(response@, body@),
        r.1 == match body {
            Body::Streaming(stream) => Some(stream),
            _ => None,
        },
{
    let mut response = response;
    let mut out: Vec<Reply> = Vec::new();
    match body {
        Body::Full(buffer) => {
            response.len(buffer.len() as u64);
            let ghost head = response@;
            out.push(Reply::Headers(response));
            out.push(Reply::Body(buffer));
            assert(replies_view(out) =~= seq![ReplyView::Headers(head), ReplyView::Body(buffer@)]);
            (out, None)
        },
        Body::Streaming(stream) => {
            out.push(Reply::Headers(response));
            assert(replies_view(out) =~= seq![ReplyView::Headers(response@)]);
            (out, Some(stream))
        },
        _ => {
            out.push(Reply::Headers(response));
            assert(replies_view(out) =~= seq![ReplyView::Headers(response@)]);
            (out, None)
        },
    }
}

/// One chunk of a streamed body.
pub fn chunk(bytes: Vec<u8>) -> (r: Reply)
    ensures
        r@ == ReplyView::Body(ready(bytes@)),
{
    Reply::Body(Buffer::from(bytes))
}

/// The reply that ends a streamed body: an empty chunk.
pub fn end_of_stream() -> (r: Reply)
    ensures
        r@ == ReplyView::Body(ready(Seq::empty())),
{
    Reply::Body(Buffer::from(Vec::new()))
}

/// A response as it is before a callback has touched it.
pub open spec fn fresh() -> ResponseView {
    ResponseView { status: Status(200), headers: Seq::empty(), streaming: false }
}

/// The replies that refuse a request: status 400, and the reason as the body.
pub open spec fn refusal(reason: Seq<u8>) -> Seq<ReplyView> {
    seq![
        ReplyView::Headers(typed(fresh().with_status(Status(400)), "text/plain; charset=UTF-8"@)),
        ReplyView::Body(ready(reason)),
    ]
}

/// The replies that refuse a request, with the reason as bytes.
fn refuse(reason: Vec<u8>) -> (r: Vec<Reply>)
    ensures
        replies_view(r) == refusal(reason@),
{
    let mut response = Response::new();
    response.status(Status::bad_request());
    proof {
        reveal_strlit("text/plain; charset=UTF-8");
    }
    set_type(&mut response, "text/plain; charset=UTF-8");
    let body = Buffer::from(reason);
    let mut out: Vec<Reply> = Vec::new();
    out.push(Reply::Headers(response));
    out.push(Reply::Body(body));
    assert(replies_view(out) =~= seq![ReplyView::Headers(response@), ReplyView::Body(body@)]);
    out
}

/// The replies that refuse a request: status 400, and the message as the body.
pub fn bad_request(message: &str) -> (r: Vec<Reply>)
    ensures
        replies_view(r) == refusal(utf8(message@)),
{
    refuse(message.as_bytes_vec())
}

/// The text that the standard library prints for a list of texts when it is asked
/// for their `Debug` form.
pub uninterp spec fn debug_text(texts: Seq<Seq<char>>) -> Seq<char>;

/// Formats a list of texts with `{:?}`. The contract names the result.
#[verifier::external_body]
fn debug_form(texts: &Vec<String>) -> (r: String)
    ensures
        r@ == debug_text(texts_view(*texts)),
{
    format!("{:?}", texts)
}

/// The replies for a path that no route serves: status 404, and a body that
/// names the path.
pub open spec fn missing(path: Seq<Seq<char>>) -> Seq<ReplyView> {
    seq![
        ReplyView::Headers(typed(fresh().with_status(Status(404)), "text/plain"@)),
        ReplyView::Body(ready(utf8("not found: "@ + debug_text(path)))),
    ]
}

/// The replies for a path that no route serves.
pub fn not_found(path: &Vec<String>) -> (r: Vec<Reply>)
    ensures
        replies_view(r) == missing(texts_view(*path)),
{
    let mut response = Response::new();
    response.status(Status::not_found());
    proof {
        reveal_strlit("text/plain");
    }
    set_type(&mut response, "text/plain");
    let mut text = String::from_str("not found: ");
    text.append(debug_form(path).as_str());
    let body = Buffer::from(text.as_str().as_bytes_vec());
    let mut out: Vec<Reply> = Vec::new();
    out.push(Reply::Headers(response));
    out.push(Reply::Body(body));
    assert(replies_view(out) =~= seq![ReplyView::Headers(response@), ReplyView::Body(body@)]);
    out
}

/// What is said of a body that ended before its declared length.
pub open spec fn incomplete_message(expected: nat, got: nat) -> Seq<u8> {
    ascii("Incomplete message: expected "@) + decimal_digits(expected) + ascii(" bytes, got "@)
        + decimal_digits(got)
}

/// What is said of a body that ended before its declared length.
fn incomplete(expected: usize, got: usize) -> (r: Vec<u8>)
    ensures
        r@ == incomplete_message(expected as nat, got as nat),
{
    proof {
        reveal_strlit("Incomplete message: expected ");
        reveal_strlit(" bytes, got ");
    }
    let mut r = ascii_bytes("Incomplete message: expected ");
    let mut a = decimal(expected as u64);
    r.append(&mut a);
    let mut b = ascii_bytes(" bytes, got ");
    r.append(&mut b);
    let mut c = decimal(got as u64);
    r.append(&mut c);
    r
}

/// What the caller does once a request, or a part of its body, has come in.
pub enum Dispatch<'a, F> {
    /// Waits until the transport can be read, and reads on.
    Read,
    /// Reads on at once.
    ReadAgain,
    /// Runs, away from the connection, the callback that was found in the router
    /// with this index, on the request; the connection waits until it is woken.
    Run { router: usize, callback: &'a Callback<F>, request: Request },
    /// Hands these replies to the writing side, which goes on to write.
    Respond(Vec<Reply>),
    /// Tears the connection down.
    Remove,
}

impl<'a, F> Dispatch<'a, F> {
    /// What the connection does next.
    pub fn next(&self) -> (r: Next)
        ensures
            r == match *self {
                Dispatch::Read => Next::Read,
                Dispatch::ReadAgain => Next::Read,
                Dispatch::Run { .. } => Next::Wait,
                Dispatch::Respond(_) => Next::Write,
                Dispatch::Remove => Next::Remove,
            },
    {
        match self {
            Dispatch::Read => Next::Read,
            Dispatch::ReadAgain => Next::Read,
            Dispatch::Run { .. } => Next::Wait,
            Dispatch::Respond(_) => Next::Write,
            Dispatch::Remove => Next::Remove,
        }
    }
}

/// The routers of a list, each in its mathematical form.
pub open spec fn routers_view<F, M>(routers: Vec<RouterAny<F, M>>) -> Seq<RouterView> {
    routers@.map_values(|router: RouterAny<F, M>| router@)
}

/// The index of the first router from `from` on that has a route for the request.
pub open spec fn first_router(
    routers: Seq<RouterView>,
    method: MethodView,
    path: Seq<Seq<char>>,
    from: int,
) -> Option<int>
    decreases routers.len() - from,
{
    if from < 0 || from >= routers.len() {
        None
    } else if routers[from].find(method, path).is_some() {
        Some(from)
    } else {
        first_router(routers, method, path, from + 1)
    }
}

/// Whether `dispatch` is what a request is answered with once it is complete: the
/// callback of the first route that serves it in the first router that has one,
/// on the request with what that route binds; or, where there is none, the
/// replies for a path that no route serves.
pub open spec fn dispatched<F, M>(
    routers: Vec<RouterAny<F, M>>,
    request: RequestView,
    dispatch: Dispatch<'_, F>,
) -> bool {
    match first_router(routers_view(routers), request.method, request.path, 0) {
        Some(k) => {
            let table = routers[k]@;
            let i = table.find(request.method, request.path).unwrap();
            &&& dispatch matches Dispatch::Run { router, callback, request: found }
            &&& router == k
            &&& *callback == routers[k].callback_at(i)
            &&& found@ == RequestView {
                params: Some(
                    map_of(bindings(table.routes[i].segments, table.suffix(request.path))),
                ),
                ..request
            }
        },
        None => dispatch matches Dispatch::Respond(replies) && replies_view(replies) == missing(
            request.path,
        ),
    }
}

/// Finds the callback for a complete request.
fn dispatch<'a, F, M>(routers: &'a Vec<RouterAny<F, M>>, request: Request) -> (r: Dispatch<'a, F>)
    ensures
        dispatched(*routers, request@, r),
{
    let ghost views = routers_view(*routers);
    let ghost asked = request@;
    let mut found = request;
    let mut k: usize = 0;
    while k < routers.len()
        invariant
            k <= routers.len(),
            views == routers_view(*routers),
            asked == request@,
            found@ == asked,
            first_router(views, asked.method, asked.path, 0) == first_router(
                views,
                asked.method,
                asked.path,
                k as int,
            ),
        decreases routers.len() - k,
    {
        assert(views[k as int] == routers[k as int]@);
        match routers[k].find_callback(&mut found) {
            Some(callback) => {
                assert(first_router(views, asked.method, asked.path, k as int) == Some(k as int));
                return Dispatch::Run { router: k, callback, request: found };
            },
            None => {},
        }
        k += 1;
    }
    Dispatch::Respond(not_found(found.path()))
}

/// The state of one request on a connection.
pub struct EdgeHandler {
    base_url: String,
    request: Option<Request>,
    is_head_request: bool,
    buffer: Option<Buffer>,
    streaming: bool,
}

/// Mathematical form of an [`EdgeHandler`].
pub struct HandlerView {
    /// The URL that request targets are resolved against.
    pub base_url: Seq<char>,
    /// The request, from when its head has come in until it is handed to its
    /// callback.
    pub request: Option<RequestView>,
    /// Whether the request's method is HEAD.
    pub is_head_request: bool,
    /// The body that is read in, or the body or chunk that is written out.
    pub buffer: Option<BufferView>,
    /// Whether the response is a streaming one.
    pub streaming: bool,
}

impl View for EdgeHandler {
    type V = HandlerView;

    closed spec fn view(&self) -> HandlerView {
        HandlerView {
            base_url: self.base_url@,
            request: match self.request {
                Some(request) => Some(request@),
                None => None,
            },
            is_head_request: self.is_head_request,
            buffer: match self.buffer {
                Some(buffer) => Some(buffer@),
                None => None,
            },
            streaming: self.streaming,
        }
    }
}

impl EdgeHandler {
    /// The state before a request has come in.
    pub fn new(base_url: String) -> (h: EdgeHandler)
        ensures
            h@ == (HandlerView {
                base_url: base_url@,
                request: None,
                is_head_request: false,
                buffer: None,
                streaming: false,
            }),
    {
        EdgeHandler {
            base_url,
            request: None,
            is_head_request: false,
            buffer: None,
            streaming: false,
        }
    }

    /// Hands the request to the callback that serves it, or answers that there is
    /// none.
    pub fn callback<'a, F, M>(&mut self, routers: &'a Vec<RouterAny<F, M>>) -> (r: Dispatch<'a, F>)
        requires
            old(self)@.request.is_some(),
        ensures
            final(self)@ == (HandlerView { request: None, ..old(self)@ }),
            dispatched(*routers, old(self)@.request.unwrap(), r),
    {
        let request = self.request.take().unwrap();
        dispatch(routers, request)
    }

    /// Takes in the head of a request. A head that cannot be made a request of, or
    /// that breaks the rules of framing, is refused. Otherwise the body is read if
    /// there is one to read, and the callback is looked for if there is not.
    pub fn on_request<'a, F, M>(
        &mut self,
        head: RequestHead,
        routers: &'a Vec<RouterAny<F, M>>,
    ) -> (r: Dispatch<'a, F>)
        ensures
            match new_spec(old(self)@.base_url, head) {
                Err(message) => {
                    &&& final(self)@ == old(self)@
                    &&& r matches Dispatch::Respond(replies)
                    &&& replies_view(replies) == refusal(utf8(message))
                },
                Ok(request) => match framing_of(request) {
                    Err(message) => {
                        &&& final(self)@ == HandlerView {
                            request: Some(request),
                            is_head_request: request.method == MethodView::Head,
                            ..old(self)@
                        }
                        &&& r matches Dispatch::Respond(replies)
                        &&& replies_view(replies) == refusal(utf8(message))
                    },
                    Ok(Framing::NoBody) => {
                        &&& final(self)@ == HandlerView {
                            request: None,
                            is_head_request: request.method == MethodView::Head,
                            ..old(self)@
                        }
                        &&& dispatched(*routers, request, r)
                    },
                    Ok(framing) => {
                        &&& final(self)@ == HandlerView {
                            request: Some(request),
                            is_head_request: request.method == MethodView::Head,
                            buffer: buffer_for(framing),
                            ..old(self)@
                        }
                        &&& r is Read
                    },
                },
            },
    {
        match crate::request::new(self.base_url.as_str(), head) {
            Ok(request) => {
                let result = check_request(&request, &mut self.buffer);
                self.is_head_request = match request.method() {
                    Method::Head => true,
                    _ => false,
                };
                match result {
                    Err(message) => {
                        self.request = Some(request);
                        bad_request_dispatch(message)
                    },
                    Ok(false) => {
                        self.request = None;
                        dispatch(routers, request)
                    },
                    Ok(true) => {
                        self.request = Some(request);
                        Dispatch::Read
                    },
                }
            },
            Err(message) => bad_request_dispatch(message.as_str()),
        }
    }
}

/// The refusal of a request, as what the caller does with it.
fn bad_request_dispatch<'a, F>(message: &str) -> (r: Dispatch<'a, F>)
    ensures
        r matches Dispatch::Respond(replies) && replies_view(replies) == refusal(utf8(message@)),
{
    Dispatch::Respond(bad_request(message))
}

/// What the writing side does with a reply that it was handed.
pub struct ResponseStep {
    /// The status and the header fields to send, where the reply brought them.
    pub head: Option<(Status, Headers)>,
    /// What the connection does next. None where the next reply is to be looked
    /// at first.
    pub next: Option<Next>,
}

impl ResponseStep {
    /// The head to send, in its mathematical form.
    pub open spec fn head_view(self) -> Option<(Status, Seq<FieldView>)> {
        match self.head {
            Some((status, headers)) => Some((status, headers@)),
            None => None,
        }
    }
}

impl HandlerView {
    /// Whether a response with this status is sent without a length and without a
    /// body: the request was a HEAD request, or the status allows no body.
    pub open spec fn suppresses_body(self, status: Status) -> bool {
        status.spec_forbids_body() || self.is_head_request
    }

    /// Whether the next chunk of a streamed body is wanted: the response is a
    /// streaming one, and no chunk is at hand.
    pub open spec fn wants_chunk(self) -> bool {
        self.streaming && self.buffer.is_none()
    }

    /// The state, the head to send, and what the connection does when a reply is
    /// taken in, or the news that none is there. The head of a response is sent as
    /// it is, but without a length where no body may follow it: there the response
    /// ends. A body or chunk is kept, to be written. Without a reply a streaming
    /// response waits for one, and any other is complete. Nothing is decided where
    /// the next reply is to be looked at first.
    pub open spec fn takes_reply(self, stolen: Option<ReplyView>) -> (
        HandlerView,
        Option<(Status, Seq<FieldView>)>,
        Option<Next>,
    ) {
        match stolen {
            Some(ReplyView::Headers(response)) => (
                HandlerView { streaming: response.streaming, ..self },
                Some(
                    (
                        response.status,
                        if self.suppresses_body(response.status) {
                            without(response.headers, "Content-Length"@)
                        } else {
                            response.headers
                        },
                    ),
                ),
                if self.suppresses_body(response.status) {
                    Some(Next::End)
                } else {
                    None
                },
            ),
            Some(ReplyView::Body(body)) => (
                HandlerView { buffer: Some(body), ..self },
                None,
                Some(Next::Write),
            ),
            None => (self, None, Some(if self.streaming { Next::Wait } else { Next::End })),
        }
    }

    /// The state and what the connection does when a write begins. `stolen` is the
    /// reply that was fetched because a chunk was wanted, if there was one.
    /// Without a chunk at hand the connection waits. An empty chunk ends the
    /// stream, and a drained body ends the response. Otherwise there are bytes to
    /// write, and nothing is decided yet.
    pub open spec fn begins_write(self, stolen: Option<ReplyView>) -> (HandlerView, Option<Next>) {
        let at_hand = if self.wants_chunk() {
            match stolen {
                Some(ReplyView::Body(body)) => Some(body),
                _ => None,
            }
        } else {
            self.buffer
        };
        (
            HandlerView { buffer: at_hand, ..self },
            match at_hand {
                None => Some(Next::Wait),
                Some(buffer) => if buffer.pos == buffer.content.len() {
                    Some(Next::End)
                } else {
                    None
                },
            },
        )
    }

    /// The state and what the connection does after one write attempt on what is
    /// at hand. Nothing is decided where the next attempt is to be made at once. A
    /// chunk that is written out is let go, and the next one is asked for; a body
    /// that is written out ends the response. A failure ends the connection.
    pub open spec fn after_write(self, event: WriteEvent) -> (HandlerView, Option<Next>) {
        let (buffer, outcome) = self.buffer.unwrap().write_step(event);
        let kept = HandlerView { buffer: Some(buffer), ..self };
        match outcome {
            Ok(Progress::Again) => (kept, None),
            Ok(Progress::Blocked) => (kept, Some(Next::Write)),
            Ok(Progress::Done) => if self.streaming {
                (HandlerView { buffer: None, ..self }, Some(Next::Write))
            } else {
                (kept, Some(Next::End))
            },
            Err(_) => (kept, Some(Next::Remove)),
        }
    }
}

/// A reply that may be missing, in its mathematical form.
pub open spec fn stolen_view(stolen: Option<Reply>) -> Option<ReplyView> {
    match stolen {
        Some(reply) => Some(reply@),
        None => None,
    }
}

impl EdgeHandler {
    /// Takes in what one read attempt on the body gave. While the body is not
    /// complete, reading goes on. When it is, the request gets it and is handed to
    /// its callback. A body that ends before its declared length is refused, and a
    /// transport that fails ends the connection.
    pub fn on_request_readable<'a, F, M>(
        &mut self,
        event: ReadEvent,
        routers: &'a Vec<RouterAny<F, M>>,
    ) -> (r: Dispatch<'a, F>)
        requires
            old(self)@.request.is_some(),
            old(self)@.buffer matches Some(buffer) && buffer.admits_read(event@),
        ensures
            ({
                let (buffer, outcome) = old(self)@.buffer.unwrap().read_step(event@);
                match outcome {
                    Ok(Progress::Again) => {
                        &&& final(self)@ == HandlerView { buffer: Some(buffer), ..old(self)@ }
                        &&& r is ReadAgain
                    },
                    Ok(Progress::Blocked) => {
                        &&& final(self)@ == HandlerView { buffer: Some(buffer), ..old(self)@ }
                        &&& r is Read
                    },
                    Ok(Progress::Done) => {
                        &&& final(self)@ == HandlerView {
                            buffer: None,
                            request: None,
                            ..old(self)@
                        }
                        &&& dispatched(
                            *routers,
                            RequestView { body: Some(buffer), ..old(self)@.request.unwrap() },
                            r,
                        )
                    },
                    Err(TransferError::Incomplete { expected, got }) => {
                        &&& final(self)@ == HandlerView { buffer: Some(buffer), ..old(self)@ }
                        &&& r matches Dispatch::Respond(replies)
                        &&& replies_view(replies) == refusal(
                            incomplete_message(expected as nat, got as nat),
                        )
                    },
                    Err(_) => {
                        &&& final(self)@ == HandlerView { buffer: Some(buffer), ..old(self)@ }
                        &&& r is Remove
                    },
                }
            }),
    {
        let mut buffer = self.buffer.take().unwrap();
        let outcome = buffer.read_from(event);
        match outcome {
            Ok(Progress::Again) => {
                self.buffer = Some(buffer);
                Dispatch::ReadAgain
            },
            Ok(Progress::Blocked) => {
                self.buffer = Some(buffer);
                Dispatch::Read
            },
            Ok(Progress::Done) => {
                let mut request = self.request.take().unwrap();
                set_body(Some(&mut request), Some(buffer));
                dispatch(routers, request)
            },
            Err(TransferError::Incomplete { expected, got }) => {
                self.buffer = Some(buffer);
                Dispatch::Respond(refuse(incomplete(expected, got)))
            },
            Err(_) => {
                self.buffer = Some(buffer);
                Dispatch::Remove
            },
        }
    }

    /// Takes in a reply, or the news that none is there. The head of a response is
    /// to be sent as it is, but without a length where no body may follow it: there
    /// the response ends. A body or chunk is kept, to be written. Without a reply a
    /// streaming response waits for one, and any other is complete.
    pub fn on_response(&mut self, stolen: Option<Reply>) -> (r: ResponseStep)
        ensures
            (final(self)@, r.head_view(), r.next) == old(self)@.takes_reply(stolen_view(stolen)),
    {
        match stolen {
            Some(Reply::Headers(response)) => {
                self.streaming = is_streaming(&response);
                let (status, mut headers, _) = response.into_parts();
                if status.forbids_body() || self.is_head_request {
                    headers.remove("Content-Length");
                    ResponseStep { head: Some((status, headers)), next: Some(Next::End) }
                } else {
                    ResponseStep { head: Some((status, headers)), next: None }
                }
            },
            Some(Reply::Body(body)) => {
                self.buffer = Some(body);
                ResponseStep { head: None, next: Some(Next::Write) }
            },
            None => {
                if self.streaming {
                    ResponseStep { head: None, next: Some(Next::Wait) }
                } else {
                    ResponseStep { head: None, next: Some(Next::End) }
                }
            },
        }
    }

    /// Whether the head of a request is held, and the request is yet to be handed
    /// to its callback.
    pub fn has_request(&self) -> (r: bool)
        ensures
            r == self@.request.is_some(),
    {
        self.request.is_some()
    }

    /// Whether a body or a chunk is at hand.
    pub fn has_buffer(&self) -> (r: bool)
        ensures
            r == self@.buffer.is_some(),
    {
        self.buffer.is_some()
    }

    /// How many bytes the next read attempt on the body may deliver.
    pub fn window(&self) -> (r: usize)
        requires
            self@.buffer.is_some(),
        ensures
            r == self@.buffer.unwrap().window(),
    {
        match &self.buffer {
            Some(buffer) => buffer.window(),
            None => 0,
        }
    }

    /// Whether the next chunk of a streamed body is to be fetched before a write.
    pub fn needs_chunk(&self) -> (r: bool)
        ensures
            r == self@.wants_chunk(),
    {
        self.streaming && self.buffer.is_none()
    }

    /// Begins a write. `stolen` is the reply that was fetched because a chunk was
    /// wanted, if there was one. Without a chunk at hand the connection waits; an
    /// empty one ends the stream, and a drained body ends the response. Otherwise
    /// None comes back: the pending bytes are to be written.
    pub fn before_write(&mut self, stolen: Option<Reply>) -> (r: Option<Next>)
        requires
            stolen.is_some() ==> old(self)@.wants_chunk(),
            !(stolen matches Some(Reply::Headers(_))),
            !old(self)@.streaming ==> old(self)@.buffer.is_some(),
        ensures
            (final(self)@, r) == old(self)@.begins_write(stolen_view(stolen)),
    {
        if self.streaming && self.buffer.is_none() {
            match stolen {
                Some(Reply::Body(body)) => {
                    self.buffer = Some(body);
                },
                _ => {},
            }
        }
        match &self.buffer {
            None => Some(Next::Wait),
            Some(buffer) => {
                if buffer.is_empty() {
                    Some(Next::End)
                } else {
                    None
                }
            },
        }
    }

    /// The bytes that the next write attempt offers to the transport.
    pub fn pending(&self) -> (r: &[u8])
        requires
            self@.buffer.is_some(),
        ensures
            r@ == self@.buffer.unwrap().pending(),
    {
        match &self.buffer {
            Some(buffer) => buffer.pending(),
            None => &[],
        }
    }

    /// Takes in what one write attempt on the pending bytes gave. None comes back
    /// where the next attempt is to be made at once. A chunk that is written out is
    /// let go, and the next one is asked for; a body that is written out ends the
    /// response. A transport that fails ends the connection.
    pub fn on_response_writable(&mut self, event: WriteEvent) -> (r: Option<Next>)
        requires
            old(self)@.buffer matches Some(buffer) && buffer.admits_write(event),
        ensures
            (final(self)@, r) == old(self)@.after_write(event),
    {
        let mut buffer = self.buffer.take().unwrap();
        let outcome = buffer.write_to(event);
        match outcome {
            Ok(Progress::Again) => {
                self.buffer = Some(buffer);
                None
            },
            Ok(Progress::Blocked) => {
                self.buffer = Some(buffer);
                Some(Next::Write)
            },
            Ok(Progress::Done) => {
                if self.streaming {
                    Some(Next::Write)
                } else {
                    self.buffer = Some(buffer);
                    Some(Next::End)
                }
            },
            Err(_) => {
                self.buffer = Some(buffer);
                Some(Next::Remove)
            },
        }
    }

    /// The transport layer reported an error: the connection is torn down.
    pub fn on_error(&mut self) -> (r: Next)
        ensures
            final(self)@ == old(self)@,
            r == Next::Remove,
    {
        Next::Remove
    }
}

/// The bytes of chunks, one after the other.
pub open spec fn concat(chunks: Seq<Seq<u8>>) -> Seq<u8>
    decreases chunks.len(),
{
    if chunks.len() == 0 {
        Seq::empty()
    } else {
        chunks[0] + concat(chunks.drop_first())
    }
}

/// What a connection writes, and what it does last, when it finds the given
/// chunks queued in this order, fetches one whenever it wants one, and its
/// transport takes each of them in one write.
pub open spec fn streams(h: HandlerView, queue: Seq<Seq<u8>>) -> (Seq<u8>, Next)
    decreases queue.len(),
{
    let stolen = if h.wants_chunk() && queue.len() > 0 {
        Some(ReplyView::Body(ready(queue[0])))
    } else {
        None
    };
    let (begun, decided) = h.begins_write(stolen);
    match decided {
        Some(next) => (Seq::empty(), next),
        None => {
            let chunk = begun.buffer.unwrap().pending();
            let (after, next) = begun.after_write(WriteEvent::Written(chunk.len() as usize));
            if stolen.is_some() && next == Some(Next::Write) {
                let (rest, last) = streams(after, queue.drop_first());
                (chunk + rest, last)
            } else {
                (chunk, Next::Write)
            }
        },
    }
}

/// Streaming keeps the order: a streaming connection that finds chunks queued,
/// none of them empty, writes their bytes in the order of the queue, each once,
/// and then waits for more. When the empty chunk follows them, it writes the same
/// bytes and then ends the response.
pub proof fn lemma_stream_is_written_in_order(h: HandlerView, chunks: Seq<Seq<u8>>)
    requires
        h.wants_chunk(),
        forall|i: int| 0 <= i < chunks.len() ==> 0 < (#[trigger] chunks[i]).len() <= usize::MAX,
    ensures
        streams(h, chunks) == (concat(chunks), Next::Wait),
        streams(h, chunks.push(Seq::empty())) == (concat(chunks), Next::End),
    decreases chunks.len(),
{
    let ended = chunks.push(Seq::empty());
    if chunks.len() == 0 {
        assert(ended[0] == Seq::<u8>::empty());
    } else {
        let first = chunks[0];
        let rest = chunks.drop_first();
        assert(ended[0] == first);
        assert(ended.drop_first() =~= rest.push(Seq::empty()));
        assert(ready(first).pending() =~= first);
        let begun = HandlerView { buffer: Some(ready(first)), ..h };
        let after = HandlerView { buffer: None, ..h };
        assert(h.begins_write(Some(ReplyView::Body(ready(first)))) == (begun, None::<Next>));
        assert(begun.after_write(WriteEvent::Written(first.len() as usize)) == (
            after,
            Some(Next::Write),
        ));
        assert forall|i: int| 0 <= i < rest.len() implies 0 < (#[trigger] rest[i]).len()
            <= usize::MAX by {
            assert(rest[i] == chunks[i + 1]);
        }
        lemma_stream_is_written_in_order(after, rest);
    }
}

/// No body where none may be: the head of a response to a HEAD request, and of one
/// whose status allows no body, is sent without a length, whatever the callback
/// set, and the response ends with it, so that no byte of a body is written.
pub proof fn lemma_suppressed_body_is_not_sent(h: HandlerView, response: ResponseView)
    requires
        h.suppresses_body(response.status),
    ensures
        ({
            let (_, head, next) = h.takes_reply(Some(ReplyView::Headers(response)));
            &&& head matches Some((status, headers))
            &&& status == response.status
            &&& lookup(headers, "Content-Length"@).is_none()
            &&& next == Some(Next::End)
        }),
{
    lemma_without(response.headers, "Content-Length"@, "Content-Length"@);
}

} // verus!
