//! What a callback builds: a status, header fields, and the choice between a body
//! that is known at once and one that is streamed.

use crate::headers::{decimal, decimal_digits, lookup, with, with_line, FieldView, Headers};
use crate::http::Status;
use vstd::prelude::*;

verus! {

/// An error that a callback returns: a status, and a message where there is one.
#[derive(Debug)]
pub struct HandlerError {
    pub status: Status,
    pub message: Option<String>,
}

impl HandlerError {
    /// An error with a status and, where there is one, a message.
    pub fn new(status: Status, message: Option<String>) -> (e: HandlerError)
        ensures
            e.status == status,
            e.message == message,
    {
        HandlerError { status, message }
    }

    /// The message, or a text that says that there is none.
    pub fn description(&self) -> (r: &str)
        ensures
            r@ == match self.message {
                Some(message) => message@,
                None => "<no description available>"@,
            },
    {
        match &self.message {
            Some(message) => message.as_str(),
            None => "<no description available>",
        }
    }
}

/// What is to be done when a callback has returned. `S` is what the application
/// hands in to write a streamed body.
pub enum Action<S> {
    /// Ends the response without a body, with the given status where there is
    /// one, else with the status that the response has.
    End(Option<Status>),
    /// Redirects to a URL with a status.
    Redirect(Status, String),
    /// Renders the template with the given name on a JSON value.
    Render(String, serde_json::Value),
    /// Sends the given bytes as the body.
    Send(Vec<u8>),
    /// Streams the body.
    Stream(S),
    /// Sends the file with the given name.
    SendFile(String),
}

/// What a callback returns.
pub type HandlerResult<S> = Result<Action<S>, HandlerError>;

/// The action that streams a body through `closure`.
pub fn stream<S>(closure: S) -> (r: HandlerResult<S>)
    ensures
        r == Ok::<Action<S>, HandlerError>(Action::Stream(closure)),
{
    Ok(Action::Stream(closure))
}

/// What reading a file gave.
#[derive(Debug)]
pub enum FileRead {
    /// The content of the file.
    Content(Vec<u8>),
    /// There is no such file.
    NotFound,
    /// The file could not be opened or read, with the error in words.
    Failed(String),
}

/// The media type of files with a known extension.
pub open spec fn media_type_for(extension: Seq<char>) -> Option<Seq<char>> {
    if extension == "js"@ {
        Some("application/javascript"@)
    } else if extension == "m3u8"@ {
        Some("application/vnd.apple.mpegurl"@)
    } else if extension == "mpd"@ {
        Some("application/dash+xml"@)
    } else if extension == "xml"@ {
        Some("application/xml"@)
    } else if extension == "gif"@ {
        Some("image/gif"@)
    } else if extension == "jpg"@ || extension == "jpeg"@ {
        Some("image/jpeg"@)
    } else if extension == "png"@ {
        Some("image/png"@)
    } else if extension == "css"@ {
        Some("text/css"@)
    } else if extension == "htm"@ || extension == "html"@ {
        Some("text/html; charset=utf-8"@)
    } else if extension == "txt"@ {
        Some("text/plain; charset=utf-8"@)
    } else if extension == "avi"@ {
        Some("video/x-msvideo"@)
    } else if extension == "mp4"@ {
        Some("video/mp4"@)
    } else if extension == "mpg"@ || extension == "mpeg"@ {
        Some("video/mpeg"@)
    } else if extension == "ts"@ {
        Some("video/mp2t"@)
    } else {
        None
    }
}

/// Whether a text is the given one.
fn is(text: &String, wanted: &str) -> (r: bool)
    ensures
        r == (text@ == wanted@),
{
    let wanted = String::from_str(wanted);
    *text == wanted
}

/// The media type of files with a known extension.
pub fn content_type_for(extension: &str) -> (r: Option<&'static str>)
    ensures
        media_type_for(extension@) == match r {
            Some(media) => Some(media@),
            None => None,
        },
{
    let e = String::from_str(extension);
    if is(&e, "js") {
        Some("application/javascript")
    } else if is(&e, "m3u8") {
        Some("application/vnd.apple.mpegurl")
    } else if is(&e, "mpd") {
        Some("application/dash+xml")
    } else if is(&e, "xml") {
        Some("application/xml")
    } else if is(&e, "gif") {
        Some("image/gif")
    } else if is(&e, "jpg") || is(&e, "jpeg") {
        Some("image/jpeg")
    } else if is(&e, "png") {
        Some("image/png")
    } else if is(&e, "css") {
        Some("text/css")
    } else if is(&e, "htm") || is(&e, "html") {
        Some("text/html; charset=utf-8")
    } else if is(&e, "txt") {
        Some("text/plain; charset=utf-8")
    } else if is(&e, "avi") {
        Some("video/x-msvideo")
    } else if is(&e, "mp4") {
        Some("video/mp4")
    } else if is(&e, "mpg") || is(&e, "mpeg") {
        Some("video/mpeg")
    } else if is(&e, "ts") {
        Some("video/mp2t")
    } else {
        None
    }
}

/// The bytes of a text, which is encoded as UTF-8.
pub open spec fn utf8(text: Seq<char>) -> Seq<u8> {
    vstd::utf8::encode_utf8(text)
}

/// Mathematical form of a [`Response`].
pub struct ResponseView {
    pub status: Status,
    pub headers: Seq<FieldView>,
    pub streaming: bool,
}

impl ResponseView {
    /// The response with a field set to one line.
    pub open spec fn with_header(self, name: Seq<char>, value: Seq<u8>) -> ResponseView {
        ResponseView { headers: with(self.headers, name, seq![value]), ..self }
    }

    /// The response with another status.
    pub open spec fn with_status(self, status: Status) -> ResponseView {
        ResponseView { status, ..self }
    }

    /// Whether the response declares a media type.
    pub open spec fn has_content_type(self) -> bool {
        lookup(self.headers, "Content-Type"@).is_some()
    }

    /// The response once a file was sent: a media type is declared by the file's
    /// extension, where the response declared none and the extension is known. A
    /// file that is missing makes the status 404, and one that cannot be read makes
    /// it 500 and the media type plain text.
    pub open spec fn file_sent(self, extension: Option<Seq<char>>, file: FileRead) -> ResponseView {
        let typed = match extension {
            Some(extension) => match media_type_for(extension) {
                Some(media) => if self.has_content_type() {
                    self
                } else {
                    self.with_header("Content-Type"@, media.map_values(|c: char| c as u8))
                },
                None => self,
            },
            None => self,
        };
        match file {
            FileRead::Content(_) => typed,
            FileRead::NotFound => typed.with_status(Status(404)),
            FileRead::Failed(_) => typed.with_status(Status(500)).with_header(
                "Content-Type"@,
                "text/plain"@.map_values(|c: char| c as u8),
            ),
        }
    }
}

/// The body that goes with a file that was read: its content, nothing where it is
/// missing, and the error in words where it could not be read.
pub open spec fn file_body(file: FileRead) -> Option<Seq<u8>> {
    match file {
        FileRead::Content(bytes) => Some(bytes@),
        FileRead::NotFound => None,
        FileRead::Failed(message) => Some(utf8(message@)),
    }
}

/// The response that a callback builds.
#[derive(Debug)]
pub struct Response {
    pub status: Status,
    pub headers: Headers,
    streaming: bool,
}

impl View for Response {
    type V = ResponseView;

    closed spec fn view(&self) -> ResponseView {
        ResponseView { status: self.status, headers: self.headers@, streaming: self.streaming }
    }
}

/// The bytes of an ASCII text.
pub fn ascii_bytes(text: &str) -> (r: Vec<u8>)
    requires
        text.is_ascii(),
    ensures
        r@ == text@.map_values(|c: char| c as u8),
{
    broadcast use vstd::string::is_ascii_spec_bytes;

    let r = text.as_bytes_vec();
    assert(r@ =~= text@.map_values(|c: char| c as u8));
    r
}

impl Response {
    /// A response with status 200 and no header fields, not streaming.
    pub fn new() -> (r: Response)
        ensures
            r@ == (ResponseView { status: Status(200), headers: Seq::empty(), streaming: false }),
    {
        Response { status: Status::ok(), headers: Headers::new(), streaming: false }
    }

    /// Whether there is a field called `name`.
    pub fn has_header(&self, name: &str) -> (r: bool)
        ensures
            r == lookup(self@.headers, name@).is_some(),
    {
        self.headers.has(name)
    }

    /// The response taken apart: its status, its header fields, and whether it is
    /// a streaming one.
    pub fn into_parts(self) -> (r: (Status, Headers, bool))
        ensures
            r.0 == self@.status,
            r.1@ == self@.headers,
            r.2 == self@.streaming,
    {
        (self.status, self.headers, self.streaming)
    }

    /// Sets the status.
    pub fn status(&mut self, status: Status) -> (r: &mut Self)
        ensures
            r@ == old(self)@.with_status(status),
            *final(self) == *final(r),
    {
        self.status = status;
        self
    }

    /// Sets the `Content-Type` field.
    pub fn content_type(&mut self, mime: Vec<u8>) -> (r: &mut Self)
        ensures
            r@ == old(self)@.with_header("Content-Type"@, mime@),
            *final(self) == *final(r),
    {
        self.header_raw("Content-Type", mime)
    }

    /// Sets the `Content-Length` field.
    pub fn len(&mut self, len: u64) -> (r: &mut Self)
        ensures
            r@ == old(self)@.with_header("Content-Length"@, decimal_digits(len as nat)),
            *final(self) == *final(r),
    {
        self.header_raw("Content-Length", decimal(len))
    }

    /// Adds a `Set-Cookie` line behind those that are there.
    pub fn cookie(&mut self, cookie: String)
        ensures
            final(self)@ == (ResponseView {
                headers: with_line(old(self)@.headers, "Set-Cookie"@, utf8(cookie@)),
                ..old(self)@
            }),
    {
        self.headers.append_raw("Set-Cookie", cookie.as_str().as_bytes_vec());
    }

    /// Sets a field to a text.
    pub fn header(&mut self, name: &str, value: &str) -> (r: &mut Self)
        ensures
            r@ == old(self)@.with_header(name@, utf8(value@)),
            *final(self) == *final(r),
    {
        self.header_raw(name, value.as_bytes_vec())
    }

    /// Sets a field to raw bytes.
    pub fn header_raw(&mut self, name: &str, value: Vec<u8>) -> (r: &mut Self)
        ensures
            r@ == old(self)@.with_header(name@, value@),
            *final(self) == *final(r),
    {
        let mut lines: Vec<Vec<u8>> = Vec::new();
        lines.push(value);
        assert(crate::headers::lines_view(lines) =~= seq![value@]);
        self.headers.set_raw(name, lines);
        self
    }

    /// Sets the `Location` field.
    pub fn location(&mut self, url: String) -> (r: &mut Self)
        ensures
            r@ == old(self)@.with_header("Location"@, utf8(url@)),
            *final(self) == *final(r),
    {
        self.header_raw("Location", url.as_str().as_bytes_vec())
    }

    /// Settles the response for a file that was read, given the extension of its
    /// name, and hands out the body that goes with it.
    pub fn send_file_as(&mut self, extension: Option<String>, file: FileRead) -> (r: Option<
        Vec<u8>,
    >)
        ensures
            final(self)@ == old(self)@.file_sent(
                match extension {
                    Some(extension) => Some(extension@),
                    None => None,
                },
                file,
            ),
            file_body(file) == match r {
                Some(bytes) => Some(bytes@),
                None => None,
            },
    {
        if !self.headers.has("Content-Type") {
            match extension {
                Some(extension) => {
                    match content_type_for(extension.as_str()) {
                        Some(media) => {
                            proof {
                                lemma_media_types_are_ascii(extension@);
                            }
                            self.content_type(ascii_bytes(media));
                        },
                        None => {},
                    }
                },
                None => {},
            }
        }
        match file {
            FileRead::Content(bytes) => Some(bytes),
            FileRead::NotFound => {
                self.status(Status::not_found());
                None
            },
            FileRead::Failed(message) => {
                self.status(Status::internal_server_error());
                proof {
                    reveal_strlit("text/plain");
                }
                self.content_type(ascii_bytes("text/plain"));
                Some(message.as_str().as_bytes_vec())
            },
        }
    }
}

/// Every media type of the table is ASCII text.
proof fn lemma_media_types_are_ascii(extension: Seq<char>)
    ensures
        media_type_for(extension) matches Some(media) ==> vstd::utf8::is_ascii_chars(media),
{
    reveal_strlit("application/javascript");
    reveal_strlit("application/vnd.apple.mpegurl");
    reveal_strlit("application/dash+xml");
    reveal_strlit("application/xml");
    reveal_strlit("image/gif");
    reveal_strlit("image/jpeg");
    reveal_strlit("image/png");
    reveal_strlit("text/css");
    reveal_strlit("text/html; charset=utf-8");
    reveal_strlit("text/plain; charset=utf-8");
    reveal_strlit("video/x-msvideo");
    reveal_strlit("video/mp4");
    reveal_strlit("video/mpeg");
    reveal_strlit("video/mp2t");
}

/// `Path::extension` of the standard library, on the path as text, with the
/// result as text. Nothing is claimed of it: what counts as a file name depends on
/// the platform.
#[verifier::external_body]
fn extension_of(path: &str) -> (r: Option<String>) {
    std::path::Path::new(path).extension().map(|e| e.to_string_lossy().into_owned())
}

/// Settles the response for a file that was read, and hands out the body that
/// goes with it. The media type goes by the extension that the standard library
/// finds in the path.
pub fn send_file(response: &mut Response, path: &str, file: FileRead) -> (r: Option<Vec<u8>>)
    ensures
        exists|extension: Option<Seq<char>>|
            final(response)@ == old(response)@.file_sent(extension, file),
        file_body(file) == match r {
            Some(bytes) => Some(bytes@),
            None => None,
        },
{
    let extension = extension_of(path);
    response.send_file_as(extension, file)
}

/// Makes the response a streaming one.
pub fn set_streaming(response: &mut Response)
    ensures
        final(response)@ == (ResponseView { streaming: true, ..old(response)@ }),
{
    response.streaming = true;
}

/// Whether the response is a streaming one.
pub fn is_streaming(response: &Response) -> (r: bool)
    ensures
        r == response@.streaming,
{
    response.streaming
}

impl vstd::std_specs::convert::FromSpecImpl<Status> for HandlerError {
    open spec fn obeys_from_spec() -> bool {
        true
    }

    open spec fn from_spec(status: Status) -> HandlerError {
        HandlerError { status, message: None }
    }
}

impl From<Status> for HandlerError {
    /// An error with a status and no message.
    fn from(status: Status) -> (e: HandlerError) {
        HandlerError::new(status, None)
    }
}

impl vstd::std_specs::convert::FromSpecImpl<(Status, String)> for HandlerError {
    open spec fn obeys_from_spec() -> bool {
        true
    }

    open spec fn from_spec(pair: (Status, String)) -> HandlerError {
        HandlerError { status: pair.0, message: Some(pair.1) }
    }
}

impl From<(Status, String)> for HandlerError {
    /// An error with a status and a message.
    fn from(pair: (Status, String)) -> (e: HandlerError) {
        HandlerError::new(pair.0, Some(pair.1))
    }
}

impl vstd::std_specs::convert::FromSpecImpl<(Status, &'static str)> for HandlerError {
    open spec fn obeys_from_spec() -> bool {
        false
    }

    open spec fn from_spec(pair: (Status, &'static str)) -> HandlerError {
        arbitrary()
    }
}

impl From<(Status, &'static str)> for HandlerError {
    /// An error with a status and a message.
    fn from(pair: (Status, &'static str)) -> (e: HandlerError)
        ensures
            e.status == pair.0,
            e.message matches Some(message) && message@ == pair.1@,
    {
        HandlerError::new(pair.0, Some(String::from_str(pair.1)))
    }
}

impl<S> vstd::std_specs::convert::FromSpecImpl<()> for Action<S> {
    open spec fn obeys_from_spec() -> bool {
        true
    }

    open spec fn from_spec(unit: ()) -> Action<S> {
        Action::End(None)
    }
}

impl<S> From<()> for Action<S> {
    /// Ends the response with the status that it has.
    fn from(unit: ()) -> (a: Action<S>) {
        Action::End(None)
    }
}

impl<S> vstd::std_specs::convert::FromSpecImpl<Status> for Action<S> {
    open spec fn obeys_from_spec() -> bool {
        true
    }

    open spec fn from_spec(status: Status) -> Action<S> {
        Action::End(Some(status))
    }
}

impl<S> From<Status> for Action<S> {
    /// Ends the response with the given status.
    fn from(status: Status) -> (a: Action<S>) {
        Action::End(Some(status))
    }
}

impl<S> vstd::std_specs::convert::FromSpecImpl<(Status, String)> for Action<S> {
    open spec fn obeys_from_spec() -> bool {
        true
    }

    open spec fn from_spec(pair: (Status, String)) -> Action<S> {
        Action::Redirect(pair.0, pair.1)
    }
}

impl<S> From<(Status, String)> for Action<S> {
    /// Redirects to a URL with a status.
    fn from(pair: (Status, String)) -> (a: Action<S>) {
        Action::Redirect(pair.0, pair.1)
    }
}

impl<'a, S> vstd::std_specs::convert::FromSpecImpl<(Status, &'a str)> for Action<S> {
    open spec fn obeys_from_spec() -> bool {
        false
    }

    open spec fn from_spec(pair: (Status, &'a str)) -> Action<S> {
        arbitrary()
    }
}

impl<'a, S> From<(Status, &'a str)> for Action<S> {
    /// Redirects to a URL with a status.
    fn from(pair: (Status, &'a str)) -> (a: Action<S>)
        ensures
            a matches Action::Redirect(status, url) && status == pair.0 && url@ == pair.1@,
    {
        Action::Redirect(pair.0, String::from_str(pair.1))
    }
}

impl<'a, S> vstd::std_specs::convert::FromSpecImpl<(&'a str, serde_json::Value)> for Action<S> {
    open spec fn obeys_from_spec() -> bool {
        false
    }

    open spec fn from_spec(pair: (&'a str, serde_json::Value)) -> Action<S> {
        arbitrary()
    }
}

impl<'a, S> From<(&'a str, serde_json::Value)> for Action<S> {
    /// Renders the template with the given name on a JSON value.
    fn from(pair: (&'a str, serde_json::Value)) -> (a: Action<S>)
        ensures
            a matches Action::Render(name, json) && name@ == pair.0@ && json == pair.1,
    {
        Action::Render(String::from_str(pair.0), pair.1)
    }
}

impl<S> vstd::std_specs::convert::FromSpecImpl<(String, serde_json::Value)> for Action<S> {
    open spec fn obeys_from_spec() -> bool {
        true
    }

    open spec fn from_spec(pair: (String, serde_json::Value)) -> Action<S> {
        Action::Render(pair.0, pair.1)
    }
}

impl<S> From<(String, serde_json::Value)> for Action<S> {
    /// Renders the template with the given name on a JSON value.
    fn from(pair: (String, serde_json::Value)) -> (a: Action<S>) {
        Action::Render(pair.0, pair.1)
    }
}

impl<S> vstd::std_specs::convert::FromSpecImpl<Vec<u8>> for Action<S> {
    open spec fn obeys_from_spec() -> bool {
        true
    }

    open spec fn from_spec(bytes: Vec<u8>) -> Action<S> {
        Action::Send(bytes)
    }
}

impl<S> From<Vec<u8>> for Action<S> {
    /// Sends the given bytes.
    fn from(bytes: Vec<u8>) -> (a: Action<S>) {
        Action::Send(bytes)
    }
}

impl<S> vstd::std_specs::convert::FromSpecImpl<String> for Action<S> {
    open spec fn obeys_from_spec() -> bool {
        false
    }

    open spec fn from_spec(text: String) -> Action<S> {
        arbitrary()
    }
}

impl<S> From<String> for Action<S> {
    /// Sends the bytes of a text.
    fn from(text: String) -> (a: Action<S>)
        ensures
            a matches Action::Send(bytes) && bytes@ == utf8(text@),
    {
        Action::Send(text.as_str().as_bytes_vec())
    }
}

impl<'a, S> vstd::std_specs::convert::FromSpecImpl<&'a str> for Action<S> {
    open spec fn obeys_from_spec() -> bool {
        false
    }

    open spec fn from_spec(text: &'a str) -> Action<S> {
        arbitrary()
    }
}

impl<'a, S> From<&'a str> for Action<S> {
    /// Sends the bytes of a text.
    fn from(text: &'a str) -> (a: Action<S>)
        ensures
            a matches Action::Send(bytes) && bytes@ == utf8(text@),
    {
        Action::Send(text.as_bytes_vec())
    }
}

/// The text that `serde_json` prints for a JSON value. Nothing is claimed of it.
#[verifier::external_body]
fn json_text(value: &serde_json::Value) -> (r: String) {
    value.to_string()
}

impl<S> vstd::std_specs::convert::FromSpecImpl<serde_json::Value> for Action<S> {
    open spec fn obeys_from_spec() -> bool {
        false
    }

    open spec fn from_spec(value: serde_json::Value) -> Action<S> {
        arbitrary()
    }
}

impl<S> From<serde_json::Value> for Action<S> {
    /// Sends a JSON value as the text that `serde_json` prints for it.
    fn from(value: serde_json::Value) -> (a: Action<S>)
        ensures
            a is Send,
    {
        Action::Send(json_text(&value).as_str().as_bytes_vec())
    }
}

} // verus!
