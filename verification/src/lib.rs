//! The rules of a small web framework, verified: how a request's body is framed
//! and buffered, how a path finds its callback, how a callback's result becomes
//! a response, and how that response is written out, at once or chunk by chunk.
//!
//! Nothing here touches a socket, a file or a thread. Whoever serves requests
//! performs the reads and writes, runs the callbacks, and tells the machine in
//! [`handler`] what came of each step.

pub mod application;
pub mod buffer;
pub mod framing;
pub mod handler;
pub mod headers;
pub mod http;
pub mod params;
pub mod request;
pub mod response;
pub mod router;

pub use application::Edge;
pub use http::{Method, Status};
pub use request::Request;
pub use response::{stream, Action, HandlerError, HandlerResult, Response};
pub use router::Router;
