//! A small HTTP/1.1 server engine: requests are parsed from bytes, routed to
//! static files or to endpoint handlers behind their locks, answered, passed
//! through the negotiation of a body codec and written back as bytes. What
//! touches a socket or a file is left to the caller, who is told what to do
//! next after each thing that happens.

pub mod api;
pub mod codec;
pub mod config;
pub mod handlers;
pub mod headers;
pub mod json;
pub mod request;
pub mod request_proofs;
pub mod response;
pub mod server;
pub mod text;

pub use crate::api::api::Api;
pub use crate::api::Method;
pub use crate::config::{Compression, Config};
pub use crate::handlers::Handlers;
pub use crate::headers::Headers;
pub use crate::request::{ReqTypes, Request, ResError};
pub use crate::response::{respond, Response};
pub use crate::server::{Connection, WebrsHttp};
