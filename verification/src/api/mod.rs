//! Endpoint handlers: the interface that one implements, and the dispatcher
//! that routes the requests below `/api` to them.

pub mod api;
pub mod endpoints;

use crate::request::{Request, RequestView};
use crate::response::{Response, ResponseView};
use vstd::prelude::*;

verus! {

/// An endpoint handler. It owns the paths that begin with its prefix, and
/// answers a request or declines it by returning `None`.
pub trait Method: Send + Sync {
    /// Whether the handler may give this answer to a `GET` of the request.
    /// A handler that says nothing of its answers may give any.
    open spec fn answers_get(&self, req: RequestView, answer: Option<ResponseView>) -> bool {
        true
    }

    /// Whether the handler may give this answer to a `POST` of the request.
    /// A handler that says nothing of its answers may give any.
    open spec fn answers_post(&self, req: RequestView, answer: Option<ResponseView>) -> bool {
        true
    }

    /// The prefix of the paths that the handler owns, such as `/chat`.
    fn get_endpoint(&self) -> &str;

    /// Answers a `GET`.
    fn handle_get(&self, req: Request) -> (r: Option<Response>)
        ensures
            self.answers_get(req@, answer_view(r)),
    ;

    /// Answers a `POST`. The handler may change its own state.
    fn handle_post(&mut self, req: Request) -> (r: Option<Response>)
        ensures
            old(self).answers_post(req@, answer_view(r)),
    ;
}

/// What an answer of a handler is.
pub open spec fn answer_view(answer: Option<Response>) -> Option<ResponseView> {
    match answer {
        Some(res) => Some(res@),
        None => None,
    }
}

} // verus!
