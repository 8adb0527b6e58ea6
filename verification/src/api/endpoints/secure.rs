//! A handler that accepts whatever is posted to it.

use crate::api::Method;
use crate::request::{Request, RequestView};
use crate::response::{basic_response, Response, ResponseView};
use vstd::prelude::*;

verus! {

/// A handler that answers every `POST` with a body, and nothing else.
pub struct Secure<'a> {
    endpoint: &'a str,
}

/// What `Secure` answers to a `POST`: status 200 where the request has a
/// body, nothing where it has none.
pub open spec fn secure_post(req: RequestView) -> Option<ResponseView> {
    if req.data.len() == 0 {
        None
    } else {
        Some(basic_response(200, "Ok"@))
    }
}

impl<'a> Secure<'a> {
    /// A handler for the paths that begin with `endpoint`.
    pub fn new(endpoint: &'a str) -> (r: Self)
        ensures
            r.prefix() == endpoint@,
    {
        Self { endpoint }
    }

    /// The prefix of the paths that the handler owns.
    pub closed spec fn prefix(&self) -> Seq<char> {
        self.endpoint@
    }
}

impl<'a> Method for Secure<'a> {
    /// A `GET` is declined.
    open spec fn answers_get(&self, req: RequestView, answer: Option<ResponseView>) -> bool {
        answer is None
    }

    /// A `POST` is answered as `secure_post` says.
    open spec fn answers_post(&self, req: RequestView, answer: Option<ResponseView>) -> bool {
        answer == secure_post(req)
    }

    fn get_endpoint(&self) -> (r: &str)
        ensures
            r@ == self.prefix(),
    {
        self.endpoint
    }

    /// Declines every `GET`.
    fn handle_get(&self, req: Request) -> (r: Option<Response>)
        ensures
            r is None,
    {
        None
    }

    fn handle_post(&mut self, req: Request) -> (r: Option<Response>)
        ensures
            final(self).prefix() == old(self).prefix(),
            match secure_post(req@) {
                Some(view) => r is Some && r->Some_0@ == view,
                None => r is None,
            },
    {
        if req.get_data().len() == 0 {
            return None;
        }
        Some(Response::basic(200, "Ok"))
    }
}

} // verus!
