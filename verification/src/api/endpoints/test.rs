//! A handler that keeps one number: a `GET` reads it, a `POST` sets it.

use crate::api::Method;
use crate::request::{Request, RequestView};
use crate::response::{basic_response, Response, ResponseView};
use crate::text::{decimal, decimal_chars, number_of, parse_number, string_of};
use vstd::prelude::*;
use vstd::utf8::encode_utf8;

verus! {

/// A handler that keeps one number.
pub struct ApiTest<'a> {
    pub x: u8,
    pub endpoint: &'a str,
}

/// What `ApiTest` answers to a `GET`: its number in decimal, as plain text.
pub open spec fn number_response(x: u8) -> ResponseView {
    ResponseView {
        code: 200,
        content_type: "text/plain"@,
        data: encode_utf8(decimal(x as nat)),
        headers: Seq::empty(),
    }
}

/// What `ApiTest` answers to a `POST`: status 200 where the body writes a
/// number below 256, and status 400 where it does not.
pub open spec fn number_set_response(req: RequestView) -> ResponseView {
    match number_of(req.data, 255) {
        Some(_) => basic_response(200, "OK"@),
        None => basic_response(400, "Bad Request"@),
    }
}

impl<'a> Method for ApiTest<'a> {
    /// A `GET` is answered with the number.
    open spec fn answers_get(&self, req: RequestView, answer: Option<ResponseView>) -> bool {
        answer == Some(number_response(self.x))
    }

    /// A `POST` is answered as `number_set_response` says.
    open spec fn answers_post(&self, req: RequestView, answer: Option<ResponseView>) -> bool {
        answer == Some(number_set_response(req))
    }

    fn get_endpoint(&self) -> (r: &str)
        ensures
            r@ == self.endpoint@,
    {
        self.endpoint
    }

    /// Answers with the number.
    fn handle_get(&self, req: Request) -> (r: Option<Response>)
        ensures
            r is Some,
            r->Some_0@ == number_response(self.x),
    {
        let mut res = Response::new(200, "text/plain");
        let text = string_of(decimal_chars(self.x as u64).as_slice());
        res.set_data_as_slice(text.as_str().as_bytes());
        Some(res)
    }

    /// Takes the body as the new number and answers with status 200. A body
    /// that writes no number below 256 changes nothing and is answered with
    /// status 400.
    fn handle_post(&mut self, req: Request) -> (r: Option<Response>)
        ensures
            final(self).endpoint == old(self).endpoint,
            r is Some,
            match number_of(req@.data, 255) {
                Some(n) => final(self).x == n && r->Some_0@ == basic_response(200, "OK"@),
                None => final(self).x == old(self).x && r->Some_0@ == basic_response(
                    400,
                    "Bad Request"@,
                ),
            },
    {
        match parse_number(req.get_data().as_slice(), 255) {
            Some(n) => {
                self.x = n as u8;
                Some(Response::basic(200, "OK"))
            },
            None => Some(Response::basic(400, "Bad Request")),
        }
    }
}

} // verus!
