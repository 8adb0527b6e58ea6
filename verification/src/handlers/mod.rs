//! What answers a request once it is parsed: the choice of a body codec here,
//! static files and `OPTIONS` in the modules below.

pub mod get;
pub mod options;

use crate::codec::{codec_name, encoded, Codec};
use crate::headers::{lookup, with_entry};
use crate::request::{Request, RequestView};
use crate::response::{Response, ResponseView};
use crate::server::WebrsHttp;
use crate::handlers::get::{file_path, resolve_file_path};
use crate::handlers::options::{handle_options, options_response};
use crate::request::ReqTypes;
use crate::response::basic_response;
use crate::server::ServerView;
use crate::text::{
    ascii_lower, chars_of, has_prefix, list_tokens, same_chars, starts_with, tokens, views,
};
use vstd::prelude::*;

verus! {

/// Whether the settings allow a codec.
pub open spec fn enabled(compression: (bool, bool, bool), codec: Codec) -> bool {
    match codec {
        Codec::Zstd => compression.0,
        Codec::Br => compression.1,
        Codec::Gzip => compression.2,
    }
}

/// Whether an `accept-encoding` value offers a codec: its name is one of the
/// tokens of the value, which commas and spaces part.
pub open spec fn offered(accept: Seq<char>, codec: Codec) -> bool {
    tokens(accept).contains(codec_name(codec))
}

/// What a codec makes of the body, where the client offers the codec and the
/// settings allow it.
pub open spec fn attempt(
    codec: Codec,
    accept: Seq<char>,
    compression: (bool, bool, bool),
    data: Seq<u8>,
) -> Option<Seq<u8>> {
    if offered(accept, codec) && enabled(compression, codec) {
        encoded(codec, data)
    } else {
        None
    }
}

/// The codec that is applied and the body that it gives: the first of zstd,
/// brotli and gzip, in this order of preference, that the client offers, the
/// settings allow and that encodes the body. Without an `accept-encoding`
/// header there is none.
pub open spec fn negotiated(
    accept: Option<Seq<char>>,
    compression: (bool, bool, bool),
    data: Seq<u8>,
) -> Option<(Codec, Seq<u8>)> {
    match accept {
        None => None,
        Some(a) => match attempt(Codec::Zstd, a, compression, data) {
            Some(b) => Some((Codec::Zstd, b)),
            None => match attempt(Codec::Br, a, compression, data) {
                Some(b) => Some((Codec::Br, b)),
                None => match attempt(Codec::Gzip, a, compression, data) {
                    Some(b) => Some((Codec::Gzip, b)),
                    None => None,
                },
            },
        },
    }
}

/// The response after a codec was applied to it: the new body, and the
/// header `content-encoding` with the name of the codec.
pub open spec fn encoded_response(res: ResponseView, codec: Codec, body: Seq<u8>) -> ResponseView {
    ResponseView {
        data: body,
        headers: with_entry(res.headers, "content-encoding"@, codec_name(codec)),
        ..res
    }
}

/// The response as it leaves the negotiation of a codec.
pub open spec fn compressed(
    compression: (bool, bool, bool),
    req: RequestView,
    res: ResponseView,
) -> ResponseView {
    match negotiated(lookup(req.headers, "accept-encoding"@), compression, res.data) {
        Some((codec, body)) => encoded_response(res, codec, body),
        None => res,
    }
}

/// How a request is to be answered.
pub enum Routed {
    /// By the dispatcher of the endpoint handlers.
    Api,
    /// With the file at this path, or with the not-found page where the file
    /// cannot be read.
    File(String),
    /// With this response, which is ready to be written.
    Ready(Response),
}

/// What `Routed` is.
pub enum RoutedView {
    Api,
    File(Seq<char>),
    Ready(ResponseView),
}

impl View for Routed {
    type V = RoutedView;

    open spec fn view(&self) -> RoutedView {
        match self {
            Routed::Api => RoutedView::Api,
            Routed::File(path) => RoutedView::File(path@),
            Routed::Ready(res) => RoutedView::Ready(res@),
        }
    }
}

/// How a request is answered: a path that begins with `/api` goes to the
/// dispatcher; of the others a `GET` is answered from a file, `OPTIONS` with
/// the allowed methods and a `POST` with status 405.
pub open spec fn routed(server: ServerView, req: RequestView) -> RoutedView {
    if starts_with(req.endpoint, seq!['/', 'a', 'p', 'i']) {
        RoutedView::Api
    } else {
        match req.req_type {
            ReqTypes::GET => RoutedView::File(file_path(server.content_dir, req.endpoint)),
            ReqTypes::OPTIONS => RoutedView::Ready(
                compressed(server.compression, req, options_response()),
            ),
            ReqTypes::POST => RoutedView::Ready(
                compressed(
                    server.compression,
                    req,
                    basic_response(405, "Method Not Allowed"@),
                ),
            ),
        }
    }
}

fn offers(tokens: &Vec<Vec<char>>, codec: Codec) -> (r: bool)
    ensures
        r == views(tokens@).contains(codec_name(codec)),
{
    let name = chars_of(codec.name());
    let mut i: usize = 0;
    while i < tokens.len()
        invariant
            i <= tokens@.len(),
            name@ == codec_name(codec),
            forall|j: int| 0 <= j < i ==> views(tokens@)[j] != name@,
        decreases tokens@.len() - i,
    {
        if same_chars(tokens[i].as_slice(), name.as_slice()) {
            assert(views(tokens@)[i as int] == name@);
            return true;
        }
        i += 1;
    }
    false
}

/// The three handlers of the server.
pub struct Handlers {}

impl Handlers {
    /// Encodes a body with the codec that the request and the settings
    /// agree on, and says which one it was. Without such a codec the body
    /// comes back as it was given.
    pub fn handle_encoding(server: &WebrsHttp, req: &Request, buf: Vec<u8>) -> (r: (
        Vec<u8>,
        Option<Codec>,
    ))
        ensures
            match negotiated(
                lookup(req@.headers, "accept-encoding"@),
                server@.compression,
                buf@,
            ) {
                Some((codec, body)) => r.0@ == body && r.1 == Some(codec),
                None => r.0@ == buf@ && r.1 is None,
            },
    {
        let headers = req.get_headers();
        let accept = match headers.get("accept-encoding") {
            Some(a) => chars_of(a.as_str()),
            None => {
                return (buf, None);
            },
        };
        let tokens = list_tokens(accept.as_slice());
        let compression = server.compression();
        if compression.0 && offers(&tokens, Codec::Zstd) {
            if let Some(out) = Codec::Zstd.encode(buf.as_slice()) {
                return (out, Some(Codec::Zstd));
            }
        }
        if compression.1 && offers(&tokens, Codec::Br) {
            if let Some(out) = Codec::Br.encode(buf.as_slice()) {
                return (out, Some(Codec::Br));
            }
        }
        if compression.2 && offers(&tokens, Codec::Gzip) {
            if let Some(out) = Codec::Gzip.encode(buf.as_slice()) {
                return (out, Some(Codec::Gzip));
            }
        }
        (buf, None)
    }

    /// The response with the body that a codec made of it, under the header
    /// `content-encoding` with the name of that codec.
    pub fn with_encoding(res: Response, codec: Codec, body: Vec<u8>) -> (r: Response)
        ensures
            r@ == encoded_response(res@, codec, body@),
    {
        let mut res = res;
        res.set_data(body);
        proof {
            reveal_strlit("content-encoding");
            assert(ascii_lower("content-encoding"@) =~= "content-encoding"@);
        }
        res.add_header("content-encoding".to_owned(), codec.name());
        res
    }

    /// Passes a response through the negotiation of a codec: at most one
    /// codec is applied to its body, and `content-encoding` then names it.
    pub fn handle_compression(server: &WebrsHttp, req: &Request, res: Response) -> (r: Response)
        ensures
            r@ == compressed(server@.compression, req@, res@),
    {
        let (body, codec) = Self::handle_encoding(server, req, res.get_data());
        match codec {
            Some(c) => Self::with_encoding(res, c, body),
            None => res,
        }
    }

    /// Decides how a request is answered, and answers it where that takes
    /// neither a file nor an endpoint handler.
    pub fn handle_request(server: &WebrsHttp, req: &Request) -> (r: Routed)
        ensures
            r@ == routed(server@, req@),
    {
        let path = chars_of(req.get_endpoint());
        let marker: [char; 4] = ['/', 'a', 'p', 'i'];
        assert(marker@ =~= seq!['/', 'a', 'p', 'i']);
        if has_prefix(path.as_slice(), marker.as_slice()) {
            return Routed::Api;
        }
        match req.get_type() {
            ReqTypes::GET => Routed::File(resolve_file_path(server, req)),
            ReqTypes::OPTIONS => Routed::Ready(
                Self::handle_compression(server, req, handle_options(req).unwrap()),
            ),
            ReqTypes::POST => Routed::Ready(
                Self::handle_compression(
                    server,
                    req,
                    Response::basic(405, "Method Not Allowed"),
                ),
            ),
        }
    }
}

/// The place of a codec in the order of preference: zstd comes before
/// brotli, and brotli before gzip.
pub open spec fn rank(codec: Codec) -> int {
    match codec {
        Codec::Zstd => 0,
        Codec::Br => 1,
        Codec::Gzip => 2,
    }
}

/// The codec that is applied is the highest in the order of preference that
/// the client offers, the settings allow and that encodes the body: every
/// codec before it gave nothing. Where none is applied, none of the three
/// gave anything. The order in which the client lists the codecs counts for
/// nothing.
pub proof fn lemma_highest_ranked(
    accept: Seq<char>,
    compression: (bool, bool, bool),
    data: Seq<u8>,
)
    ensures
        match negotiated(Some(accept), compression, data) {
            Some((codec, body)) => offered(accept, codec) && enabled(compression, codec)
                && encoded(codec, data) == Some(body) && forall|other: Codec|
                rank(other) < rank(codec) ==> attempt(other, accept, compression, data) is None,
            None => forall|other: Codec| attempt(other, accept, compression, data) is None,
        },
{
}

/// With zstd offered and allowed, zstd is applied where it encodes the
/// body, whatever else is offered, and `content-encoding` then says `zstd`.
pub proof fn lemma_zstd_preferred(
    compression: (bool, bool, bool),
    req: RequestView,
    res: ResponseView,
)
    requires
        lookup(req.headers, "accept-encoding"@) is Some,
        offered(lookup(req.headers, "accept-encoding"@)->Some_0, Codec::Zstd),
        compression.0,
        encoded(Codec::Zstd, res.data) is Some,
    ensures
        compressed(compression, req, res).data == encoded(Codec::Zstd, res.data)->Some_0,
        lookup(compressed(compression, req, res).headers, "content-encoding"@) == Some("zstd"@),
{
    crate::headers::lemma_position(res.headers, "content-encoding"@);
    let h = with_entry(res.headers, "content-encoding"@, "zstd"@);
    crate::headers::lemma_position(h, "content-encoding"@);
    match crate::headers::position(res.headers, "content-encoding"@) {
        Some(i) => {
            assert(h[i] == ("content-encoding"@, "zstd"@));
        },
        None => {
            assert(h[res.headers.len() as int] == ("content-encoding"@, "zstd"@));
        },
    }
}

/// A request without `accept-encoding` leaves the response as it is: the
/// body is untouched and no `content-encoding` is added.
pub proof fn lemma_without_accept_encoding(
    compression: (bool, bool, bool),
    req: RequestView,
    res: ResponseView,
)
    requires
        lookup(req.headers, "accept-encoding"@) is None,
    ensures
        compressed(compression, req, res) == res,
{
}

} // verus!
