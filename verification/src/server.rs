//! The settings of a server, and the life of one connection: what is done
//! after each thing that happens on it.

use crate::api::api::{ApiOutcome, OutcomeView};
use crate::handlers::get::{get_response, handle_get};
use crate::handlers::{compressed, routed, Handlers, Routed, RoutedView};
use crate::headers::lookup;
use crate::request::{parse_spec, terminator, ReqTypes, Request, RequestView};
use crate::response::{basic_response, respond, wire_bytes, Response};
use crate::text::{ascii_lower, chars_of, find, find_bytes, lower_chars, same_chars};
use vstd::prelude::*;

verus! {

/// The settings that a server runs with.
pub struct WebrsHttp {
    port: u16,
    compression: (bool, bool, bool),
    content_dir: String,
}

/// What the settings of a server are.
pub struct ServerView {
    pub port: u16,
    /// Whether zstd, brotli and gzip, in this order, may be used.
    pub compression: (bool, bool, bool),
    pub content_dir: Seq<char>,
}

impl View for WebrsHttp {
    type V = ServerView;

    closed spec fn view(&self) -> ServerView {
        ServerView {
            port: self.port,
            compression: self.compression,
            content_dir: self.content_dir@,
        }
    }
}

impl WebrsHttp {
    /// The settings of a server on `port` that serves the files under
    /// `content_dir`; `compression` says whether zstd, brotli and gzip, in
    /// this order, may be used.
    pub fn new(port: u16, compression: (bool, bool, bool), content_dir: String) -> (r: Self)
        ensures
            r@ == (ServerView { port, compression, content_dir: content_dir@ }),
    {
        WebrsHttp { port, compression, content_dir }
    }

    /// The port to listen on.
    pub fn port(&self) -> (p: u16)
        ensures
            p == self@.port,
    {
        self.port
    }

    /// Whether zstd, brotli and gzip, in this order, may be used.
    pub fn compression(&self) -> (c: (bool, bool, bool))
        ensures
            c == self@.compression,
    {
        self.compression
    }

    /// The directory that static files are served from.
    pub fn content_dir(&self) -> (d: &str)
        ensures
            d@ == self@.content_dir,
    {
        self.content_dir.as_str()
    }
}

/// The seconds to wait before reading again from a connection that had
/// nothing to read.
pub const BACKOFF_SECONDS: u64 = 5;

/// Whether the connection stays open after the exchange with this request:
/// its `connection` header says `keep-alive`, in capitals or not.
pub open spec fn keep_alive(req: RequestView) -> bool {
    match lookup(req.headers, "connection"@) {
        Some(v) => ascii_lower(v) == "keep-alive"@,
        None => false,
    }
}

/// Whether the buffer holds a complete header block.
pub open spec fn header_complete(buffer: Seq<u8>) -> bool {
    find(buffer, terminator()) is Some
}

/// Where a connection stands.
pub enum Phase {
    /// Bytes are gathered until the header block is complete.
    Receiving,
    /// The file that answers this request is being read.
    Resolving(Request),
    /// The endpoint handlers work on this request.
    Dispatching(Request),
    /// A response is being written; the flag says whether the connection
    /// stays open after it.
    Sending(bool),
    /// The connection has ended.
    Closed,
}

/// What the connection asks for next.
pub enum ConnAction {
    /// Read from the socket.
    Read,
    /// Wait this many seconds.
    Sleep(u64),
    /// Read the whole file at this path.
    ReadFile(String),
    /// Dispatch this request to the endpoint handlers.
    Dispatch(Request),
    /// Write these bytes to the socket and flush it.
    Write(Vec<u8>),
    /// Close the socket.
    Close,
}

/// What happened on the connection.
pub enum ConnEvent {
    /// The connection was accepted.
    Opened,
    /// A read returned these bytes. No bytes: the peer has closed.
    Data(Vec<u8>),
    /// A read found nothing to read yet.
    WouldBlock,
    /// A read failed for good.
    ReadFailed,
    /// The wait is over.
    Slept,
    /// The file was read, with this content, or it could not be read.
    File(Option<Vec<u8>>),
    /// The dispatch ended like this.
    Api(ApiOutcome),
    /// The bytes are written.
    Written,
}

/// What a phase is.
pub enum PhaseView {
    Receiving,
    Resolving(RequestView),
    Dispatching(RequestView),
    Sending(bool),
    Closed,
}

/// What an action of a connection is.
pub enum ConnActionView {
    Read,
    Sleep(u64),
    ReadFile(Seq<char>),
    Dispatch(RequestView),
    Write(Seq<u8>),
    Close,
}

/// What an event on a connection is.
pub enum ConnEventView {
    Opened,
    Data(Seq<u8>),
    WouldBlock,
    ReadFailed,
    Slept,
    File(Option<Seq<u8>>),
    Api(OutcomeView),
    Written,
}

impl View for Phase {
    type V = PhaseView;

    open spec fn view(&self) -> PhaseView {
        match self {
            Phase::Receiving => PhaseView::Receiving,
            Phase::Resolving(req) => PhaseView::Resolving(req@),
            Phase::Dispatching(req) => PhaseView::Dispatching(req@),
            Phase::Sending(keep) => PhaseView::Sending(*keep),
            Phase::Closed => PhaseView::Closed,
        }
    }
}

impl View for ConnAction {
    type V = ConnActionView;

    open spec fn view(&self) -> ConnActionView {
        match self {
            ConnAction::Read => ConnActionView::Read,
            ConnAction::Sleep(seconds) => ConnActionView::Sleep(*seconds),
            ConnAction::ReadFile(path) => ConnActionView::ReadFile(path@),
            ConnAction::Dispatch(req) => ConnActionView::Dispatch(req@),
            ConnAction::Write(bytes) => ConnActionView::Write(bytes@),
            ConnAction::Close => ConnActionView::Close,
        }
    }
}

impl View for ConnEvent {
    type V = ConnEventView;

    open spec fn view(&self) -> ConnEventView {
        match self {
            ConnEvent::Opened => ConnEventView::Opened,
            ConnEvent::Data(bytes) => ConnEventView::Data(bytes@),
            ConnEvent::WouldBlock => ConnEventView::WouldBlock,
            ConnEvent::ReadFailed => ConnEventView::ReadFailed,
            ConnEvent::Slept => ConnEventView::Slept,
            ConnEvent::File(Some(content)) => ConnEventView::File(Some(content@)),
            ConnEvent::File(None) => ConnEventView::File(None),
            ConnEvent::Api(outcome) => ConnEventView::Api(outcome@),
            ConnEvent::Written => ConnEventView::Written,
        }
    }
}

/// What a connection is: its phase, and the bytes read for the request that
/// is being received.
pub struct ConnView {
    pub phase: PhaseView,
    pub buffer: Seq<u8>,
}

/// A connection that has ended, and the action that ends it.
pub open spec fn closed() -> (ConnView, ConnActionView) {
    (ConnView { phase: PhaseView::Closed, buffer: Seq::empty() }, ConnActionView::Close)
}

/// A connection that writes `bytes` and then stays open or not, as `keep`
/// says.
pub open spec fn sending(bytes: Seq<u8>, keep: bool) -> (ConnView, ConnActionView) {
    (
        ConnView { phase: PhaseView::Sending(keep), buffer: Seq::empty() },
        ConnActionView::Write(bytes),
    )
}

/// The end of an exchange: the connection reads the next request into an
/// empty buffer where it stays open, and ends where it does not.
pub open spec fn after_exchange(keep: bool) -> (ConnView, ConnActionView) {
    if keep {
        (ConnView { phase: PhaseView::Receiving, buffer: Seq::empty() }, ConnActionView::Read)
    } else {
        closed()
    }
}

/// What becomes of a buffer that holds a complete header block. A request
/// that cannot be parsed is answered with its error, and the connection
/// stays open. A parsed request goes where `routed` says.
pub open spec fn received(server: ServerView, buffer: Seq<u8>) -> (ConnView, ConnActionView) {
    match parse_spec(buffer) {
        Err(e) => sending(wire_bytes(basic_response(e.code, e.description)), true),
        Ok(req) => match routed(server, req) {
            RoutedView::Api => (
                ConnView { phase: PhaseView::Dispatching(req), buffer: Seq::empty() },
                ConnActionView::Dispatch(req),
            ),
            RoutedView::File(path) => (
                ConnView { phase: PhaseView::Resolving(req), buffer: Seq::empty() },
                ConnActionView::ReadFile(path),
            ),
            RoutedView::Ready(res) => sending(wire_bytes(res), keep_alive(req)),
        },
    }
}

/// The connection after an event, and what it asks for next.
///
/// While it receives, bytes that were read join the buffer until it holds a
/// complete header block; a read without bytes ends the connection, a read
/// that would block is tried again after a wait, and a failed read ends the
/// connection. A file that was read, or not, answers the request it was read
/// for. A dispatch that ends with a reply has the reply written; one that
/// ends unanswered is answered with status 400; one that was dropped has
/// nothing written. What a file or a handler answers goes through the
/// negotiation of a codec. After each exchange the `connection` header of
/// the request decides whether another one follows. An event that the phase
/// does not wait for ends the connection.
pub open spec fn conn_step(server: ServerView, conn: ConnView, event: ConnEventView) -> (
    ConnView,
    ConnActionView,
) {
    match (conn.phase, event) {
        (PhaseView::Receiving, ConnEventView::Opened) => (conn, ConnActionView::Read),
        (PhaseView::Receiving, ConnEventView::Slept) => (conn, ConnActionView::Read),
        (PhaseView::Receiving, ConnEventView::WouldBlock) => (
            conn,
            ConnActionView::Sleep(BACKOFF_SECONDS),
        ),
        (PhaseView::Receiving, ConnEventView::Data(bytes)) => if bytes.len() == 0 {
            closed()
        } else if header_complete(conn.buffer + bytes) {
            received(server, conn.buffer + bytes)
        } else {
            (
                ConnView { phase: PhaseView::Receiving, buffer: conn.buffer + bytes },
                ConnActionView::Read,
            )
        },
        (PhaseView::Resolving(req), ConnEventView::File(file)) => match get_response(req, file) {
            Some(res) => sending(
                wire_bytes(compressed(server.compression, req, res)),
                keep_alive(req),
            ),
            None => closed(),
        },
        (PhaseView::Dispatching(req), ConnEventView::Api(outcome)) => match outcome {
            OutcomeView::Reply(res) => sending(
                wire_bytes(compressed(server.compression, req, res)),
                keep_alive(req),
            ),
            OutcomeView::Unanswered => sending(
                wire_bytes(basic_response(400, "Bad Request"@)),
                keep_alive(req),
            ),
            OutcomeView::Dropped => after_exchange(keep_alive(req)),
        },
        (PhaseView::Sending(keep), ConnEventView::Written) => after_exchange(keep),
        _ => closed(),
    }
}

/// Whether the connection stays open after the exchange with this request.
pub fn wants_keep_alive(req: &Request) -> (r: bool)
    ensures
        r == keep_alive(req@),
{
    let headers = req.get_headers();
    match headers.get("connection") {
        Some(v) => {
            let lowered = lower_chars(chars_of(v.as_str()).as_slice());
            let wanted = chars_of("keep-alive");
            same_chars(lowered.as_slice(), wanted.as_slice())
        },
        None => false,
    }
}

/// One connection.
pub struct Connection {
    phase: Phase,
    buffer: Vec<u8>,
}

impl View for Connection {
    type V = ConnView;

    closed spec fn view(&self) -> ConnView {
        ConnView { phase: self.phase@, buffer: self.buffer@ }
    }
}

impl Connection {
    /// A connection that was just accepted: it receives, and has read
    /// nothing.
    pub fn new() -> (r: Self)
        ensures
            r@ == (ConnView { phase: PhaseView::Receiving, buffer: Seq::empty() }),
    {
        Connection { phase: Phase::Receiving, buffer: Vec::new() }
    }

    /// Whether the connection has ended.
    pub fn is_closed(&self) -> (r: bool)
        ensures
            r == (self@.phase is Closed),
    {
        match self.phase {
            Phase::Closed => true,
            _ => false,
        }
    }

    /// The request that the connection is at work on: the one whose file is
    /// being read, or that the endpoint handlers work on.
    pub fn request(&self) -> (r: Option<&Request>)
        ensures
            match self@.phase {
                PhaseView::Resolving(req) => r is Some && r->Some_0@ == req,
                PhaseView::Dispatching(req) => r is Some && r->Some_0@ == req,
                _ => r is None,
            },
    {
        match &self.phase {
            Phase::Resolving(req) => Some(req),
            Phase::Dispatching(req) => Some(req),
            _ => None,
        }
    }

    fn close(&mut self) -> (r: ConnAction)
        ensures
            (final(self)@, r@) == closed(),
    {
        self.phase = Phase::Closed;
        self.buffer = Vec::new();
        ConnAction::Close
    }

    fn send(&mut self, res: Response, keep: bool) -> (r: ConnAction)
        ensures
            (final(self)@, r@) == sending(wire_bytes(res@), keep),
    {
        self.phase = Phase::Sending(keep);
        self.buffer = Vec::new();
        ConnAction::Write(respond(res))
    }

    fn finish(&mut self, keep: bool) -> (r: ConnAction)
        ensures
            (final(self)@, r@) == after_exchange(keep),
    {
        if keep {
            self.phase = Phase::Receiving;
            self.buffer = Vec::new();
            ConnAction::Read
        } else {
            self.close()
        }
    }

    fn receive(&mut self, server: &WebrsHttp) -> (r: ConnAction)
        ensures
            (final(self)@, r@) == received(server@, old(self)@.buffer),
    {
        match Request::parse(self.buffer.as_slice()) {
            Err(e) => self.send(Response::basic(e.get_code(), e.get_description()), true),
            Ok(req) => match Handlers::handle_request(server, &req) {
                Routed::Api => {
                    let copy = req.clone();
                    self.phase = Phase::Dispatching(req);
                    self.buffer = Vec::new();
                    ConnAction::Dispatch(copy)
                },
                Routed::File(path) => {
                    self.phase = Phase::Resolving(req);
                    self.buffer = Vec::new();
                    ConnAction::ReadFile(path)
                },
                Routed::Ready(res) => {
                    let keep = wants_keep_alive(&req);
                    self.send(res, keep)
                },
            },
        }
    }

    /// Takes note of what happened on the connection and says what to do
    /// next.
    pub fn step(&mut self, server: &WebrsHttp, event: ConnEvent) -> (r: ConnAction)
        ensures
            (final(self)@, r@) == conn_step(server@, old(self)@, event@),
    {
        let mut phase = Phase::Closed;
        core::mem::swap(&mut self.phase, &mut phase);
        match (phase, event) {
            (Phase::Receiving, ConnEvent::Opened) => {
                self.phase = Phase::Receiving;
                ConnAction::Read
            },
            (Phase::Receiving, ConnEvent::Slept) => {
                self.phase = Phase::Receiving;
                ConnAction::Read
            },
            (Phase::Receiving, ConnEvent::WouldBlock) => {
                self.phase = Phase::Receiving;
                ConnAction::Sleep(BACKOFF_SECONDS)
            },
            (Phase::Receiving, ConnEvent::Data(bytes)) => {
                if bytes.len() == 0 {
                    return self.close();
                }
                self.buffer.extend_from_slice(bytes.as_slice());
                let term: [u8; 4] = [13, 10, 13, 10];
                assert(term@ =~= terminator());
                assert(self.buffer@ == old(self)@.buffer + bytes@);
                match find_bytes(self.buffer.as_slice(), term.as_slice(), 0) {
                    Some(_) => self.receive(server),
                    None => {
                        self.phase = Phase::Receiving;
                        ConnAction::Read
                    },
                }
            },
            (Phase::Resolving(req), ConnEvent::File(file)) => match handle_get(&req, file) {
                Some(res) => {
                    let keep = wants_keep_alive(&req);
                    let res = Handlers::handle_compression(server, &req, res);
                    self.send(res, keep)
                },
                None => self.close(),
            },
            (Phase::Dispatching(req), ConnEvent::Api(outcome)) => {
                let keep = wants_keep_alive(&req);
                match outcome {
                    ApiOutcome::Reply(res) => {
                        let res = Handlers::handle_compression(server, &req, res);
                        self.send(res, keep)
                    },
                    ApiOutcome::Unanswered => self.send(Response::basic(400, "Bad Request"), keep),
                    ApiOutcome::Dropped => self.finish(keep),
                }
            },
            (Phase::Sending(keep), ConnEvent::Written) => self.finish(keep),
            _ => self.close(),
        }
    }
}

/// The `connection` header decides whether a connection stays open: it does
/// with `keep-alive`, in capitals or not, and does not with `close` or
/// without the header.
pub proof fn lemma_keep_alive_by_header(req: RequestView)
    ensures
        lookup(req.headers, "connection"@) is None ==> !keep_alive(req),
        lookup(req.headers, "connection"@) == Some("close"@) ==> !keep_alive(req),
        lookup(req.headers, "connection"@) == Some("keep-alive"@) ==> keep_alive(req),
        lookup(req.headers, "connection"@) == Some("Keep-Alive"@) ==> keep_alive(req),
{
    reveal_strlit("close");
    reveal_strlit("keep-alive");
    reveal_strlit("Keep-Alive");
    assert(ascii_lower("close"@).len() != "keep-alive"@.len());
    assert(ascii_lower("keep-alive"@) =~= "keep-alive"@);
    assert(ascii_lower("Keep-Alive"@) =~= "keep-alive"@);
}

/// Every exchange ends as the `connection` header of its request says. Once
/// the file or the handlers have answered, the response is written and the
/// connection then reads the next request where the request asked to keep it
/// alive, and is closed where it did not.
pub proof fn lemma_exchange_ends_by_header(
    server: ServerView,
    conn: ConnView,
    event: ConnEventView,
    req: RequestView,
)
    requires
        (conn.phase == PhaseView::Resolving(req) && event is File && req.req_type == ReqTypes::GET)
            || (conn.phase == PhaseView::Dispatching(req) && event is Api && !(event->Api_0
            is Dropped)),
    ensures
        ({
            let (writing, action) = conn_step(server, conn, event);
            let (next, then) = conn_step(server, writing, ConnEventView::Written);
            &&& action is Write
            &&& writing.phase == PhaseView::Sending(keep_alive(req))
            &&& keep_alive(req) ==> next.phase is Receiving && next.buffer.len() == 0 && then
                is Read
            &&& !keep_alive(req) ==> next.phase is Closed && then is Close
        }),
{
}

/// A request that was dropped because a handler is busy gets no response:
/// nothing is written for it.
pub proof fn lemma_dropped_writes_nothing(server: ServerView, buffer: Seq<u8>, req: RequestView)
    ensures
        ({
            let conn = ConnView { phase: PhaseView::Dispatching(req), buffer };
            let (next, action) = conn_step(
                server,
                conn,
                ConnEventView::Api(OutcomeView::Dropped),
            );
            !(action is Write) && !(next.phase is Sending)
        }),
{
}

/// A request that cannot be parsed is answered with its error, and the
/// connection stays open for the next request.
pub proof fn lemma_bad_request_keeps_connection(server: ServerView, buffer: Seq<u8>)
    requires
        parse_spec(buffer) is Err,
    ensures
        ({
            let e = parse_spec(buffer)->Err_0;
            received(server, buffer) == sending(
                wire_bytes(basic_response(e.code, e.description)),
                true,
            )
        }),
        conn_step(server, received(server, buffer).0, ConnEventView::Written).1 is Read,
{
}

} // verus!
