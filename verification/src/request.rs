//! Requests: the parser that turns the bytes read from a connection into a
//! structured request, or into the error that is answered in its place.

use crate::headers::{lookup, with_entry, Entry, Headers};
use crate::text::{
    ascii_lower, chars_of, decimal, decimal_chars, find, find_bytes, find_chars, lemma_find_from,
    lower_chars, same_chars, split, split_chars, string_of, trim, trim_chars, utf8_text, views,
};
use vstd::prelude::*;
use vstd::string::StringExecFns;
use vstd::utf8::{decode_utf8, valid_utf8};

verus! {

/// The request methods that the server understands.
#[derive(Debug, PartialEq, Eq, Clone, Copy, Structural)]
pub enum ReqTypes {
    GET,
    POST,
    OPTIONS,
}

/// What a request error is: a status code and a one-line description.
pub struct ErrorView {
    pub code: u16,
    pub description: Seq<char>,
}

/// The error for a request that cannot be read: status 400.
pub open spec fn bad_request() -> ErrorView {
    ErrorView { code: 400, description: "Bad Request"@ }
}

/// The error for a request whose method the server does not know: status 501.
pub open spec fn not_implemented() -> ErrorView {
    ErrorView { code: 501, description: "Not Implemented"@ }
}

/// Why a request was refused.
#[derive(Debug, Clone, Copy)]
pub struct ResError {
    code: u16,
    description: &'static str,
}

impl View for ResError {
    type V = ErrorView;

    closed spec fn view(&self) -> ErrorView {
        ErrorView { code: self.code, description: self.description@ }
    }
}

/// The text that an error is shown as.
pub open spec fn error_text(e: ErrorView) -> Seq<char> {
    "Req error! "@ + decimal(e.code as nat) + " "@ + e.description
}

impl ResError {
    /// The text that the error is shown as: `Req error!`, its code and its
    /// description.
    pub fn message(&self) -> (text: String)
        ensures
            text@ == error_text(self@),
    {
        let mut text = String::from_str("Req error! ");
        text.append(string_of(decimal_chars(self.code as u64).as_slice()).as_str());
        text.append(" ");
        text.append(self.description);
        text
    }

    /// The status code to answer with.
    pub fn get_code(&self) -> (code: u16)
        ensures
            code == self@.code,
    {
        self.code
    }

    /// The one-line description of the error.
    pub fn get_description(&self) -> (description: &str)
        ensures
            description@ == self@.description,
    {
        self.description
    }
}

/// What a request is, apart from its identifier.
pub struct RequestView {
    pub req_type: ReqTypes,
    pub content_type: Seq<char>,
    pub endpoint: Seq<char>,
    pub data: Seq<u8>,
    pub headers: Seq<Entry>,
}

/// The bytes that end the header block: CR LF CR LF.
pub open spec fn terminator() -> Seq<u8> {
    seq![13u8, 10u8, 13u8, 10u8]
}

/// The method that a token of the request line names.
pub open spec fn method_of(token: Seq<char>) -> Option<ReqTypes> {
    if token == seq!['G', 'E', 'T'] {
        Some(ReqTypes::GET)
    } else if token == seq!['P', 'O', 'S', 'T'] {
        Some(ReqTypes::POST)
    } else if token == seq!['O', 'P', 'T', 'I', 'O', 'N', 'S'] {
        Some(ReqTypes::OPTIONS)
    } else {
        None
    }
}

/// The name of a method, as the request line writes it.
pub open spec fn method_name(m: ReqTypes) -> Seq<char> {
    match m {
        ReqTypes::GET => seq!['G', 'E', 'T'],
        ReqTypes::POST => seq!['P', 'O', 'S', 'T'],
        ReqTypes::OPTIONS => seq!['O', 'P', 'T', 'I', 'O', 'N', 'S'],
    }
}

/// The request line of a method and a path, under HTTP/1.1.
pub open spec fn request_line(m: ReqTypes, endpoint: Seq<char>) -> Seq<char> {
    method_name(m) + seq![' '] + endpoint + seq![' ', 'H', 'T', 'T', 'P', '/', '1', '.', '1']
}

/// The header that a line holds: the line is split once at its first colon
/// and space, the key is trimmed and put in lower case, the value is trimmed.
/// A line without a colon and space holds none.
pub open spec fn header_of(line: Seq<char>) -> Option<Entry> {
    match find(line, seq![':', ' ']) {
        Some(i) => Some((ascii_lower(trim(line.take(i))), trim(line.skip(i + 2)))),
        None => None,
    }
}

/// The header map that the lines give, read from first to last: a key that
/// comes again takes the later value.
pub open spec fn headers_of(lines: Seq<Seq<char>>) -> Seq<Entry>
    decreases lines.len(),
{
    if lines.len() == 0 {
        Seq::empty()
    } else {
        let before = headers_of(lines.drop_last());
        match header_of(lines.last()) {
            Some(e) => with_entry(before, e.0, e.1),
            None => before,
        }
    }
}

/// The content type of a request with these headers: the header
/// `content-type`, and `text/plain` without it.
pub open spec fn content_type_of(headers: Seq<Entry>) -> Seq<char> {
    match lookup(headers, "content-type"@) {
        Some(v) => v,
        None => "text/plain"@,
    }
}

/// A line without the carriage return at its end, where it has one.
pub open spec fn without_cr(line: Seq<char>) -> Seq<char> {
    if line.len() > 0 && line.last() == '\r' {
        line.drop_last()
    } else {
        line
    }
}

/// The request line: what stands before the first line feed of the header
/// text, without the carriage return that ends it.
pub open spec fn first_line(text: Seq<char>) -> Seq<char> {
    without_cr(split(text, seq!['\n'])[0])
}

/// The tokens of the request line: the request line, split at each space.
pub open spec fn request_line_tokens(text: Seq<char>) -> Seq<Seq<char>> {
    split(first_line(text), seq![' '])
}

/// The request that a header text and a body make.
pub open spec fn parse_head(text: Seq<char>, body: Seq<u8>) -> Result<RequestView, ErrorView> {
    let tokens = request_line_tokens(text);
    if tokens.len() < 2 {
        Err(bad_request())
    } else {
        match method_of(tokens[0]) {
            None => Err(not_implemented()),
            Some(m) => {
                let headers = headers_of(split(text, seq!['\n']).skip(1));
                Ok(
                    RequestView {
                        req_type: m,
                        content_type: content_type_of(headers),
                        endpoint: tokens[1],
                        data: body,
                        headers,
                    },
                )
            },
        }
    }
}

/// The header text of a buffer: what stands before the first terminator,
/// where there is one and those bytes are well-formed UTF-8.
pub open spec fn header_text(raw: Seq<u8>) -> Option<Seq<char>> {
    match find(raw, terminator()) {
        Some(i) => if valid_utf8(raw.take(i)) {
            Some(decode_utf8(raw.take(i)))
        } else {
            None
        },
        None => None,
    }
}

/// The body of a buffer: every byte after the first terminator.
pub open spec fn body_of(raw: Seq<u8>) -> Seq<u8> {
    match find(raw, terminator()) {
        Some(i) => raw.skip(i + 4),
        None => Seq::empty(),
    }
}

/// The outcome of parsing a buffer. A buffer without a terminator, or whose
/// header block is not text, is a bad request.
pub open spec fn parse_spec(raw: Seq<u8>) -> Result<RequestView, ErrorView> {
    match header_text(raw) {
        Some(text) => parse_head(text, body_of(raw)),
        None => Err(bad_request()),
    }
}

/// The headers of a request as they are shown, one line each.
pub open spec fn shown_headers(h: Seq<Entry>) -> Seq<char>
    decreases h.len(),
{
    if h.len() == 0 {
        Seq::empty()
    } else {
        shown_headers(h.drop_last()) + h.last().0 + ": "@ + h.last().1 + "\n"@
    }
}

/// The body of a request as it is shown: its text, or a note that it is
/// none.
pub open spec fn shown_body(data: Seq<u8>) -> Seq<char> {
    if valid_utf8(data) {
        decode_utf8(data)
    } else {
        "[Not utf8]"@
    }
}

/// The text that a request is shown as: its request line, its headers, an
/// empty line and its body, each ended by a line feed.
pub open spec fn request_text(req: RequestView) -> Seq<char> {
    request_line(req.req_type, req.endpoint) + "\n"@ + shown_headers(req.headers) + "\n"@
        + shown_body(req.data) + "\n"@
}

/// A parsed request.
pub struct Request {
    req_type: ReqTypes,
    content_type: String,
    endpoint: String,
    data: Vec<u8>,
    headers: Headers,
    id: usize,
}

impl View for Request {
    type V = RequestView;

    closed spec fn view(&self) -> RequestView {
        RequestView {
            req_type: self.req_type,
            content_type: self.content_type@,
            endpoint: self.endpoint@,
            data: self.data@,
            headers: self.headers@,
        }
    }
}

/// `uid::Id::new` and `get`: a number that the process has not handed out
/// before, never zero. The call panics once the counter of the process has
/// run through every `usize`.
#[verifier::external_body]
fn fresh_id() -> (id: usize)
    ensures
        id != 0,
{
    uid::Id::<Request>::new().get()
}

fn method_from(token: &[char]) -> (r: Option<ReqTypes>)
    ensures
        r == method_of(token@),
{
    let get: [char; 3] = ['G', 'E', 'T'];
    let post: [char; 4] = ['P', 'O', 'S', 'T'];
    let options: [char; 7] = ['O', 'P', 'T', 'I', 'O', 'N', 'S'];
    assert(get@ =~= seq!['G', 'E', 'T']);
    assert(post@ =~= seq!['P', 'O', 'S', 'T']);
    assert(options@ =~= seq!['O', 'P', 'T', 'I', 'O', 'N', 'S']);
    if same_chars(token, get.as_slice()) {
        Some(ReqTypes::GET)
    } else if same_chars(token, post.as_slice()) {
        Some(ReqTypes::POST)
    } else if same_chars(token, options.as_slice()) {
        Some(ReqTypes::OPTIONS)
    } else {
        None
    }
}

fn headers_from(lines: &Vec<Vec<char>>) -> (headers: Headers)
    requires
        lines@.len() >= 1,
    ensures
        headers@ == headers_of(views(lines@).skip(1)),
{
    let sep: [char; 2] = [':', ' '];
    assert(sep@ =~= seq![':', ' ']);
    let mut headers = Headers::new();
    let mut n: usize = 1;
    assert(views(lines@).skip(1).take(0) =~= Seq::<Seq<char>>::empty());
    while n < lines.len()
        invariant
            1 <= n <= lines@.len(),
            sep@ == seq![':', ' '],
            headers@ == headers_of(views(lines@).skip(1).take(n - 1)),
        decreases lines@.len() - n,
    {
        let line = lines[n].as_slice();
        proof {
            let all = views(lines@).skip(1);
            assert(all.take(n as int).drop_last() =~= all.take(n - 1));
            assert(all.take(n as int).last() == line@);
        }
        match find_chars(line, sep.as_slice(), 0) {
            Some(i) => {
                let len = line.len();
                proof {
                    lemma_find_from(line@, sep@, 0);
                    assert(i + 2 <= len);
                }
                let key = lower_chars(trim_chars(&line[0..i]).as_slice());
                let value = trim_chars(&line[i + 2..line.len()]);
                assert(line@.subrange(0, i as int) =~= line@.take(i as int));
                assert(line@.subrange(i + 2, line@.len() as int) =~= line@.skip(i + 2));
                headers.insert(string_of(key.as_slice()), string_of(value.as_slice()));
            },
            None => {},
        }
        n += 1;
    }
    assert(views(lines@).skip(1).take(n - 1) =~= views(lines@).skip(1));
    headers
}

impl Request {
    /// Parses the bytes read so far: the header block up to the first CR LF CR
    /// LF, and every byte after it as the body.
    pub fn parse(request: &[u8]) -> (r: Result<Request, ResError>)
        ensures
            match parse_spec(request@) {
                Ok(view) => r is Ok && r->Ok_0@ == view && r->Ok_0.id() != 0,
                Err(e) => r is Err && r->Err_0@ == e,
            },
    {
        let term: [u8; 4] = [13, 10, 13, 10];
        assert(term@ =~= terminator());
        let end = match find_bytes(request, term.as_slice(), 0) {
            Some(i) => i,
            None => {
                return Err(ResError { code: 400, description: "Bad Request" });
            },
        };
        let len = request.len();
        proof {
            lemma_find_from(request@, terminator(), 0);
            assert(end + 4 <= len);
        }
        let head = &request[0..end];
        let body = &request[end + 4..request.len()];
        assert(head@ =~= request@.take(end as int));
        assert(body@ =~= request@.skip(end + 4));
        let text = match utf8_text(head) {
            Some(t) => t,
            None => {
                return Err(ResError { code: 400, description: "Bad Request" });
            },
        };
        let chars = chars_of(text);
        let newline: [char; 1] = ['\n'];
        let space: [char; 1] = [' '];
        assert(newline@ =~= seq!['\n']);
        assert(space@ =~= seq![' ']);
        let lines = split_chars(chars.as_slice(), newline.as_slice());
        assert(views(lines@)[0] == lines@[0]@);
        let first = lines[0].as_slice();
        let width = first.len();
        let line = if width > 0 && first[width - 1] == '\r' {
            assert(first@.subrange(0, width - 1) =~= first@.drop_last());
            &first[0..width - 1]
        } else {
            first
        };
        assert(line@ == first_line(chars@));
        let tokens = split_chars(line, space.as_slice());
        if tokens.len() < 2 {
            return Err(ResError { code: 400, description: "Bad Request" });
        }
        assert(views(tokens@)[0] == tokens@[0]@);
        assert(views(tokens@)[1] == tokens@[1]@);
        let req_type = match method_from(tokens[0].as_slice()) {
            Some(m) => m,
            None => {
                return Err(ResError { code: 501, description: "Not Implemented" });
            },
        };
        let headers = headers_from(&lines);
        let content_type = match headers.get("content-type") {
            Some(v) => v.clone(),
            None => "text/plain".to_owned(),
        };
        let mut data: Vec<u8> = Vec::new();
        data.extend_from_slice(body);
        assert(data@ =~= body_of(request@));
        let endpoint = string_of(tokens[1].as_slice());
        assert(header_text(request@) == Some(chars@));
        assert(request_line_tokens(chars@) == views(tokens@));
        assert(method_of(request_line_tokens(chars@)[0]) == Some(req_type));
        assert(endpoint@ == request_line_tokens(chars@)[1]);
        assert(headers@ == headers_of(split(chars@, seq!['\n']).skip(1)));
        assert(content_type@ == content_type_of(headers@));
        Ok(
            Request {
                req_type,
                content_type,
                endpoint,
                data,
                headers,
                id: fresh_id(),
            },
        )
    }

    /// The identifier that the request was given when it was parsed.
    pub closed spec fn id(&self) -> usize {
        self.id
    }

    /// The method of the request.
    pub fn get_type(&self) -> (m: ReqTypes)
        ensures
            m == self@.req_type,
    {
        self.req_type
    }

    /// The content type of the request.
    pub fn get_content_type(&self) -> (t: &str)
        ensures
            t@ == self@.content_type,
    {
        self.content_type.as_str()
    }

    /// The target path of the request.
    pub fn get_endpoint(&self) -> (e: &str)
        ensures
            e@ == self@.endpoint,
    {
        self.endpoint.as_str()
    }

    /// A copy of the body.
    pub fn get_data(&self) -> (d: Vec<u8>)
        ensures
            d@ == self@.data,
    {
        self.data.clone()
    }

    /// The value of the header of this name, whatever the case that the name
    /// is written in.
    pub fn header(&self, name: &str) -> (r: Option<&String>)
        ensures
            match r {
                Some(v) => lookup(self@.headers, ascii_lower(name@)) == Some(v@),
                None => lookup(self@.headers, ascii_lower(name@)) is None,
            },
    {
        let key = string_of(lower_chars(chars_of(name).as_slice()).as_slice());
        self.headers.get(key.as_str())
    }

    /// A copy of the header map.
    pub fn get_headers(&self) -> (h: Headers)
        ensures
            h@ == self@.headers,
    {
        self.headers.clone()
    }

    /// The request line that the request is shown with: its method, its path
    /// and `HTTP/1.1`.
    pub fn request_line(&self) -> (line: String)
        ensures
            line@ == request_line(self@.req_type, self@.endpoint),
    {
        proof {
            reveal_strlit("GET");
            reveal_strlit("POST");
            reveal_strlit("OPTIONS");
            reveal_strlit(" ");
            reveal_strlit(" HTTP/1.1");
        }
        let mut line = match self.req_type {
            ReqTypes::GET => String::from_str("GET"),
            ReqTypes::POST => String::from_str("POST"),
            ReqTypes::OPTIONS => String::from_str("OPTIONS"),
        };
        assert(line@ =~= method_name(self.req_type));
        line.append(" ");
        line.append(self.endpoint.as_str());
        line.append(" HTTP/1.1");
        assert(line@ =~= request_line(self@.req_type, self@.endpoint));
        line
    }

    /// The text that the request is shown as.
    pub fn to_text(&self) -> (text: String)
        ensures
            text@ == request_text(self@),
    {
        let mut text = self.request_line();
        text.append("\n");
        let ghost start = text@;
        let n = self.headers.len();
        let mut i: usize = 0;
        assert(self@.headers.take(0) =~= Seq::<Entry>::empty());
        while i < n
            invariant
                i <= n == self@.headers.len(),
                text@ == start + shown_headers(self@.headers.take(i as int)),
            decreases n - i,
        {
            let ghost before = text@;
            text.append(self.headers.key_at(i).as_str());
            text.append(": ");
            text.append(self.headers.value_at(i).as_str());
            text.append("\n");
            proof {
                let done = self@.headers.take(i + 1);
                assert(done.drop_last() =~= self@.headers.take(i as int));
                assert(done.last() == self@.headers[i as int]);
                assert(text@ =~= start + shown_headers(done));
            }
            i += 1;
        }
        assert(self@.headers.take(i as int) =~= self@.headers);
        text.append("\n");
        match utf8_text(self.data.as_slice()) {
            Some(body) => {
                text.append(body);
            },
            None => {
                text.append("[Not utf8]");
            },
        }
        text.append("\n");
        text
    }

    /// The identifier of the request.
    pub fn get_id(&self) -> (id: usize)
        ensures
            id == self.id(),
    {
        self.id
    }
}

impl Clone for Request {
    fn clone(&self) -> (r: Self)
        ensures
            r@ == self@,
            r.id() == self.id(),
    {
        Request {
            req_type: self.req_type,
            content_type: self.content_type.clone(),
            endpoint: self.endpoint.clone(),
            data: self.data.clone(),
            headers: self.headers.clone(),
            id: self.id,
        }
    }
}

} // verus!
