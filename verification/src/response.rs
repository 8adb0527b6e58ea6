//! Responses: how one is built, and the bytes that it is written as.

use crate::headers::{
    distinct_ignoring_case, distinct_keys, lemma_lower_keys_distinct, lemma_position,
    lemma_with_entry_lower, lookup, lower_keys, position, with_entry, Entry, Headers,
};
use crate::text::{
    ascii_lower, chars_of, decimal, decimal_chars, lemma_ascii_lower_twice, lower_chars, string_of,
};
use vstd::prelude::*;
use vstd::string::StringExecFns;
use vstd::utf8::encode_utf8;

verus! {

/// What a response is.
pub struct ResponseView {
    pub code: u16,
    pub content_type: Seq<char>,
    pub data: Seq<u8>,
    pub headers: Seq<Entry>,
}

/// A response: status code, content type, body and headers. The keys of
/// its headers are kept in lower case, so that a header is there once
/// however its name was written.
pub struct Response {
    code: u16,
    content_type: String,
    data: Vec<u8>,
    headers: Headers,
}

impl View for Response {
    type V = ResponseView;

    closed spec fn view(&self) -> ResponseView {
        ResponseView {
            code: self.code,
            content_type: self.content_type@,
            data: self.data@,
            headers: self.headers@,
        }
    }
}

/// The text of the page that `Response::basic` answers with.
pub open spec fn basic_page(code: u16, description: Seq<char>) -> Seq<char> {
    "\n      <html>\n        <body>\n          <h1>"@ + decimal(code as nat) + " "@ + description
        + "</h1>\n        <body>\n      </html>\n    "@
}

/// The response of `Response::basic`.
pub open spec fn basic_response(code: u16, description: Seq<char>) -> ResponseView {
    ResponseView {
        code,
        content_type: "text/html"@,
        data: encode_utf8(basic_page(code, description)),
        headers: Seq::empty(),
    }
}

/// The response that carries a JSON text.
pub open spec fn json_response(code: u16, text: Seq<char>) -> ResponseView {
    ResponseView {
        code,
        content_type: "application/json"@,
        data: encode_utf8(text),
        headers: Seq::empty(),
    }
}

/// `serde_json::Value`: a JSON value. Nothing is known of what it holds
/// but what `serde_json` makes of it when it writes it as text.
#[verifier::external_type_specification]
#[verifier::external_body]
pub struct ExJsonValue(serde_json::Value);

/// `serde_json::Error`: why a JSON value could not be written.
#[verifier::external_type_specification]
#[verifier::external_body]
pub struct ExJsonError(serde_json::Error);

/// What `serde_json` makes of a JSON value when it writes it as text: the
/// compact JSON text, or `None` where it reports an error.
pub uninterp spec fn json_text_of(json: serde_json::Value) -> Option<Seq<char>>;

/// `serde_json::to_string`: the compact JSON text of the value, or the
/// error that the call reports. Which of the two it is depends on the value
/// alone.
#[verifier::external_body]
fn json_text(json: &serde_json::Value) -> (r: Result<String, serde_json::Error>)
    ensures
        match r {
            Ok(text) => json_text_of(*json) == Some(text@),
            Err(_) => json_text_of(*json) is None,
        },
{
    serde_json::to_string(json)
}

impl Response {
    #[verifier::type_invariant]
    spec fn keys_are_lower(self) -> bool {
        lower_keys(self.headers@)
    }

    /// A response with the given status and content type, without body or
    /// headers.
    pub fn new(code: u16, content_type: &str) -> (r: Self)
        ensures
            r@ == (ResponseView {
                code,
                content_type: content_type@,
                data: Seq::empty(),
                headers: Seq::empty(),
            }),
    {
        Response {
            code,
            content_type: content_type.to_owned(),
            data: Vec::new(),
            headers: Headers::new(),
        }
    }

    /// Replaces the body.
    pub fn set_data(&mut self, data: Vec<u8>)
        ensures
            final(self)@ == (ResponseView { data: data@, ..old(self)@ }),
    {
        proof {
            use_type_invariant(&*self);
        }
        self.data = data;
    }

    /// A copy of the body.
    pub fn get_data(&self) -> (d: Vec<u8>)
        ensures
            d@ == self@.data,
    {
        self.data.clone()
    }

    /// Replaces the body by a copy of the slice.
    pub fn set_data_as_slice(&mut self, data: &[u8])
        ensures
            final(self)@ == (ResponseView { data: data@, ..old(self)@ }),
    {
        let mut copy: Vec<u8> = Vec::new();
        copy.extend_from_slice(data);
        assert(copy@ =~= data@);
        proof {
            use_type_invariant(&*self);
        }
        self.data = copy;
    }

    /// Gives the header `k` the value `v`. The name of a header counts
    /// whatever its case: it is kept in lower case, and a header of that
    /// name that is there has its value replaced.
    pub fn add_header(&mut self, k: String, v: &str)
        ensures
            final(self)@ == (ResponseView {
                headers: with_entry(old(self)@.headers, ascii_lower(k@), v@),
                ..old(self)@
            }),
            lower_keys(final(self)@.headers),
    {
        let key = string_of(lower_chars(chars_of(k.as_str()).as_slice()).as_slice());
        proof {
            use_type_invariant(&*self);
            lemma_ascii_lower_twice(k@);
            lemma_with_entry_lower(self.headers@, key@, v@);
        }
        let mut headers = Headers::new();
        core::mem::swap(&mut self.headers, &mut headers);
        headers.insert(key, v.to_owned());
        core::mem::swap(&mut self.headers, &mut headers);
    }

    /// Replaces the status code.
    pub fn set_code(&mut self, code: u16)
        ensures
            final(self)@ == (ResponseView { code, ..old(self)@ }),
    {
        proof {
            use_type_invariant(&*self);
        }
        self.code = code;
    }

    /// Replaces the content type.
    pub fn set_content_type(&mut self, content_type: String)
        ensures
            final(self)@ == (ResponseView { content_type: content_type@, ..old(self)@ }),
    {
        proof {
            use_type_invariant(&*self);
        }
        self.content_type = content_type;
    }

    /// The status code.
    pub fn get_code(&self) -> (code: u16)
        ensures
            code == self@.code,
    {
        self.code
    }

    /// A copy of the content type.
    pub fn get_content_type(&self) -> (t: String)
        ensures
            t@ == self@.content_type,
    {
        self.content_type.clone()
    }

    /// The value of the header of this name, whatever the case that the name
    /// is written in.
    pub fn header(&self, name: &str) -> (r: Option<&String>)
        ensures
            match r {
                Some(v) => lookup(self@.headers, ascii_lower(name@)) == Some(v@),
                None => lookup(self@.headers, ascii_lower(name@)) is None,
            },
    {
        let key = string_of(lower_chars(chars_of(name).as_slice()).as_slice());
        self.headers.get(key.as_str())
    }

    /// A copy of the headers. No key is there twice, and every key is in
    /// lower case.
    pub fn get_headers(&self) -> (h: Headers)
        ensures
            h@ == self@.headers,
            distinct_keys(self@.headers),
            lower_keys(self@.headers),
    {
        proof {
            use_type_invariant(self);
        }
        let _ = self.headers.len();
        self.headers.clone()
    }

    /// A small HTML page that shows the status code and a description.
    pub fn basic(code: u16, description: &str) -> (r: Self)
        ensures
            r@ == basic_response(code, description@),
    {
        let mut page = String::from_str("\n      <html>\n        <body>\n          <h1>");
        let number = string_of(decimal_chars(code as u64).as_slice());
        page.append(number.as_str());
        page.append(" ");
        page.append(description);
        page.append("</h1>\n        <body>\n      </html>\n    ");
        let mut res = Self::new(code, "text/html");
        res.set_data_as_slice(page.as_str().as_bytes());
        res
    }
}

impl Response {
    /// A response whose body is the given JSON text.
    pub fn json(code: u16, text: &str) -> (r: Self)
        ensures
            r@ == json_response(code, text@),
    {
        let mut res = Self::new(code, "application/json");
        res.set_data_as_slice(text.as_bytes());
        res
    }

    /// A response whose body is the text of the JSON value. It fails
    /// exactly where `serde_json` cannot write the value as text, with the
    /// error that `serde_json` reports.
    pub fn from_json(code: u16, json: serde_json::Value) -> (r: Result<Self, serde_json::Error>)
        ensures
            match json_text_of(json) {
                Some(text) => r is Ok && r->Ok_0@ == json_response(code, text),
                None => r is Err,
            },
    {
        match json_text(&json) {
            Ok(text) => Ok(Self::json(code, text.as_str())),
            Err(e) => Err(e),
        }
    }
}

/// One header as it is written: key, colon, space, value, CR LF.
pub open spec fn header_line(e: Entry) -> Seq<char> {
    e.0 + ": "@ + e.1 + "\r\n"@
}

/// The headers as they are written, one line each, in their order.
pub open spec fn header_lines(h: Seq<Entry>) -> Seq<char>
    decreases h.len(),
{
    if h.len() == 0 {
        Seq::empty()
    } else {
        header_lines(h.drop_last()) + header_line(h.last())
    }
}

/// The headers that are written for a response: its own, then
/// `content-type` with its content type and `content-length` with the length
/// of its body, each only where the response has no header of that name.
pub open spec fn wire_headers(res: ResponseView) -> Seq<Entry> {
    let own = res.headers;
    let typed = if lookup(own, "content-type"@) is Some {
        own
    } else {
        own.push(("content-type"@, res.content_type))
    };
    if lookup(own, "content-length"@) is Some {
        typed
    } else {
        typed.push(("content-length"@, decimal(res.data.len())))
    }
}

/// The status line. The reason phrase is `OK` whatever the code.
pub open spec fn status_line(code: u16) -> Seq<char> {
    "HTTP/1.1 "@ + decimal(code as nat) + " OK\r\n"@
}

/// Everything that is written before the body.
pub open spec fn wire_head(res: ResponseView) -> Seq<char> {
    status_line(res.code) + header_lines(wire_headers(res)) + "\r\n"@
}

/// The bytes that a response is written as.
pub open spec fn wire_bytes(res: ResponseView) -> Seq<u8> {
    encode_utf8(wire_head(res)) + res.data
}

/// What is written for a response whose keys are in lower case, none of
/// them twice, names each header once, whatever the case of a name is taken
/// to be: `content-type` and `content-length` are there, and no two lines
/// have the same name.
pub proof fn lemma_wire_headers_once(res: ResponseView)
    requires
        distinct_keys(res.headers),
        lower_keys(res.headers),
    ensures
        lookup(wire_headers(res), "content-type"@) is Some,
        lookup(wire_headers(res), "content-length"@) is Some,
        lower_keys(wire_headers(res)),
        distinct_ignoring_case(wire_headers(res)),
{
    lemma_wire_headers_complete(res);
    reveal_strlit("content-type");
    reveal_strlit("content-length");
    assert(ascii_lower("content-type"@) =~= "content-type"@);
    assert(ascii_lower("content-length"@) =~= "content-length"@);
    lemma_lower_keys_distinct(wire_headers(res));
}

/// Whatever the response, what is written names its content type and its
/// content length, and no header twice where the response held none twice.
pub proof fn lemma_wire_headers_complete(res: ResponseView)
    ensures
        lookup(wire_headers(res), "content-type"@) is Some,
        lookup(wire_headers(res), "content-length"@) is Some,
        distinct_keys(res.headers) ==> distinct_keys(wire_headers(res)),
{
    reveal_strlit("content-type");
    reveal_strlit("content-length");
    let ct = "content-type"@;
    let cl = "content-length"@;
    assert(ct.len() != cl.len());
    let own = res.headers;
    let typed = if lookup(own, ct) is Some {
        own
    } else {
        own.push((ct, res.content_type))
    };
    let all = wire_headers(res);
    lemma_position(own, ct);
    lemma_position(own, cl);
    lemma_position(typed, ct);
    lemma_position(typed, cl);
    lemma_position(all, ct);
    lemma_position(all, cl);
    if lookup(own, ct) is None {
        assert(typed[own.len() as int].0 == ct);
    }
    assert(position(typed, ct) is Some);
    let i = position(typed, ct)->Some_0;
    assert(all[i] == typed[i]);
    if lookup(own, cl) is None {
        assert(all[typed.len() as int].0 == cl);
    } else {
        let j = position(own, cl)->Some_0;
        assert(all[j] == own[j]);
    }
}

fn append_line(head: &mut String, key: &str, value: &str)
    ensures
        final(head)@ == old(head)@ + header_line((key@, value@)),
{
    head.append(key);
    head.append(": ");
    head.append(value);
    head.append("\r\n");
    assert(head@ =~= old(head)@ + header_line((key@, value@)));
}

/// The bytes to write for a response: the status line, its headers,
/// `content-type` and `content-length` where it has none, an empty line, and
/// its body.
pub fn respond(res: Response) -> (bytes: Vec<u8>)
    ensures
        bytes@ == wire_bytes(res@),
        lookup(wire_headers(res@), "content-type"@) is Some,
        lookup(wire_headers(res@), "content-length"@) is Some,
        distinct_ignoring_case(wire_headers(res@)),
{
    let _ = res.get_headers();
    proof {
        lemma_wire_headers_once(res@);
    }
    let mut head = String::from_str("HTTP/1.1 ");
    let number = string_of(decimal_chars(res.code as u64).as_slice());
    head.append(number.as_str());
    head.append(" OK\r\n");
    let n = res.headers.len();
    let mut i: usize = 0;
    assert(res@.headers.take(0) =~= Seq::<Entry>::empty());
    while i < n
        invariant
            i <= n == res@.headers.len(),
            head@ == status_line(res@.code) + header_lines(res@.headers.take(i as int)),
        decreases n - i,
    {
        let ghost before = head@;
        append_line(&mut head, res.headers.key_at(i).as_str(), res.headers.value_at(i).as_str());
        proof {
            let done = res@.headers.take(i + 1);
            assert(done.drop_last() =~= res@.headers.take(i as int));
            assert(done.last() == res@.headers[i as int]);
            assert(head@ =~= status_line(res@.code) + header_lines(done));
        }
        i += 1;
    }
    assert(res@.headers.take(i as int) =~= res@.headers);
    let ghost own = res@.headers;
    let ghost typed = own;
    if !res.headers.contains_key("content-type") {
        append_line(&mut head, "content-type", res.content_type.as_str());
        proof {
            typed = own.push(("content-type"@, res@.content_type));
            assert(typed.drop_last() =~= own);
            assert(head@ =~= status_line(res@.code) + header_lines(typed));
        }
    }
    if !res.headers.contains_key("content-length") {
        let length = string_of(decimal_chars(res.data.len() as u64).as_slice());
        append_line(&mut head, "content-length", length.as_str());
        proof {
            let all = typed.push(("content-length"@, decimal(res@.data.len())));
            assert(all.drop_last() =~= typed);
            assert(head@ =~= status_line(res@.code) + header_lines(all));
        }
    }
    head.append("\r\n");
    let mut bytes: Vec<u8> = Vec::new();
    bytes.extend_from_slice(head.as_str().as_bytes());
    bytes.extend_from_slice(res.data.as_slice());
    assert(bytes@ =~= wire_bytes(res@));
    bytes
}

impl Clone for Response {
    fn clone(&self) -> (r: Self)
        ensures
            r@ == self@,
    {
        proof {
            use_type_invariant(self);
        }
        Response {
            code: self.code,
            content_type: self.content_type.clone(),
            data: self.data.clone(),
            headers: self.headers.clone(),
        }
    }
}

} // verus!
