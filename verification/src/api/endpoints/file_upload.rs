//! Files that are handed in and fetched again: which requests are taken,
//! where a file goes and what is answered. The files themselves are read
//! and written by the caller.

use crate::json::{fields_view, names_view};
use crate::request::{Request, RequestView};
use crate::response::{basic_response, Response, ResponseView};
use crate::text::{
    chars_of, content_of, decimal, decimal_chars, ends_with, has_suffix, last_segment,
    last_segment_chars, maybe_text, number_of, parse_number, same_chars, split, split_chars,
    string_of, utf8_text, views,
};
use std::collections::HashMap;
use vstd::prelude::*;
use vstd::string::StringExecFns;
use vstd::utf8::{decode_utf8, encode_utf8, valid_utf8};

verus! {

/// The text fields of a JSON document as the crate `json` reads it: for
/// each name the text that the document, taken as an object, holds under
/// it, and `None` where it holds no text there. There are as many entries as
/// names. The whole is `None` where the text is no JSON document.
pub uninterp spec fn parsed_fields(doc: Seq<char>, names: Seq<Seq<char>>) -> Option<
    Seq<Option<Seq<char>>>,
>;

/// The JSON object that the crate `json` writes for one number under one
/// key: its compact text, or `None` where the crate reports an error.
pub uninterp spec fn number_document(key: Seq<char>, number: u16) -> Option<Seq<char>>;

/// `json::JsonValue::new_object`, `JsonValue::insert` and `JsonValue::dump`:
/// the text of the JSON object that holds the number under the key.
#[verifier::external_body]
fn write_number(key: &str, number: u16) -> (r: Option<String>)
    ensures
        match r {
            Some(text) => number_document(key@, number) == Some(text@),
            None => number_document(key@, number) is None,
        },
{
    let mut object = json::JsonValue::new_object();
    match object.insert(key, number) {
        Ok(_) => Some(object.dump()),
        Err(_) => None,
    }
}

/// The longest body, in bytes, that is read as a JSON document.
pub const UPLOAD_LIMIT: usize = 32767;

/// `json::parse`, then for each name the index by a key and
/// `JsonValue::as_str`: the texts that the document holds under the names.
/// The parser counts the digits of a fraction in sixteen bits and panics on
/// more than 32,768 of them where overflow is checked, so the text is at
/// most 32,767 bytes long.
#[verifier::external_body]
fn parse_fields(doc: &str, names: &[&str]) -> (r: Option<Vec<Option<String>>>)
    requires
        encode_utf8(doc@).len() <= 32767,
    ensures
        match r {
            Some(fields) => parsed_fields(doc@, names_view(names@)) == Some(
                fields_view(fields@),
            ) && fields@.len() == names@.len(),
            None => parsed_fields(doc@, names_view(names@)) is None,
        },
{
    match json::parse(doc) {
        Ok(value) => Some(
            names.iter().map(|name| value[*name].as_str().map(|text| text.to_string())).collect(),
        ),
        Err(_) => None,
    }
}

/// A store of files, each known by a number.
pub struct FileUpload<'a> {
    pub endpoint: &'a str,
    /// The name of each file, under its number.
    pub files: HashMap<u16, String>,
}

/// What becomes of a request to fetch a file.
pub enum DownloadPlan {
    /// It is answered with this.
    Reply(Response),
    /// The file at this path is to be read, and `FileUpload::download`
    /// answers.
    Read(String),
}

/// What `DownloadPlan` is.
pub enum DownloadView {
    Reply(ResponseView),
    Read(Seq<char>),
}

impl View for DownloadPlan {
    type V = DownloadView;

    open spec fn view(&self) -> DownloadView {
        match self {
            DownloadPlan::Reply(res) => DownloadView::Reply(res@),
            DownloadPlan::Read(path) => DownloadView::Read(path@),
        }
    }
}

/// What becomes of a request to hand in a file.
pub enum UploadPlan {
    /// It is answered with this.
    Reply(Response),
    /// It gets no answer from this handler.
    Decline,
    /// A new file is to be made at `path` and to be given `content`, where
    /// there is any; `FileUpload::upload` answers, with the number that the
    /// file is then known by.
    Create { path: String, content: Option<String> },
}

/// What `UploadPlan` is.
pub enum UploadView {
    Reply(ResponseView),
    Decline,
    Create { path: Seq<char>, content: Option<Seq<char>> },
}

impl View for UploadPlan {
    type V = UploadView;

    open spec fn view(&self) -> UploadView {
        match self {
            UploadPlan::Reply(res) => UploadView::Reply(res@),
            UploadPlan::Decline => UploadView::Decline,
            UploadPlan::Create { path, content } => UploadView::Create {
                path: path@,
                content: maybe_text(*content),
            },
        }
    }
}

/// The names of the files: the text of each name, under its number.
pub open spec fn names_of(files: Map<u16, String>) -> Map<u16, Seq<char>> {
    files.map_values(|name: String| name@)
}

/// What becomes of a request to fetch a file. Its path needs a segment
/// `download` and, as its last segment, the number of a file of the store.
pub open spec fn download_plan(files: Map<u16, Seq<char>>, req: RequestView) -> DownloadView {
    if !split(req.endpoint, seq!['/']).contains("download"@) {
        DownloadView::Reply(basic_response(400, "Bad Request"@))
    } else {
        match number_of(encode_utf8(last_segment(req.endpoint)), 65535) {
            None => DownloadView::Reply(basic_response(400, "Bad Request"@)),
            Some(id) => if files.contains_key(id as u16) {
                DownloadView::Read("files/"@ + files[id as u16])
            } else {
                DownloadView::Reply(basic_response(404, "Not Found"@))
            },
        }
    }
}

/// The answer to a request to fetch a file, given what reading the file
/// gave.
pub open spec fn download_response(file: Option<Seq<u8>>) -> ResponseView {
    match file {
        Some(content) => ResponseView {
            code: 200,
            content_type: "text/plain"@,
            data: content,
            headers: Seq::empty(),
        },
        None => basic_response(500, "Internal Server Error"@),
    }
}

/// The names of the fields of a file that is handed in.
pub open spec fn upload_fields() -> Seq<Seq<char>> {
    seq!["filename"@, "data"@]
}

/// What becomes of a request to hand in a file. Its path ends in `upload`,
/// and its body is a JSON document of at most `UPLOAD_LIMIT` bytes with the
/// name of the file and its content. The file goes below `files`, under the
/// identifier of the request and its name.
pub open spec fn upload_plan(req: RequestView, request_id: usize) -> UploadView {
    if !ends_with(req.endpoint, "upload"@) {
        UploadView::Reply(basic_response(400, "Bad Request"@))
    } else if req.data.len() == 0 {
        UploadView::Reply(basic_response(400, "Bad Request (No data)"@))
    } else if req.data.len() > UPLOAD_LIMIT {
        UploadView::Reply(basic_response(400, "Bad Request"@))
    } else if !valid_utf8(req.data) {
        UploadView::Reply(basic_response(400, "Bad Request"@))
    } else {
        match parsed_fields(decode_utf8(req.data), upload_fields()) {
            None => UploadView::Reply(basic_response(400, "Bad Request"@)),
            Some(fields) => match fields[0] {
                None => UploadView::Decline,
                Some(name) => UploadView::Create {
                    path: "files/"@ + decimal(request_id as nat) + "-"@ + name,
                    content: fields[1],
                },
            },
        }
    }
}

/// The answer to a file that was handed in: the JSON object with its
/// number under `id`, once the file was made and had a content to take.
/// Without either there is no answer. Where the object cannot be written,
/// the answer is status 500.
pub open spec fn upload_response(id: u16, has_content: bool, created: bool) -> Option<
    ResponseView,
> {
    if created && has_content {
        match number_document("id"@, id) {
            Some(text) => Some(
                ResponseView {
                    code: 200,
                    content_type: "text/json"@,
                    data: encode_utf8(text),
                    headers: Seq::empty(),
                },
            ),
            None => Some(basic_response(500, "Internal Server Error"@)),
        }
    } else {
        None
    }
}

fn has_segment(path: &Vec<char>, segment: &str) -> (r: bool)
    ensures
        r == split(path@, seq!['/']).contains(segment@),
{
    let slash: [char; 1] = ['/'];
    assert(slash@ =~= seq!['/']);
    let segments = split_chars(path.as_slice(), slash.as_slice());
    let wanted = chars_of(segment);
    let mut i: usize = 0;
    while i < segments.len()
        invariant
            i <= segments@.len(),
            wanted@ == segment@,
            views(segments@) == split(path@, seq!['/']),
            forall|j: int| 0 <= j < i ==> views(segments@)[j] != wanted@,
        decreases segments@.len() - i,
    {
        if same_chars(segments[i].as_slice(), wanted.as_slice()) {
            assert(views(segments@)[i as int] == wanted@);
            return true;
        }
        i += 1;
    }
    false
}

impl<'a> FileUpload<'a> {
    /// The prefix of the paths that the store owns.
    pub fn get_endpoint(&self) -> (r: &str)
        ensures
            r@ == self.endpoint@,
    {
        self.endpoint
    }

    /// What becomes of a `GET`.
    pub fn handle_get(&self, req: &Request) -> (r: DownloadPlan)
        ensures
            r@ == download_plan(names_of(self.files@), req@),
    {
        broadcast use vstd::std_specs::hash::group_hash_axioms;

        let path = chars_of(req.get_endpoint());
        if !has_segment(&path, "download") {
            return DownloadPlan::Reply(Response::basic(400, "Bad Request"));
        }
        let last = last_segment_chars(path.as_slice());
        let numeral = string_of(last.as_slice());
        let id = match parse_number(numeral.as_str().as_bytes(), 65535) {
            Some(n) => n as u16,
            None => {
                return DownloadPlan::Reply(Response::basic(400, "Bad Request"));
            },
        };
        match self.files.get(&id) {
            Some(name) => {
                let mut file = String::from_str("files/");
                file.append(name.as_str());
                DownloadPlan::Read(file)
            },
            None => DownloadPlan::Reply(Response::basic(404, "Not Found")),
        }
    }

    /// The answer to a `GET`, given what reading the file gave: its
    /// content, or `None` where it could not be read.
    pub fn download(file: Option<Vec<u8>>) -> (r: Response)
        ensures
            r@ == download_response(content_of(file)),
    {
        match file {
            Some(content) => {
                let mut res = Response::new(200, "text/plain");
                res.set_data(content);
                res
            },
            None => Response::basic(500, "Internal Server Error"),
        }
    }

    /// What becomes of a `POST`.
    pub fn handle_post(&self, req: &Request) -> (r: UploadPlan)
        ensures
            r@ == upload_plan(req@, req.id()),
    {
        let path = chars_of(req.get_endpoint());
        let suffix = chars_of("upload");
        let ends = has_suffix(path.as_slice(), suffix.as_slice());
        if !ends {
            return UploadPlan::Reply(Response::basic(400, "Bad Request"));
        }
        let body = req.get_data();
        if body.len() == 0 {
            return UploadPlan::Reply(Response::basic(400, "Bad Request (No data)"));
        }
        if body.len() > UPLOAD_LIMIT {
            return UploadPlan::Reply(Response::basic(400, "Bad Request"));
        }
        let text = match utf8_text(body.as_slice()) {
            Some(t) => t,
            None => {
                return UploadPlan::Reply(Response::basic(400, "Bad Request"));
            },
        };
        proof {
            vstd::utf8::decode_utf8_encode_utf8(body@);
        }
        let names: [&str; 2] = ["filename", "data"];
        assert(names_view(names@) =~= upload_fields());
        let mut fields = match parse_fields(text, names.as_slice()) {
            Some(f) => f,
            None => {
                return UploadPlan::Reply(Response::basic(400, "Bad Request"));
            },
        };
        let ghost all = fields_view(fields@);
        assert(all[0] == maybe_text(fields@[0]));
        assert(all[1] == maybe_text(fields@[1]));
        let content = fields.pop().unwrap();
        let name = fields.pop().unwrap();
        match name {
            None => UploadPlan::Decline,
            Some(name) => {
                let mut file = String::from_str("files/");
                file.append(string_of(decimal_chars(req.get_id() as u64).as_slice()).as_str());
                file.append("-");
                file.append(name.as_str());
                UploadPlan::Create { path: file, content }
            },
        }
    }

    /// The answer to a `POST`, once its file was made, or could not be
    /// made. `id` is the number that the file is known by from now on; the
    /// caller draws it.
    pub fn upload(id: u16, has_content: bool, created: bool) -> (r: Option<Response>)
        ensures
            match upload_response(id, has_content, created) {
                Some(view) => r is Some && r->Some_0@ == view,
                None => r is None,
            },
    {
        if !(created && has_content) {
            return None;
        }
        match write_number("id", id) {
            Some(text) => {
                let mut res = Response::new(200, "text/json");
                res.set_data_as_slice(text.as_str().as_bytes());
                Some(res)
            },
            None => Some(Response::basic(500, "Internal Server Error")),
        }
    }
}

} // verus!
