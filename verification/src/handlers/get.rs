//! Static files: which file a path stands for, and the response that the
//! file, or its absence, gives.

use crate::request::{ReqTypes, Request, RequestView};
use crate::response::{Response, ResponseView};
use crate::server::WebrsHttp;
use crate::text::{
    chars_of, content_of, ends_with, has_suffix, last_index_of, last_segment, last_segment_chars,
    lemma_rfind_char, maybe_text, rfind_char, string_of,
};
use vstd::prelude::*;
use vstd::string::StringExecFns;
use vstd::utf8::encode_utf8;

verus! {

/// The path with `index` added where it ends in a slash.
pub open spec fn with_index(endpoint: Seq<char>) -> Seq<char> {
    if ends_with(endpoint, seq!['/']) {
        endpoint + "index"@
    } else {
        endpoint
    }
}

/// The extension of a path: what follows the last dot of its last segment.
/// A path whose last segment has no dot has none.
pub open spec fn extension(path: Seq<char>) -> Option<Seq<char>> {
    match rfind_char(last_segment(path), '.') {
        Some(i) => Some(last_segment(path).skip(i + 1)),
        None => None,
    }
}

/// The name of the file that a path stands for, below the content
/// directory: the path itself, after `index` where it ends in a slash, and
/// with the extension `html` where it has none of its own.
pub open spec fn file_name(endpoint: Seq<char>) -> Seq<char> {
    if extension(with_index(endpoint)) is Some {
        with_index(endpoint)
    } else {
        with_index(endpoint) + ".html"@
    }
}

/// Where the file of a path is looked for.
pub open spec fn file_path(content_dir: Seq<char>, endpoint: Seq<char>) -> Seq<char> {
    "./"@ + content_dir + "/"@ + file_name(endpoint)
}

/// The media type that `mime_guess` gives first for a path, without its
/// parameters; `None` where it knows none for the extension of the path.
pub uninterp spec fn guessed_mime(path: Seq<char>) -> Option<Seq<char>>;

/// `mime_guess::from_path`, `MimeGuess::first` and `Mime::essence_str`: the
/// first media type that the table of the crate holds for the extension of
/// the path, as `type/subtype`. Nothing is read from disk. `first` parses an
/// entry of that table, and would panic on one that is no media type; the
/// crate keeps none.
#[verifier::external_body]
fn guess_mime(path: &str) -> (r: Option<String>)
    ensures
        match r {
            Some(m) => guessed_mime(path@) == Some(m@),
            None => guessed_mime(path@) is None,
        },
{
    match mime_guess::from_path(path).first() {
        Some(m) => Some(m.essence_str().to_string()),
        None => None,
    }
}

/// The content type that a file is served with, given the guess of its
/// media type: the guess, and `text/plain` where there is none.
pub open spec fn content_type_of(guessed: Option<Seq<char>>) -> Seq<char> {
    match guessed {
        Some(m) => m,
        None => "text/plain"@,
    }
}

/// The page that answers for a file that cannot be read.
pub open spec fn not_found_page() -> Seq<char> {
    "\n      <html>\n        <body>\n          <h1>404 Not found</h1>\n        </body>\n      </html>"@
}

/// The response for a file, given what reading it gave and the guess of its
/// media type: the content with status 200 and the guessed type, or the
/// not-found page with status 404 where the file could not be read.
pub open spec fn file_response(file: Option<Seq<u8>>, guessed: Option<Seq<char>>) -> ResponseView {
    match file {
        Some(content) => ResponseView {
            code: 200,
            content_type: content_type_of(guessed),
            data: content,
            headers: Seq::empty(),
        },
        None => ResponseView {
            code: 404,
            content_type: "text/html"@,
            data: encode_utf8(not_found_page()),
            headers: Seq::empty(),
        },
    }
}

/// The response for a path, given what reading its file gave. The media
/// type is guessed from the name of the file.
pub open spec fn static_response(endpoint: Seq<char>, file: Option<Seq<u8>>) -> ResponseView {
    file_response(file, guessed_mime(file_name(endpoint)))
}

/// A path that ends in a slash stands for the file `index.html` below it. Its
/// file is served with status 200 and, where `text/html` is the guess for
/// that name, as `text/html`; without the file the answer is the not-found
/// page with status 404.
pub proof fn lemma_index_file(endpoint: Seq<char>, content: Seq<u8>)
    requires
        ends_with(endpoint, seq!['/']),
    ensures
        file_name(endpoint) == endpoint + "index.html"@,
        guessed_mime(endpoint + "index.html"@) == Some("text/html"@) ==> static_response(
            endpoint,
            Some(content),
        ) == (ResponseView {
            code: 200,
            content_type: "text/html"@,
            data: content,
            headers: Seq::empty(),
        }),
        static_response(endpoint, None) == (ResponseView {
            code: 404,
            content_type: "text/html"@,
            data: encode_utf8(not_found_page()),
            headers: Seq::empty(),
        }),
{
    reveal_strlit("index");
    reveal_strlit(".html");
    reveal_strlit("index.html");
    let n = endpoint.len() as int;
    let path = endpoint + "index"@;
    assert(endpoint.subrange(n - 1, n)[0] == '/');
    assert(path[n - 1] == '/');
    lemma_rfind_char(path, '/');
    assert(rfind_char(path, '/') == Some(n - 1)) by {
        let i = rfind_char(path, '/')->Some_0;
        if i > n - 1 {
            assert(path[i] == "index"@[i - n]);
        }
    }
    assert(last_segment(path) =~= "index"@);
    lemma_rfind_char("index"@, '.');
    assert(rfind_char("index"@, '.') is None);
    assert(path + ".html"@ =~= endpoint + "index.html"@);
}

/// The name of the file that a path stands for.
pub fn resolve_file_name(endpoint: &str) -> (name: String)
    ensures
        name@ == file_name(endpoint@),
{
    let mut path = chars_of(endpoint);
    let slash: [char; 1] = ['/'];
    assert(slash@ =~= seq!['/']);
    if has_suffix(path.as_slice(), slash.as_slice()) {
        let mut index = chars_of("index");
        path.append(&mut index);
    }
    assert(path@ == with_index(endpoint@));
    let last = last_segment_chars(path.as_slice());
    if last_index_of(last.as_slice(), '.').is_none() {
        let mut html = chars_of(".html");
        path.append(&mut html);
    }
    string_of(path.as_slice())
}

/// Where the file that answers a request is to be read from.
pub fn resolve_file_path(server: &WebrsHttp, req: &Request) -> (path: String)
    ensures
        path@ == file_path(server@.content_dir, req@.endpoint),
{
    let mut path = String::from_str("./");
    path.append(server.content_dir());
    path.append("/");
    path.append(resolve_file_name(req.get_endpoint()).as_str());
    path
}

/// What `handle_get` answers.
pub open spec fn get_response(req: RequestView, file: Option<Seq<u8>>) -> Option<ResponseView> {
    if req.req_type == ReqTypes::GET {
        Some(static_response(req.endpoint, file))
    } else {
        None
    }
}

/// Answers a `GET` for a static file. `file` is what reading the file at
/// `resolve_file_path` gave: its content, or `None` where it could not be
/// read. A request with another method gets no answer here.
pub fn handle_get(req: &Request, file: Option<Vec<u8>>) -> (r: Option<Response>)
    ensures
        match get_response(req@, content_of(file)) {
            Some(view) => r is Some && r->Some_0@ == view,
            None => r is None,
        },
{
    match req.get_type() {
        ReqTypes::GET => {},
        _ => {
            return None;
        },
    }
    let name = resolve_file_name(req.get_endpoint());
    let guessed = guess_mime(name.as_str());
    Some(static_file_response(file, guessed))
}

/// The response for a file, given what reading it gave and the guess of its
/// media type. `file` is the content of the file, or `None` where it could
/// not be read; `guessed` is the media type that was guessed from its
/// name, or `None` without a guess.
pub fn static_file_response(file: Option<Vec<u8>>, guessed: Option<String>) -> (r: Response)
    ensures
        r@ == file_response(content_of(file), maybe_text(guessed)),
{
    let mut res = Response::new(200, "text/html");
    match file {
        Some(content) => {
            let mime = match guessed {
                Some(m) => m,
                None => String::from_str("text/plain"),
            };
            res.set_code(200);
            res.set_content_type(mime);
            res.set_data(content);
        },
        None => {
            let page =
                "\n      <html>\n        <body>\n          <h1>404 Not found</h1>\n        </body>\n      </html>";
            res.set_code(404);
            res.set_data_as_slice(page.as_bytes());
        },
    }
    res
}

} // verus!
