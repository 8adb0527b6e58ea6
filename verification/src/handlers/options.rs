//! The answer to `OPTIONS`.

use crate::headers::Entry;
use crate::request::Request;
use crate::response::{Response, ResponseView};
use vstd::prelude::*;

verus! {

/// The answer to `OPTIONS`: status 204 and the methods that are allowed.
pub open spec fn options_response() -> ResponseView {
    ResponseView {
        code: 204,
        content_type: "No Content"@,
        data: Seq::empty(),
        headers: seq![("allow"@, "GET, POST, OPTIONS"@)],
    }
}

/// Answers `OPTIONS`, whatever the request asks about.
pub fn handle_options(_req: &Request) -> (r: Option<Response>)
    ensures
        r is Some,
        r->Some_0@ == options_response(),
{
    let mut res = Response::new(204, "No Content");
    proof {
        reveal_strlit("allow");
        assert(crate::text::ascii_lower("allow"@) =~= "allow"@);
    }
    res.add_header("allow".to_owned(), "GET, POST, OPTIONS");
    proof {
        let empty = Seq::<Entry>::empty();
        assert(empty.push(("allow"@, "GET, POST, OPTIONS"@)) =~= seq![
            ("allow"@, "GET, POST, OPTIONS"@),
        ]);
    }
    Some(res)
}

} // verus!
