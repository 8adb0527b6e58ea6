use webrs::{ReqTypes, Request};

fn parse(raw: &[u8]) -> Request {
    match Request::parse(raw) {
        Ok(r) => r,
        Err(e) => panic!("{}", e.message()),
    }
}

#[test]
fn request_line_names_method_path_and_version() {
    assert_eq!(parse(b"GET /a/b HTTP/1.1\r\n\r\n").request_line(), "GET /a/b HTTP/1.1");
    assert_eq!(parse(b"POST /api/x HTTP/1.0\r\n\r\n").request_line(), "POST /api/x HTTP/1.1");
    assert_eq!(parse(b"OPTIONS * HTTP/1.1\r\n\r\n").request_line(), "OPTIONS * HTTP/1.1");
}

#[test]
fn request_line_parses_back_to_the_same_method_and_path() {
    let inputs: [&[u8]; 6] = [
        b"GET / HTTP/1.1\r\n\r\n",
        b"POST /api/chat/send HTTP/1.1\r\nHost: x\r\n\r\nbody",
        b"OPTIONS /api/file HTTP/1.1\r\n\r\n",
        b"GET /only\r\n\r\n",
        b"GET /a\r\nHost: x\r\n\r\n",
        "GET /caf\u{e9}/\u{1f600} HTTP/1.1\r\n\r\n".as_bytes(),
    ];
    for raw in inputs {
        let first = parse(raw);
        let mut again = first.request_line().into_bytes();
        again.extend_from_slice(b"\r\n\r\n");
        let second = parse(&again);
        assert_eq!(second.get_type(), first.get_type());
        assert_eq!(second.get_endpoint(), first.get_endpoint());
    }
}

#[test]
fn to_text_shows_line_headers_and_body() {
    let req = parse(b"POST /x HTTP/1.1\r\nHost: example.org\r\nAccept: */*\r\n\r\nhello");
    assert_eq!(
        req.to_text(),
        "POST /x HTTP/1.1\nhost: example.org\naccept: */*\n\nhello\n"
    );
}

#[test]
fn to_text_marks_a_body_that_is_not_text() {
    let req = parse(b"POST /x HTTP/1.1\r\n\r\n\xff");
    assert_eq!(req.to_text(), "POST /x HTTP/1.1\n\n[Not utf8]\n");
}

#[test]
fn error_message_names_code_and_description() {
    let bad = Request::parse(b"GET\r\n\r\n").err().unwrap();
    assert_eq!(bad.message(), "Req error! 400 Bad Request");
    assert_eq!(bad.get_code(), 400);
    assert_eq!(bad.get_description(), "Bad Request");
    let unknown = Request::parse(b"PUT / HTTP/1.1\r\n\r\n").err().unwrap();
    assert_eq!(unknown.message(), "Req error! 501 Not Implemented");
}

#[test]
fn clone_keeps_every_field_and_the_identifier() {
    let req = parse(b"POST /x HTTP/1.1\r\nContent-Type: a/b\r\n\r\nhello");
    let copy = req.clone();
    assert_eq!(copy.get_type(), ReqTypes::POST);
    assert_eq!(copy.get_endpoint(), "/x");
    assert_eq!(copy.get_content_type(), "a/b");
    assert_eq!(copy.get_data(), b"hello".to_vec());
    assert_eq!(copy.get_headers().get("content-type").unwrap(), "a/b");
    assert_eq!(copy.get_id(), req.get_id());
}
