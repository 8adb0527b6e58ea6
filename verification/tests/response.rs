use webrs::response::{respond, Response};

#[test]
fn new_response_is_empty() {
    let res = Response::new(200, "text/html");
    assert_eq!(res.get_code(), 200);
    assert_eq!(res.get_content_type(), "text/html");
    assert!(res.get_data().is_empty());
    assert_eq!(res.get_headers().len(), 0);
}

#[test]
fn setters_replace_one_field_each() {
    let mut res = Response::new(200, "text/html");
    res.set_code(404);
    res.set_content_type("text/plain".to_string());
    res.set_data(vec![1, 2, 3]);
    assert_eq!(res.get_code(), 404);
    assert_eq!(res.get_content_type(), "text/plain");
    assert_eq!(res.get_data(), vec![1, 2, 3]);
    res.set_data_as_slice(b"xy");
    assert_eq!(res.get_data(), b"xy".to_vec());
    assert_eq!(res.get_code(), 404);
    assert_eq!(res.get_headers().len(), 0);
}

#[test]
fn add_header_replaces_the_value_of_a_key() {
    let mut res = Response::new(200, "text/html");
    res.add_header("a".to_string(), "1");
    res.add_header("b".to_string(), "2");
    res.add_header("a".to_string(), "3");
    let headers = res.get_headers();
    assert_eq!(headers.len(), 2);
    assert_eq!(headers.get("a").unwrap(), "3");
    assert_eq!(headers.get("b").unwrap(), "2");
    assert_eq!(headers.key_at(0), "a");
    assert_eq!(headers.key_at(1), "b");
}

#[test]
fn basic_writes_code_and_description_into_the_page() {
    let res = Response::basic(405, "Method Not Allowed");
    assert_eq!(res.get_code(), 405);
    assert_eq!(res.get_content_type(), "text/html");
    assert_eq!(
        String::from_utf8(res.get_data()).unwrap(),
        "\n      <html>\n        <body>\n          <h1>405 Method Not Allowed</h1>\n        <body>\n      </html>\n    "
    );
    assert_eq!(res.get_headers().len(), 0);
}

#[test]
fn respond_adds_content_type_and_content_length() {
    let mut res = Response::new(200, "text/plain");
    res.set_data(b"hello".to_vec());
    assert_eq!(
        respond(res),
        b"HTTP/1.1 200 OK\r\ncontent-type: text/plain\r\ncontent-length: 5\r\n\r\nhello".to_vec()
    );
}

#[test]
fn respond_writes_ok_whatever_the_code() {
    let res = Response::new(404, "text/html");
    assert_eq!(
        respond(res),
        b"HTTP/1.1 404 OK\r\ncontent-type: text/html\r\ncontent-length: 0\r\n\r\n".to_vec()
    );
}

#[test]
fn respond_keeps_the_headers_that_are_set() {
    let mut res = Response::new(200, "text/plain");
    res.add_header("content-length".to_string(), "99");
    res.add_header("x-a".to_string(), "b");
    res.add_header("content-type".to_string(), "application/json");
    res.set_data(b"{}".to_vec());
    assert_eq!(
        respond(res),
        b"HTTP/1.1 200 OK\r\ncontent-length: 99\r\nx-a: b\r\ncontent-type: application/json\r\n\r\n{}"
            .to_vec()
    );
}

#[test]
fn respond_writes_a_header_once_whatever_its_case() {
    let mut res = Response::new(200, "text/html");
    res.add_header("Content-Type".to_string(), "application/json");
    assert_eq!(
        respond(res),
        b"HTTP/1.1 200 OK\r\ncontent-type: application/json\r\ncontent-length: 0\r\n\r\n".to_vec()
    );
    let mut other = Response::new(200, "text/plain");
    other.set_data(b"abc".to_vec());
    other.add_header("CONTENT-LENGTH".to_string(), "3");
    other.add_header("X-Thing".to_string(), "1");
    other.add_header("content-Length".to_string(), "03");
    assert_eq!(
        respond(other),
        b"HTTP/1.1 200 OK\r\ncontent-length: 03\r\nx-thing: 1\r\ncontent-type: text/plain\r\n\r\nabc"
            .to_vec()
    );
}

#[test]
fn add_header_keeps_keys_in_lower_case() {
    let mut res = Response::new(200, "text/html");
    res.add_header("Allow".to_string(), "GET");
    res.add_header("ALLOW".to_string(), "GET, POST");
    res.add_header("X-\u{c4}".to_string(), "v");
    let headers = res.get_headers();
    assert_eq!(headers.len(), 2);
    assert_eq!(headers.key_at(0), "allow");
    assert_eq!(headers.get("allow").unwrap(), "GET, POST");
    assert_eq!(headers.key_at(1), "x-\u{c4}");
    assert!(headers.get("Allow").is_none());
}

#[test]
fn respond_writes_a_long_body_length_in_decimal() {
    let mut res = Response::new(200, "application/octet-stream");
    res.set_data(vec![7u8; 12345]);
    let bytes = respond(res);
    let head = b"HTTP/1.1 200 OK\r\ncontent-type: application/octet-stream\r\ncontent-length: 12345\r\n\r\n";
    assert_eq!(&bytes[..head.len()], &head[..]);
    assert_eq!(bytes.len(), head.len() + 12345);
}

#[test]
fn json_response_holds_the_text() {
    let res = Response::json(422, "{\"error\":\"x\"}");
    assert_eq!(res.get_code(), 422);
    assert_eq!(res.get_content_type(), "application/json");
    assert_eq!(res.get_data(), b"{\"error\":\"x\"}".to_vec());
}

#[test]
fn from_json_writes_the_value_as_text() {
    let mut map = serde_json::Map::new();
    map.insert("token".to_string(), serde_json::Value::String("abc".to_string()));
    map.insert("n".to_string(), serde_json::Value::from(3));
    let res = Response::from_json(200, serde_json::Value::Object(map)).unwrap();
    assert_eq!(res.get_code(), 200);
    assert_eq!(res.get_content_type(), "application/json");
    assert_eq!(String::from_utf8(res.get_data()).unwrap(), "{\"n\":3,\"token\":\"abc\"}");
}

#[test]
fn a_header_is_found_whatever_the_case_of_its_name() {
    let mut res = Response::new(200, "text/html");
    res.add_header("X-Thing".to_string(), "1");
    assert_eq!(res.header("x-thing").unwrap(), "1");
    assert_eq!(res.header("X-THING").unwrap(), "1");
    assert!(res.header("x-other").is_none());
}
