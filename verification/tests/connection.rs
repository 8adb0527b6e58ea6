use webrs::api::api::ApiOutcome;
use webrs::server::{wants_keep_alive, ConnAction, ConnEvent, BACKOFF_SECONDS};
use webrs::{Config, Connection, Request, Response, WebrsHttp};

fn server() -> WebrsHttp {
    WebrsHttp::new(8080, (true, true, true), "content".to_string())
}

fn request(raw: &str) -> Request {
    match Request::parse(raw.as_bytes()) {
        Ok(r) => r,
        Err(e) => panic!("{}", e.message()),
    }
}

fn data(conn: &mut Connection, bytes: &[u8]) -> ConnAction {
    conn.step(&server(), ConnEvent::Data(bytes.to_vec()))
}

fn written(action: ConnAction) -> String {
    match action {
        ConnAction::Write(bytes) => String::from_utf8(bytes).unwrap(),
        _ => panic!("nothing is written"),
    }
}

#[test]
fn a_new_connection_reads() {
    let mut conn = Connection::new();
    assert!(!conn.is_closed());
    assert!(matches!(conn.step(&server(), ConnEvent::Opened), ConnAction::Read));
    assert!(!conn.is_closed());
}

#[test]
fn a_connection_reads_until_the_header_block_is_complete() {
    let mut conn = Connection::new();
    assert!(matches!(data(&mut conn, b"GET /index/ HT"), ConnAction::Read));
    assert!(matches!(data(&mut conn, b"TP/1.1\r\nHost: x\r\n\r"), ConnAction::Read));
    match data(&mut conn, b"\n") {
        ConnAction::ReadFile(path) => assert_eq!(path, "./content//index/index.html"),
        _ => panic!("no file is asked for"),
    }
}

#[test]
fn an_empty_read_closes_the_connection() {
    let mut conn = Connection::new();
    assert!(matches!(data(&mut conn, b"GET /"), ConnAction::Read));
    assert!(matches!(data(&mut conn, b""), ConnAction::Close));
    assert!(conn.is_closed());
    assert!(matches!(conn.step(&server(), ConnEvent::Opened), ConnAction::Close));
    assert!(matches!(data(&mut conn, b"GET / HTTP/1.1\r\n\r\n"), ConnAction::Close));
}

#[test]
fn a_read_that_would_block_is_tried_again_after_a_wait() {
    let mut conn = Connection::new();
    assert!(matches!(data(&mut conn, b"GET /"), ConnAction::Read));
    match conn.step(&server(), ConnEvent::WouldBlock) {
        ConnAction::Sleep(seconds) => {
            assert_eq!(seconds, 5);
            assert_eq!(seconds, BACKOFF_SECONDS);
        }
        _ => panic!("no wait"),
    }
    assert!(matches!(conn.step(&server(), ConnEvent::Slept), ConnAction::Read));
    match data(&mut conn, b" HTTP/1.1\r\n\r\n") {
        ConnAction::ReadFile(path) => assert_eq!(path, "./content//index.html"),
        _ => panic!("no file is asked for"),
    }
}

#[test]
fn a_failed_read_closes_the_connection() {
    let mut conn = Connection::new();
    assert!(matches!(conn.step(&server(), ConnEvent::ReadFailed), ConnAction::Close));
    assert!(conn.is_closed());
}

#[test]
fn a_bad_request_is_answered_and_the_connection_stays_open() {
    let mut conn = Connection::new();
    let answer = written(data(&mut conn, b"GET\r\n\r\n"));
    assert!(answer.starts_with("HTTP/1.1 400 OK\r\ncontent-type: text/html\r\ncontent-length: "));
    assert!(answer.contains("<h1>400 Bad Request</h1>"));
    assert!(matches!(conn.step(&server(), ConnEvent::Written), ConnAction::Read));
    let unknown = written(data(&mut conn, b"BREW /pot HTTP/1.1\r\n\r\n"));
    assert!(unknown.starts_with("HTTP/1.1 501 OK\r\n"));
    assert!(unknown.contains("<h1>501 Not Implemented</h1>"));
    assert!(matches!(conn.step(&server(), ConnEvent::Written), ConnAction::Read));
    assert!(!conn.is_closed());
}

#[test]
fn keep_alive_keeps_the_connection_for_the_next_request() {
    let mut conn = Connection::new();
    let first = data(&mut conn, b"GET /a.txt HTTP/1.1\r\nConnection: keep-alive\r\n\r\n");
    assert!(matches!(first, ConnAction::ReadFile(_)));
    let answer = written(conn.step(&server(), ConnEvent::File(Some(b"one".to_vec()))));
    assert_eq!(
        answer,
        "HTTP/1.1 200 OK\r\ncontent-type: text/plain\r\ncontent-length: 3\r\n\r\none"
    );
    assert!(matches!(conn.step(&server(), ConnEvent::Written), ConnAction::Read));
    let second = data(&mut conn, b"GET /b.txt HTTP/1.1\r\nConnection: Keep-Alive\r\n\r\n");
    match second {
        ConnAction::ReadFile(path) => assert_eq!(path, "./content//b.txt"),
        _ => panic!("no file is asked for"),
    }
    let missing = written(conn.step(&server(), ConnEvent::File(None)));
    assert!(missing.starts_with("HTTP/1.1 404 OK\r\ncontent-type: text/html\r\n"));
    assert!(missing.ends_with("<h1>404 Not found</h1>\n        </body>\n      </html>"));
    assert!(matches!(conn.step(&server(), ConnEvent::Written), ConnAction::Read));
    assert!(!conn.is_closed());
}

#[test]
fn without_connection_header_the_loop_ends_after_one_exchange() {
    let mut conn = Connection::new();
    assert!(matches!(data(&mut conn, b"GET /a.txt HTTP/1.1\r\n\r\n"), ConnAction::ReadFile(_)));
    let answer = conn.step(&server(), ConnEvent::File(Some(b"one".to_vec())));
    assert!(matches!(answer, ConnAction::Write(_)));
    assert!(matches!(conn.step(&server(), ConnEvent::Written), ConnAction::Close));
    assert!(conn.is_closed());
}

#[test]
fn connection_close_ends_the_loop_after_one_exchange() {
    let mut conn = Connection::new();
    let first = data(&mut conn, b"GET /a.txt HTTP/1.1\r\nConnection: close\r\n\r\n");
    assert!(matches!(first, ConnAction::ReadFile(_)));
    let answer = conn.step(&server(), ConnEvent::File(None));
    assert!(matches!(answer, ConnAction::Write(_)));
    assert!(matches!(conn.step(&server(), ConnEvent::Written), ConnAction::Close));
    assert!(conn.is_closed());
}

#[test]
fn keep_alive_is_read_from_the_connection_header() {
    assert!(wants_keep_alive(&request("GET / HTTP/1.1\r\nConnection: keep-alive\r\n\r\n")));
    assert!(wants_keep_alive(&request("GET / HTTP/1.1\r\nconnection: KEEP-ALIVE\r\n\r\n")));
    assert!(!wants_keep_alive(&request("GET / HTTP/1.1\r\nConnection: close\r\n\r\n")));
    assert!(!wants_keep_alive(&request("GET / HTTP/1.1\r\nConnection: keep-alive, x\r\n\r\n")));
    assert!(!wants_keep_alive(&request("GET / HTTP/1.1\r\n\r\n")));
}

#[test]
fn a_request_below_api_is_handed_to_the_dispatcher() {
    let mut conn = Connection::new();
    let action = data(&mut conn, b"POST /api/chat/send HTTP/1.1\r\nConnection: keep-alive\r\n\r\n{}");
    match action {
        ConnAction::Dispatch(req) => {
            assert_eq!(req.get_endpoint(), "/api/chat/send");
            assert_eq!(req.get_data(), b"{}".to_vec());
        }
        _ => panic!("no dispatch"),
    }
    let mut res = Response::new(200, "application/json");
    res.set_data(b"{\"ok\":true}".to_vec());
    let answer = written(conn.step(&server(), ConnEvent::Api(ApiOutcome::Reply(res))));
    assert_eq!(
        answer,
        "HTTP/1.1 200 OK\r\ncontent-type: application/json\r\ncontent-length: 11\r\n\r\n{\"ok\":true}"
    );
    assert!(matches!(conn.step(&server(), ConnEvent::Written), ConnAction::Read));
}

#[test]
fn an_unanswered_dispatch_falls_back_to_400() {
    let mut conn = Connection::new();
    let action = data(&mut conn, b"GET /api/unknown HTTP/1.1\r\nAccept-Encoding: gzip\r\n\r\n");
    assert!(matches!(action, ConnAction::Dispatch(_)));
    let answer = written(conn.step(&server(), ConnEvent::Api(ApiOutcome::Unanswered)));
    assert!(answer.starts_with("HTTP/1.1 400 OK\r\ncontent-type: text/html\r\ncontent-length: "));
    assert!(answer.contains("<h1>400 Bad Request</h1>"));
    assert!(!answer.contains("content-encoding"));
    assert!(matches!(conn.step(&server(), ConnEvent::Written), ConnAction::Close));
}

#[test]
fn a_dropped_request_gets_no_response() {
    let mut conn = Connection::new();
    let action = data(&mut conn, b"POST /api/chat/send HTTP/1.1\r\nConnection: keep-alive\r\n\r\n{}");
    assert!(matches!(action, ConnAction::Dispatch(_)));
    assert!(matches!(conn.step(&server(), ConnEvent::Api(ApiOutcome::Dropped)), ConnAction::Read));
    assert!(!conn.is_closed());
    let mut other = Connection::new();
    let action = data(&mut other, b"POST /api/chat/send HTTP/1.1\r\n\r\n{}");
    assert!(matches!(action, ConnAction::Dispatch(_)));
    assert!(matches!(other.step(&server(), ConnEvent::Api(ApiOutcome::Dropped)), ConnAction::Close));
    assert!(other.is_closed());
}

#[test]
fn a_reply_goes_through_the_negotiation() {
    let mut conn = Connection::new();
    let action = data(&mut conn, b"GET /a.txt HTTP/1.1\r\nAccept-Encoding: gzip, zstd, br\r\n\r\n");
    assert!(matches!(action, ConnAction::ReadFile(_)));
    let content = b"aaaaaaaaaaaaaaaaaaaaaaaaaaaaaaaaaaaaaaaaaaaaaaaaaaaaaaaaaaaaaaaaaaaaaaaa".to_vec();
    match conn.step(&server(), ConnEvent::File(Some(content.clone()))) {
        ConnAction::Write(bytes) => {
            let packed = zstd::encode_all(&content[..], 3).unwrap();
            let mut expected = format!(
                "HTTP/1.1 200 OK\r\ncontent-encoding: zstd\r\ncontent-type: text/plain\r\ncontent-length: {}\r\n\r\n",
                packed.len()
            )
            .into_bytes();
            expected.extend_from_slice(&packed);
            assert_eq!(bytes, expected);
        }
        _ => panic!("nothing is written"),
    }
}

#[test]
fn a_static_post_is_answered_with_405_at_once() {
    let mut conn = Connection::new();
    let answer = written(data(&mut conn, b"POST /index/ HTTP/1.1\r\n\r\nx"));
    assert!(answer.starts_with("HTTP/1.1 405 OK\r\n"));
    assert!(answer.contains("<h1>405 Method Not Allowed</h1>"));
    assert!(matches!(conn.step(&server(), ConnEvent::Written), ConnAction::Close));
}

#[test]
fn an_event_out_of_turn_closes_the_connection() {
    let mut conn = Connection::new();
    assert!(matches!(conn.step(&server(), ConnEvent::Written), ConnAction::Close));
    assert!(conn.is_closed());
    let mut other = Connection::new();
    assert!(matches!(data(&mut other, b"GET /a HTTP/1.1\r\n\r\n"), ConnAction::ReadFile(_)));
    assert!(matches!(data(&mut other, b"more"), ConnAction::Close));
    assert!(other.is_closed());
}

#[test]
fn the_default_configuration_allows_every_codec() {
    let config = Config::default();
    assert_eq!(config.port, 8080);
    assert_eq!(config.content_dir, "content");
    assert!(config.compression.zstd);
    assert!(config.compression.br);
    assert!(config.compression.gzip);
    let settings = config.settings();
    assert_eq!(settings.port(), 8080);
    assert_eq!(settings.content_dir(), "content");
    assert_eq!(settings.compression(), (true, true, true));
}
