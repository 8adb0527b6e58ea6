use std::collections::HashMap;
use webrs::api::endpoints::file_upload::{DownloadPlan, FileUpload, UploadPlan, UPLOAD_LIMIT};
use webrs::{Request, Response};

fn request(raw: &str) -> Request {
    match Request::parse(raw.as_bytes()) {
        Ok(r) => r,
        Err(e) => panic!("{}", e.message()),
    }
}

fn text(res: &Response) -> String {
    String::from_utf8(res.get_data()).unwrap()
}

fn store() -> FileUpload<'static> {
    let mut files = HashMap::new();
    files.insert(3u16, "3-notes.txt".to_string());
    files.insert(65535u16, "last.bin".to_string());
    FileUpload { endpoint: "/file", files }
}

fn download_code(plan: DownloadPlan) -> u16 {
    match plan {
        DownloadPlan::Reply(res) => res.get_code(),
        DownloadPlan::Read(path) => panic!("{} is read", path),
    }
}

fn upload_reply(plan: UploadPlan) -> Response {
    match plan {
        UploadPlan::Reply(res) => res,
        _ => panic!("the request was not answered at once"),
    }
}

#[test]
fn a_download_reads_the_file_of_the_number() {
    let s = store();
    assert_eq!(s.get_endpoint(), "/file");
    match s.handle_get(&request("GET /api/file/download/3 HTTP/1.1\r\n\r\n")) {
        DownloadPlan::Read(path) => assert_eq!(path, "files/3-notes.txt"),
        _ => panic!("nothing is read"),
    }
    match s.handle_get(&request("GET /download/x/+65535 HTTP/1.1\r\n\r\n")) {
        DownloadPlan::Read(path) => assert_eq!(path, "files/last.bin"),
        _ => panic!("nothing is read"),
    }
}

#[test]
fn a_download_needs_the_segment_and_a_number() {
    let s = store();
    for path in ["/api/file/3", "/api/file/downloads/3", "/api/file/download/x", "/api/file/download/",
        "/api/file/download/65536", "/api/file/download/-3", "/api/file/download/3.0"]
    {
        let raw = format!("GET {} HTTP/1.1\r\n\r\n", path);
        assert_eq!(download_code(s.handle_get(&request(&raw))), 400);
    }
}

#[test]
fn a_download_of_an_unknown_number_is_not_found() {
    let s = store();
    match s.handle_get(&request("GET /api/file/download/4 HTTP/1.1\r\n\r\n")) {
        DownloadPlan::Reply(res) => {
            assert_eq!(res.get_code(), 404);
            assert!(text(&res).contains("<h1>404 Not Found</h1>"));
        }
        _ => panic!("a file is read"),
    }
}

#[test]
fn a_downloaded_file_is_served_as_plain_text() {
    let res = FileUpload::download(Some(b"notes".to_vec()));
    assert_eq!(res.get_code(), 200);
    assert_eq!(res.get_content_type(), "text/plain");
    assert_eq!(res.get_data(), b"notes".to_vec());
    let failed = FileUpload::download(None);
    assert_eq!(failed.get_code(), 500);
    assert!(text(&failed).contains("<h1>500 Internal Server Error</h1>"));
}

#[test]
fn an_upload_makes_a_file_named_by_request_and_name() {
    let s = store();
    let req = request("POST /api/file/upload HTTP/1.1\r\n\r\n{\"filename\":\"a.txt\",\"data\":\"hello\"}");
    match s.handle_post(&req) {
        UploadPlan::Create { path, content } => {
            assert_eq!(path, format!("files/{}-a.txt", req.get_id()));
            assert_eq!(content, Some("hello".to_string()));
        }
        _ => panic!("no file is made"),
    }
}

#[test]
fn an_upload_without_content_still_makes_its_file() {
    let s = store();
    let req = request("POST /upload HTTP/1.1\r\n\r\n{\"filename\":\"a.txt\",\"data\":5}");
    match s.handle_post(&req) {
        UploadPlan::Create { content, .. } => assert_eq!(content, None),
        _ => panic!("no file is made"),
    }
}

#[test]
fn an_upload_without_a_name_is_declined() {
    let s = store();
    for body in ["{\"data\":\"x\"}", "{\"filename\":1,\"data\":\"x\"}", "[]", "7"] {
        let raw = format!("POST /api/file/upload HTTP/1.1\r\n\r\n{}", body);
        assert!(matches!(s.handle_post(&request(&raw)), UploadPlan::Decline));
    }
}

#[test]
fn an_upload_needs_its_path_a_body_and_json() {
    let s = store();
    let wrong_path = upload_reply(s.handle_post(&request("POST /api/file/up HTTP/1.1\r\n\r\n{}")));
    assert_eq!(wrong_path.get_code(), 400);
    assert!(text(&wrong_path).contains("<h1>400 Bad Request</h1>"));
    let empty = upload_reply(s.handle_post(&request("POST /api/file/upload HTTP/1.1\r\n\r\n")));
    assert_eq!(empty.get_code(), 400);
    assert!(text(&empty).contains("<h1>400 Bad Request (No data)</h1>"));
    let not_json =
        upload_reply(s.handle_post(&request("POST /api/file/upload HTTP/1.1\r\n\r\n{\"a\":")));
    assert_eq!(not_json.get_code(), 400);
    assert!(text(&not_json).contains("<h1>400 Bad Request</h1>"));
    let raw = b"POST /api/file/upload HTTP/1.1\r\n\r\n\xff\xfe";
    let not_text = upload_reply(s.handle_post(&Request::parse(raw).ok().unwrap()));
    assert_eq!(not_text.get_code(), 400);
}

#[test]
fn an_upload_is_answered_with_the_number_of_the_file() {
    let res = FileUpload::upload(42, true, true).unwrap();
    assert_eq!(res.get_code(), 200);
    assert_eq!(res.get_content_type(), "text/json");
    assert_eq!(text(&res), "{\"id\":42}");
    assert!(FileUpload::upload(42, false, true).is_none());
    assert!(FileUpload::upload(42, true, false).is_none());
    assert!(FileUpload::upload(42, false, false).is_none());
}

#[test]
fn the_answer_to_an_upload_is_the_document_that_json_writes() {
    for id in [1u16, 42, 65535] {
        let mut expected = json::JsonValue::new_object();
        expected["id"] = id.into();
        let res = FileUpload::upload(id, true, true).unwrap();
        assert_eq!(text(&res), expected.dump());
    }
}

#[test]
fn an_upload_longer_than_the_limit_is_a_bad_request() {
    assert_eq!(UPLOAD_LIMIT, 32767);
    let s = store();
    let head = "POST /api/file/upload HTTP/1.1\r\n\r\n";
    let long = format!("{}0.{}", head, "0".repeat(UPLOAD_LIMIT - 1));
    let res = upload_reply(s.handle_post(&request(&long)));
    assert_eq!(res.get_code(), 400);
    assert!(text(&res).contains("<h1>400 Bad Request</h1>"));
    let padded = format!("{}{{\"filename\":\"a\",\"data\":\"{}\"}}", head, "x".repeat(UPLOAD_LIMIT));
    assert_eq!(upload_reply(s.handle_post(&request(&padded))).get_code(), 400);
}

#[test]
fn an_upload_at_the_limit_is_read() {
    let s = store();
    let head = "POST /api/file/upload HTTP/1.1\r\n\r\n";
    let fraction = format!("{}0.{}", head, "0".repeat(UPLOAD_LIMIT - 2));
    assert!(matches!(s.handle_post(&request(&fraction)), UploadPlan::Decline));
    let frame = "{\"filename\":\"a\",\"data\":\"\"}".len();
    let data = "x".repeat(UPLOAD_LIMIT - frame);
    let full = format!("{}{{\"filename\":\"a\",\"data\":\"{}\"}}", head, data);
    match s.handle_post(&request(&full)) {
        UploadPlan::Create { content, .. } => assert_eq!(content, Some(data)),
        _ => panic!("no file is made"),
    }
}
