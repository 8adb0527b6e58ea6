use webrs::api::endpoints::chat::{
    hex_string, AuthForm, Chat, Draft, GetPlan, PostPlan, AUTH_FILE, CHAT_HISTORY_FILE,
};
use webrs::{Request, Response};

const ENTROPY: [u8; 16] = [0, 1, 2, 3, 4, 5, 6, 7, 8, 9, 10, 11, 12, 13, 14, 255];
const TOKEN: &str = "000102030405060708090a0b0c0d0eff";
// sha256("secret") in base 16
const SECRET: &str = "2bb80d537b1da3e38bd30361aa855686bde0eacd7162fef6a25fe97bf527a25b";

fn post(path: &str, body: &str) -> Request {
    let raw = format!("POST {} HTTP/1.1\r\n\r\n{}", path, body);
    match Request::parse(raw.as_bytes()) {
        Ok(r) => r,
        Err(e) => panic!("{}", e.message()),
    }
}

fn get(path: &str) -> Request {
    let raw = format!("GET {} HTTP/1.1\r\n\r\n", path);
    match Request::parse(raw.as_bytes()) {
        Ok(r) => r,
        Err(e) => panic!("{}", e.message()),
    }
}

fn text(res: &Response) -> String {
    String::from_utf8(res.get_data()).unwrap()
}

fn reply(plan: PostPlan) -> Response {
    match plan {
        PostPlan::Reply(res) => res,
        _ => panic!("the request was not answered at once"),
    }
}

fn form(plan: PostPlan) -> AuthForm {
    match plan {
        PostPlan::Auth(form) => form,
        _ => panic!("no form"),
    }
}

fn draft(plan: PostPlan) -> Draft {
    match plan {
        PostPlan::Send(draft) => draft,
        _ => panic!("no message"),
    }
}

fn assert_json(res: &Response, code: u16, body: &str) {
    assert_eq!(res.get_code(), code);
    assert_eq!(res.get_content_type(), "application/json");
    assert_eq!(text(res), body);
    assert_eq!(res.get_headers().len(), 0);
}

fn accounts() -> Vec<u8> {
    format!("{{\"users\":[{{\"password\":\"{}\",\"user\":\"ada\"}}]}}", SECRET).into_bytes()
}

fn logged_in() -> Chat<'static> {
    let mut chat = Chat::new("/chat");
    let login = form(chat.handle_post(&post(
        "/api/chat/auth",
        "{\"type\":\"login\",\"user\":\"ada\",\"password\":\"secret\"}",
    )));
    let (res, write) = chat.finish_auth(&login, Some(accounts()), ENTROPY);
    assert_eq!(res.get_code(), 200);
    assert!(write.is_none());
    chat
}

#[test]
fn chat_keeps_its_files_under_fixed_names() {
    assert_eq!(CHAT_HISTORY_FILE, "history.json");
    assert_eq!(AUTH_FILE, "auth.json");
    assert_eq!(Chat::new("/chat").get_endpoint(), "/chat");
}

#[test]
fn hex_writes_two_digits_for_each_byte() {
    assert_eq!(hex_string(&[]), "");
    assert_eq!(hex_string(&[0]), "00");
    assert_eq!(hex_string(&[9, 10, 15, 16, 255]), "090a0f10ff");
    assert_eq!(hex_string(&ENTROPY), TOKEN);
}

#[test]
fn get_of_messages_reads_the_history() {
    let chat = Chat::new("/chat");
    assert!(matches!(chat.handle_get(&get("/api/chat/messages")), GetPlan::ReadHistory));
    assert!(matches!(chat.handle_get(&get("messages")), GetPlan::ReadHistory));
    let res = Chat::get_messages(Some(b"{\"messages\":[]}".to_vec()));
    assert_json(&res, 200, "{\"messages\":[]}");
    let failed = Chat::get_messages(None);
    assert_eq!(failed.get_code(), 500);
    assert!(text(&failed).contains("<h1>500 Internal Server Error</h1>"));
}

#[test]
fn get_of_anything_else_is_not_found() {
    let chat = Chat::new("/chat");
    for path in ["/api/chat", "/api/chat/messages/", "/api/chat/message", "/api/chat/Messages"] {
        match chat.handle_get(&get(path)) {
            GetPlan::Reply(res) => {
                assert_eq!(res.get_code(), 404);
                assert!(text(&res).contains("<h1>404 Not Found</h1>"));
            }
            GetPlan::ReadHistory => panic!("the history is read"),
        }
    }
}

#[test]
fn a_post_needs_a_body_and_a_known_path() {
    let chat = Chat::new("/chat");
    let empty = reply(chat.handle_post(&post("/api/chat/send", "")));
    assert_eq!(empty.get_code(), 400);
    assert!(text(&empty).contains("<h1>400 Bad Request (No data)</h1>"));
    for path in ["/api/chat/other", "/api/chat/send/", "send", "/api/chat/sendx"] {
        let res = reply(chat.handle_post(&post(path, "{}")));
        assert_eq!(res.get_code(), 400);
        assert!(text(&res).contains("<h1>400 Bad Request</h1>"));
    }
}

#[test]
fn a_message_needs_its_three_fields() {
    let chat = Chat::new("/chat");
    let send = |body: &str| reply(chat.handle_post(&post("/api/chat/send", body)));
    assert_json(&send("not json"), 400, "{\"error\":\"Invalid request json\"}");
    assert_json(&send("{}"), 400, "{\"error\":\"No user field\"}");
    assert_json(&send("[1,2]"), 400, "{\"error\":\"No user field\"}");
    assert_json(&send("{\"user\":7}"), 400, "{\"error\":\"No user field\"}");
    assert_json(&send("{\"user\":\"ada\"}"), 400, "{\"error\":\"No content field\"}");
    assert_json(
        &send("{\"user\":\"ada\",\"content\":\"hi\"}"),
        400,
        "{\"error\":\"No token field\"}",
    );
}

#[test]
fn a_message_needs_the_token_of_its_user() {
    let chat = logged_in();
    assert_eq!(chat.token_of("ada").unwrap(), TOKEN);
    assert!(chat.token_of("bob").is_none());
    let send = |body: &str| chat.handle_post(&post("/api/chat/send", body));
    assert_json(
        &reply(send("{\"user\":\"bob\",\"content\":\"hi\",\"token\":\"x\"}")),
        401,
        "{\"error\":\"User not logged in\"}",
    );
    assert_json(
        &reply(send("{\"user\":\"ada\",\"content\":\"hi\",\"token\":\"x\"}")),
        401,
        "{\"error\":\"Invalid token\"}",
    );
    let ok = draft(send(&format!(
        "{{\"user\":\"ada\",\"content\":\"hi \\\"all\\\"\",\"token\":\"{}\"}}",
        TOKEN
    )));
    assert_eq!(ok.user, "ada");
    assert_eq!(ok.content, "hi \"all\"");
}

#[test]
fn a_sent_message_joins_the_history() {
    let message = Draft { user: "ada".to_string(), content: "hi \"all\"\n".to_string() };
    let (res, write) = Chat::finish_send(
        &message,
        Some(b"{ \"messages\": [ {\"user\":\"bob\", \"content\":\"yo\", \"timestamp\": 5} ] }".to_vec()),
        1700000000123,
    );
    assert_json(&res, 200, "{\"success\":\"message sent\"}");
    assert_eq!(
        String::from_utf8(write.unwrap()).unwrap(),
        "{\"messages\":[{\"content\":\"yo\",\"timestamp\":5,\"user\":\"bob\"},{\"content\":\"hi \\\"all\\\"\\n\",\"timestamp\":1700000000123,\"user\":\"ada\"}]}"
    );
}

#[test]
fn the_first_message_starts_the_history() {
    let message = Draft { user: "ada".to_string(), content: "first".to_string() };
    for history in ["{}", "{\"messages\":[]}", "{\"messages\":7}", "[]", "null"] {
        let (res, write) = Chat::finish_send(&message, Some(history.as_bytes().to_vec()), 1);
        assert_eq!(res.get_code(), 200);
        assert_eq!(
            String::from_utf8(write.unwrap()).unwrap(),
            "{\"messages\":[{\"content\":\"first\",\"timestamp\":1,\"user\":\"ada\"}]}"
        );
    }
}

#[test]
fn a_history_that_cannot_be_read_is_a_server_error() {
    let message = Draft { user: "ada".to_string(), content: "first".to_string() };
    for history in [None, Some(b"".to_vec()), Some(b"{\"messages\":".to_vec())] {
        let (res, write) = Chat::finish_send(&message, history, 1);
        assert_eq!(res.get_code(), 500);
        assert!(text(&res).contains("<h1>500 Internal Server Error</h1>"));
        assert!(write.is_none());
    }
}

#[test]
fn a_written_history_can_be_read_again() {
    let first = Draft { user: "a".to_string(), content: "1".to_string() };
    let second = Draft { user: "b".to_string(), content: "2".to_string() };
    let (_, one) = Chat::finish_send(&first, Some(b"{}".to_vec()), 10);
    let (_, two) = Chat::finish_send(&second, one, 20);
    let value: serde_json::Value = serde_json::from_slice(&two.unwrap()).unwrap();
    let messages = value["messages"].as_array().unwrap();
    assert_eq!(messages.len(), 2);
    assert_eq!(messages[0]["user"], "a");
    assert_eq!(messages[0]["timestamp"], 10);
    assert_eq!(messages[1]["content"], "2");
    assert_eq!(messages[1]["timestamp"], 20);
}

#[test]
fn a_form_needs_type_and_user() {
    let chat = Chat::new("/chat");
    let auth = |body: &str| chat.handle_post(&post("/api/chat/auth", body));
    assert_json(&reply(auth("{")), 400, "{\"error\":\"Invalid json\"}");
    assert_json(&reply(auth("{}")), 400, "{\"error\":\"No auth type given\"}");
    assert_json(&reply(auth("{\"type\":\"new\"}")), 400, "{\"error\":\"No user given\"}");
    let complete = form(auth("{\"type\":\"check\",\"user\":\"ada\",\"token\":\"t\"}"));
    assert_eq!(complete.kind, "check");
    assert_eq!(complete.user, "ada");
    assert_eq!(complete.password, None);
    assert_eq!(complete.token, Some("t".to_string()));
}

#[test]
fn the_accounts_must_be_readable() {
    let mut chat = Chat::new("/chat");
    let check = form(chat.handle_post(&post("/api/chat/auth", "{\"type\":\"check\",\"user\":\"a\"}")));
    for file in [None, Some(b"not json".to_vec())] {
        let (res, write) = chat.finish_auth(&check, file, ENTROPY);
        assert_eq!(res.get_code(), 500);
        assert!(write.is_none());
    }
}

#[test]
fn a_new_account_joins_the_list_with_its_hashed_password() {
    let mut chat = Chat::new("/chat");
    let new = form(chat.handle_post(&post(
        "/api/chat/auth",
        "{\"type\":\"new\",\"user\":\"ada\",\"password\":\"secret\"}",
    )));
    let (res, write) = chat.finish_auth(&new, Some(b"{\"users\":[]}".to_vec()), ENTROPY);
    assert_json(&res, 200, "{\"success\":\"Created new user ada\"}");
    assert_eq!(write.unwrap(), accounts());
    assert!(chat.token_of("ada").is_none());
    let (res, write) = chat.finish_auth(&new, Some(b"{}".to_vec()), ENTROPY);
    assert_eq!(res.get_code(), 200);
    assert_eq!(write.unwrap(), accounts());
}

#[test]
fn a_second_account_goes_behind_the_first() {
    let mut chat = Chat::new("/chat");
    let new = form(chat.handle_post(&post(
        "/api/chat/auth",
        "{\"type\":\"new\",\"user\":\"b\\\"ob\",\"password\":\"secret\"}",
    )));
    let (res, write) = chat.finish_auth(&new, Some(accounts()), ENTROPY);
    assert_json(&res, 200, "{\"success\":\"Created new user b\\\"ob\"}");
    assert_eq!(
        String::from_utf8(write.unwrap()).unwrap(),
        format!(
            "{{\"users\":[{{\"password\":\"{}\",\"user\":\"ada\"}},{{\"password\":\"{}\",\"user\":\"b\\\"ob\"}}]}}",
            SECRET, SECRET
        )
    );
}

#[test]
fn an_account_cannot_be_created_twice() {
    let mut chat = Chat::new("/chat");
    let new = form(chat.handle_post(&post(
        "/api/chat/auth",
        "{\"type\":\"new\",\"user\":\"ada\",\"password\":\"other\"}",
    )));
    let (res, write) = chat.finish_auth(&new, Some(accounts()), ENTROPY);
    assert_json(&res, 422, "{\"error\":\"User already exists\"}");
    assert!(write.is_none());
}

#[test]
fn a_new_account_needs_a_password() {
    let mut chat = Chat::new("/chat");
    let new = form(chat.handle_post(&post("/api/chat/auth", "{\"type\":\"new\",\"user\":\"bob\"}")));
    let (res, write) = chat.finish_auth(&new, Some(accounts()), ENTROPY);
    assert_json(&res, 400, "{\"error\":\"No password\"}");
    assert!(write.is_none());
}

#[test]
fn a_login_gives_a_token() {
    let mut chat = Chat::new("/chat");
    let login = form(chat.handle_post(&post(
        "/api/chat/auth",
        "{\"type\":\"login\",\"user\":\"ada\",\"password\":\"secret\"}",
    )));
    let (res, write) = chat.finish_auth(&login, Some(accounts()), ENTROPY);
    assert_json(&res, 200, &format!("{{\"token\":\"{}\"}}", TOKEN));
    assert!(write.is_none());
    assert_eq!(chat.token_of("ada").unwrap(), TOKEN);
    let (_, _) = chat.finish_auth(&login, Some(accounts()), [7u8; 16]);
    assert_eq!(chat.token_of("ada").unwrap(), "07070707070707070707070707070707");
}

#[test]
fn a_login_needs_the_right_password() {
    let mut chat = Chat::new("/chat");
    let auth = |chat: &Chat, body: &str| form(chat.handle_post(&post("/api/chat/auth", body)));
    let wrong = auth(&chat, "{\"type\":\"login\",\"user\":\"ada\",\"password\":\"Secret\"}");
    let (res, _) = chat.finish_auth(&wrong, Some(accounts()), ENTROPY);
    assert_json(&res, 401, "{\"error\":\"Invalid username or password\"}");
    let unknown = auth(&chat, "{\"type\":\"login\",\"user\":\"bob\",\"password\":\"secret\"}");
    let (res, _) = chat.finish_auth(&unknown, Some(accounts()), ENTROPY);
    assert_json(&res, 401, "{\"error\":\"Invalid username or password\"}");
    let hashed = auth(
        &chat,
        &format!("{{\"type\":\"login\",\"user\":\"ada\",\"password\":\"{}\"}}", SECRET),
    );
    let (res, _) = chat.finish_auth(&hashed, Some(accounts()), ENTROPY);
    assert_eq!(res.get_code(), 401);
    let none = auth(&chat, "{\"type\":\"login\",\"user\":\"ada\"}");
    let (res, _) = chat.finish_auth(&none, Some(accounts()), ENTROPY);
    assert_json(&res, 400, "{\"error\":\"No password\"}");
    assert!(chat.token_of("ada").is_none());
}

#[test]
fn a_token_can_be_checked() {
    let mut chat = logged_in();
    let auth = |chat: &Chat, body: &str| form(chat.handle_post(&post("/api/chat/auth", body)));
    let good = auth(&chat, &format!("{{\"type\":\"check\",\"user\":\"ada\",\"token\":\"{}\"}}", TOKEN));
    let (res, write) = chat.finish_auth(&good, Some(accounts()), ENTROPY);
    assert_json(&res, 200, "{\"success\":\"Token is valid\"}");
    assert!(write.is_none());
    let bad = auth(&chat, "{\"type\":\"check\",\"user\":\"ada\",\"token\":\"x\"}");
    let (res, _) = chat.finish_auth(&bad, Some(accounts()), ENTROPY);
    assert_json(&res, 401, "{\"error\":\"Token is invalid\"}");
    let none = auth(&chat, "{\"type\":\"check\",\"user\":\"ada\"}");
    let (res, _) = chat.finish_auth(&none, Some(accounts()), ENTROPY);
    assert_json(&res, 401, "{\"error\":\"Token is invalid\"}");
    let stranger = auth(&chat, "{\"type\":\"check\",\"user\":\"bob\",\"token\":\"x\"}");
    let (res, _) = chat.finish_auth(&stranger, Some(accounts()), ENTROPY);
    assert_json(&res, 401, "{\"error\":\"User bob is not logged in\"}");
    assert_eq!(chat.token_of("ada").unwrap(), TOKEN);
}

#[test]
fn an_unknown_type_is_refused() {
    let mut chat = Chat::new("/chat");
    let odd = form(chat.handle_post(&post("/api/chat/auth", "{\"type\":\"logout\",\"user\":\"ada\"}")));
    let (res, write) = chat.finish_auth(&odd, Some(accounts()), ENTROPY);
    assert_json(&res, 400, "{\"error\":\"Unknown auth type logout\"}");
    assert!(write.is_none());
}

#[test]
fn a_message_is_stamped_with_the_time_of_sending() {
    let message = Draft { user: "ada".to_string(), content: "now".to_string() };
    let (res, write) = Chat::handle_send_message(&message, Some(b"{}".to_vec()));
    assert_json(&res, 200, "{\"success\":\"message sent\"}");
    let value: serde_json::Value = serde_json::from_slice(&write.unwrap()).unwrap();
    let messages = value["messages"].as_array().unwrap();
    assert_eq!(messages.len(), 1);
    assert_eq!(messages[0]["user"], "ada");
    assert_eq!(messages[0]["content"], "now");
    // later than the first of January 2020, in milliseconds
    assert!(messages[0]["timestamp"].as_u64().unwrap() > 1_577_836_800_000);
    let (failed, nothing) = Chat::handle_send_message(&message, None);
    assert_eq!(failed.get_code(), 500);
    assert!(nothing.is_none());
}

#[test]
fn each_login_gets_a_random_token() {
    let mut chat = Chat::new("/chat");
    let login = form(chat.handle_post(&post(
        "/api/chat/auth",
        "{\"type\":\"login\",\"user\":\"ada\",\"password\":\"secret\"}",
    )));
    let (res, write) = chat.handle_auth(&login, Some(accounts()));
    assert_eq!(res.get_code(), 200);
    assert!(write.is_none());
    let first = chat.token_of("ada").unwrap().clone();
    assert_eq!(first.len(), 32);
    assert!(first.chars().all(|c| c.is_ascii_digit() || ('a'..='f').contains(&c)));
    assert_eq!(text(&res), format!("{{\"token\":\"{}\"}}", first));
    let (_, _) = chat.handle_auth(&login, Some(accounts()));
    let second = chat.token_of("ada").unwrap().clone();
    assert_eq!(second.len(), 32);
    assert_ne!(first, second);
}

fn object(members: Vec<(&str, serde_json::Value)>) -> serde_json::Value {
    let mut map = serde_json::Map::new();
    for (key, value) in members {
        map.insert(key.to_string(), value);
    }
    serde_json::Value::Object(map)
}

fn string(text: &str) -> serde_json::Value {
    serde_json::Value::String(text.to_string())
}

#[test]
fn answers_are_the_documents_that_serde_json_writes() {
    let chat = Chat::new("/chat");
    let no_user = reply(chat.handle_post(&post("/api/chat/send", "{}")));
    let expected = serde_json::to_string(&object(vec![("error", string("No user field"))])).unwrap();
    assert_eq!(text(&no_user), expected);
    let mut fresh = Chat::new("/chat");
    let odd = form(fresh.handle_post(&post(
        "/api/chat/auth",
        "{\"type\":\"a\\\"b\\\\c\\n\\u00e9\\u0001\",\"user\":\"ada\"}",
    )));
    let (res, _) = fresh.finish_auth(&odd, Some(accounts()), ENTROPY);
    let expected = serde_json::to_string(&object(vec![(
        "error",
        string("Unknown auth type a\"b\\c\n\u{e9}\u{1}"),
    )]))
    .unwrap();
    assert_eq!(text(&res), expected);
}

#[test]
fn the_history_is_the_document_that_serde_json_writes() {
    let message = Draft { user: "a\"da\u{e9}".to_string(), content: "tab\there\\".to_string() };
    let old = object(vec![("user", string("bob")), ("content", string("yo")), ("timestamp", 5.into())]);
    let history = serde_json::to_string(&object(vec![(
        "messages",
        serde_json::Value::Array(vec![old.clone()]),
    )]))
    .unwrap();
    let (_, write) = Chat::finish_send(&message, Some(history.into_bytes()), 1700000000123);
    let new = object(vec![
        ("user", string("a\"da\u{e9}")),
        ("content", string("tab\there\\")),
        ("timestamp", 1700000000123u64.into()),
    ]);
    let expected =
        serde_json::to_string(&object(vec![("messages", serde_json::Value::Array(vec![old, new]))]))
            .unwrap();
    assert_eq!(String::from_utf8(write.unwrap()).unwrap(), expected);
}

#[test]
fn the_accounts_are_the_document_that_serde_json_writes() {
    let mut chat = Chat::new("/chat");
    let new = form(chat.handle_post(&post(
        "/api/chat/auth",
        "{\"type\":\"new\",\"user\":\"b\\\"ob\",\"password\":\"secret\"}",
    )));
    let (_, write) = chat.finish_auth(&new, Some(accounts()), ENTROPY);
    let ada = object(vec![("user", string("ada")), ("password", string(SECRET))]);
    let bob = object(vec![("user", string("b\"ob")), ("password", string(SECRET))]);
    let expected =
        serde_json::to_string(&object(vec![("users", serde_json::Value::Array(vec![ada, bob]))]))
            .unwrap();
    assert_eq!(String::from_utf8(write.unwrap()).unwrap(), expected);
}

#[test]
fn a_failed_write_turns_the_answer_into_a_server_error() {
    let kept = Chat::after_write(Response::json(200, "{}"), true);
    assert_eq!(kept.get_code(), 200);
    assert_eq!(text(&kept), "{}");
    let failed = Chat::after_write(Response::json(200, "{}"), false);
    assert_eq!(failed.get_code(), 500);
    assert!(text(&failed).contains("<h1>500 Internal Server Error</h1>"));
}
