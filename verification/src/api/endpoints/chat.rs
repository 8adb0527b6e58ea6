//! A message board with accounts: what it answers, whom it lets in and what
//! it keeps in its two files, the history of messages and the list of
//! accounts. The files themselves are read and written by the caller.

use crate::headers::{lookup, with_entry, Entry, Headers};
use crate::json::{
    fields_view, items_of, json_fields, json_object, json_quoted, list_document, list_items,
    names_view, pair_document, quote, read_fields, texts_view, write_list, write_object, write_pair,
};
use crate::request::{Request, RequestView};
use crate::response::{basic_response, json_response, Response, ResponseView};
use crate::text::{
    chars_of, content_of, copy_range, decimal, decimal_chars, last_index_of, last_segment,
    last_segment_chars, lemma_rfind_char, maybe_text, rfind_char, same_chars, same_text, string_of,
};
use vstd::prelude::*;
use vstd::string::StringExecFns;
use vstd::utf8::encode_utf8;

verus! {

/// The file that holds the messages.
pub const CHAT_HISTORY_FILE: &'static str = "history.json";

/// The file that holds the accounts.
pub const AUTH_FILE: &'static str = "auth.json";

/// The SHA-256 digest of the bytes, as `sha2` computes it.
pub uninterp spec fn sha256_of(data: Seq<u8>) -> Seq<u8>;

/// `sha2::Sha256::digest`: the SHA-256 digest of the bytes, which is 32 bytes
/// long.
#[verifier::external_body]
fn sha256(data: &[u8]) -> (r: Vec<u8>)
    ensures
        r@ == sha256_of(data@),
        r@.len() == 32,
{
    <sha2::Sha256 as sha2::Digest>::digest(data).to_vec()
}

/// `rand::thread_rng` and `Rng::gen`: sixteen random bytes.
#[verifier::external_body]
fn random_bytes() -> (bytes: [u8; 16]) {
    rand::Rng::gen(&mut rand::thread_rng())
}

/// `SystemTime::now` and `SystemTime::duration_since` of std: the
/// milliseconds since the beginning of 1970, or `None` where the clock
/// stands before it.
#[verifier::external_body]
fn now_millis() -> (millis: Option<u64>) {
    match std::time::SystemTime::now().duration_since(std::time::UNIX_EPOCH) {
        Ok(elapsed) => Some(elapsed.as_millis() as u64),
        Err(_) => None,
    }
}

/// The character that writes a number below 16 in base 16, in lower case.
pub open spec fn hex_digit(n: int) -> char {
    if n < 10 {
        ((48 + n) as u8) as char
    } else {
        ((87 + n) as u8) as char
    }
}

/// The bytes in base 16: two digits each, in lower case.
pub open spec fn hex(bytes: Seq<u8>) -> Seq<char>
    decreases bytes.len(),
{
    if bytes.len() == 0 {
        Seq::empty()
    } else {
        hex(bytes.drop_last()).push(hex_digit(bytes.last() as int / 16)).push(
            hex_digit(bytes.last() as int % 16),
        )
    }
}

fn hex_char(n: u8) -> (c: char)
    requires
        n < 16,
    ensures
        c == hex_digit(n as int),
{
    if n < 10 {
        (48 + n) as char
    } else {
        (87 + n) as char
    }
}

/// The bytes in base 16.
pub fn hex_string(bytes: &[u8]) -> (text: String)
    ensures
        text@ == hex(bytes@),
{
    let mut out: Vec<char> = Vec::new();
    let mut i: usize = 0;
    assert(bytes@.take(0) =~= Seq::<u8>::empty());
    while i < bytes.len()
        invariant
            i <= bytes@.len(),
            out@ == hex(bytes@.take(i as int)),
        decreases bytes@.len() - i,
    {
        let b = bytes[i];
        assert(bytes@.take(i + 1).drop_last() =~= bytes@.take(i as int));
        assert(bytes@.take(i + 1).last() == b);
        out.push(hex_char(b / 16));
        out.push(hex_char(b % 16));
        i += 1;
    }
    assert(bytes@.take(i as int) =~= bytes@);
    string_of(out.as_slice())
}

/// The password as the list of accounts keeps it: its SHA-256 digest in
/// base 16.
pub open spec fn hashed(password: Seq<char>) -> Seq<char> {
    hex(sha256_of(encode_utf8(password)))
}

/// The answer that carries one text under one key. Where the text cannot
/// be written as JSON, the answer is status 500.
pub open spec fn reply(code: u16, key: Seq<char>, message: Seq<char>) -> ResponseView {
    match pair_document(key, message) {
        Some(text) => json_response(code, text),
        None => basic_response(500, "Internal Server Error"@),
    }
}

/// The answer to something that went wrong on the server's side.
pub open spec fn server_error() -> ResponseView {
    basic_response(500, "Internal Server Error"@)
}

/// A message that may be added to the history.
pub struct Draft {
    pub user: String,
    pub content: String,
}

/// What is asked of the accounts.
pub struct AuthForm {
    pub kind: String,
    pub user: String,
    pub password: Option<String>,
    pub token: Option<String>,
}

/// What `AuthForm` is.
pub struct FormView {
    pub kind: Seq<char>,
    pub user: Seq<char>,
    pub password: Option<Seq<char>>,
    pub token: Option<Seq<char>>,
}

impl View for AuthForm {
    type V = FormView;

    open spec fn view(&self) -> FormView {
        FormView {
            kind: self.kind@,
            user: self.user@,
            password: maybe_text(self.password),
            token: maybe_text(self.token),
        }
    }
}

/// What becomes of a `GET`.
pub enum GetPlan {
    /// It is answered with this.
    Reply(Response),
    /// The history file is to be read, and `Chat::get_messages` answers.
    ReadHistory,
}

/// What becomes of a `POST`.
pub enum PostPlan {
    /// It is answered with this.
    Reply(Response),
    /// The history file is to be read, and `Chat::finish_send` goes on with
    /// this message.
    Send(Draft),
    /// The file of the accounts is to be read, and `Chat::finish_auth` goes
    /// on with this form.
    Auth(AuthForm),
}

/// What `PostPlan` is.
pub enum PostPlanView {
    Reply(ResponseView),
    Send(Seq<char>, Seq<char>),
    Auth(FormView),
}

impl View for PostPlan {
    type V = PostPlanView;

    open spec fn view(&self) -> PostPlanView {
        match self {
            PostPlan::Reply(res) => PostPlanView::Reply(res@),
            PostPlan::Send(draft) => PostPlanView::Send(draft.user@, draft.content@),
            PostPlan::Auth(form) => PostPlanView::Auth(form@),
        }
    }
}

/// The names of the fields of a message that is sent.
pub open spec fn send_fields() -> Seq<Seq<char>> {
    seq!["user"@, "content"@, "token"@]
}

/// The names of the fields of a form for the accounts.
pub open spec fn auth_fields() -> Seq<Seq<char>> {
    seq!["type"@, "user"@, "password"@, "token"@]
}

/// The names of the fields of an account.
pub open spec fn account_fields() -> Seq<Seq<char>> {
    seq!["user"@, "password"@]
}

/// What becomes of a message that is posted: it needs its three fields, and
/// the token of a user who is logged in.
pub open spec fn send_plan(tokens: Seq<Entry>, body: Seq<u8>) -> PostPlanView {
    match json_fields(body, send_fields()) {
        None => PostPlanView::Reply(reply(400, "error"@, "Invalid request json"@)),
        Some(fields) => match (fields[0], fields[1], fields[2]) {
            (None, _, _) => PostPlanView::Reply(reply(400, "error"@, "No user field"@)),
            (Some(_), None, _) => PostPlanView::Reply(reply(400, "error"@, "No content field"@)),
            (Some(_), Some(_), None) => PostPlanView::Reply(
                reply(400, "error"@, "No token field"@),
            ),
            (Some(user), Some(content), Some(token)) => match lookup(tokens, user) {
                None => PostPlanView::Reply(reply(401, "error"@, "User not logged in"@)),
                Some(held) => if held == token {
                    PostPlanView::Send(user, content)
                } else {
                    PostPlanView::Reply(reply(401, "error"@, "Invalid token"@))
                },
            },
        },
    }
}

/// What becomes of a form that is posted: it needs a type and a user.
pub open spec fn auth_plan(body: Seq<u8>) -> PostPlanView {
    match json_fields(body, auth_fields()) {
        None => PostPlanView::Reply(reply(400, "error"@, "Invalid json"@)),
        Some(fields) => match (fields[0], fields[1]) {
            (None, _) => PostPlanView::Reply(reply(400, "error"@, "No auth type given"@)),
            (Some(_), None) => PostPlanView::Reply(reply(400, "error"@, "No user given"@)),
            (Some(kind), Some(user)) => PostPlanView::Auth(
                FormView { kind, user, password: fields[2], token: fields[3] },
            ),
        },
    }
}

/// What becomes of a `POST`. It needs a body, and a path that ends in
/// `/send` or in `/auth`.
pub open spec fn post_plan(tokens: Seq<Entry>, req: RequestView) -> PostPlanView {
    if req.data.len() == 0 {
        PostPlanView::Reply(basic_response(400, "Bad Request (No data)"@))
    } else if rfind_char(req.endpoint, '/') is None {
        PostPlanView::Reply(basic_response(400, "Bad Request"@))
    } else if last_segment(req.endpoint) == "send"@ {
        send_plan(tokens, req.data)
    } else if last_segment(req.endpoint) == "auth"@ {
        auth_plan(req.data)
    } else {
        PostPlanView::Reply(basic_response(400, "Bad Request"@))
    }
}

/// The answer to a `GET` of the messages, given what reading the history
/// file gave.
pub open spec fn messages_response(history: Option<Seq<u8>>) -> ResponseView {
    match history {
        Some(content) => ResponseView {
            code: 200,
            content_type: "application/json"@,
            data: content,
            headers: Seq::empty(),
        },
        None => server_error(),
    }
}

/// The names of the members of a message in the history.
pub open spec fn message_fields() -> Seq<Seq<char>> {
    seq!["user"@, "content"@, "timestamp"@]
}

/// A message as the history holds it: the JSON object with the user, the
/// content and the time.
pub open spec fn message_text(user: Seq<char>, content: Seq<char>, now: u64) -> Option<Seq<char>> {
    match (json_quoted(user), json_quoted(content)) {
        (Some(u), Some(c)) => json_object(message_fields(), seq![u, c, decimal(now as nat)]),
        _ => None,
    }
}

/// The new content of a file that holds a list under `key`, once `member`
/// has joined the items.
pub open spec fn grown(key: Seq<char>, items: Seq<Seq<char>>, member: Option<Seq<char>>)
    -> Option<Seq<u8>> {
    match member {
        Some(m) => match list_document(key, items.push(m)) {
            Some(text) => Some(encode_utf8(text)),
            None => None,
        },
        None => None,
    }
}

/// What sending a message ends in: the answer, and the new content of the
/// history file where the message was added. `history` is what reading the
/// file gave, `now` the time in milliseconds.
pub open spec fn send_outcome(
    user: Seq<char>,
    content: Seq<char>,
    history: Option<Seq<u8>>,
    now: u64,
) -> (ResponseView, Option<Seq<u8>>) {
    match history {
        None => (server_error(), None),
        Some(doc) => match items_of(doc, "messages"@) {
            None => (server_error(), None),
            Some(items) => match grown("messages"@, items, message_text(user, content, now)) {
                Some(bytes) => (reply(200, "success"@, "message sent"@), Some(bytes)),
                None => (server_error(), None),
            },
        },
    }
}

/// Whether an account, given as its JSON text, is the one of `user`.
pub open spec fn is_account_of(account: Seq<char>, user: Seq<char>) -> bool {
    match json_fields(encode_utf8(account), account_fields()) {
        Some(fields) => fields[0] == Some(user),
        None => false,
    }
}

/// Whether an account, given as its JSON text, is the one of `user` and
/// holds this hashed password.
pub open spec fn opens_account(account: Seq<char>, user: Seq<char>, password: Seq<char>) -> bool {
    match json_fields(encode_utf8(account), account_fields()) {
        Some(fields) => fields[0] == Some(user) && fields[1] == Some(password),
        None => false,
    }
}

/// An account as the list of accounts holds it: the JSON object with the
/// user and the hashed password.
pub open spec fn account_text(user: Seq<char>, password: Seq<char>) -> Option<Seq<char>> {
    match (json_quoted(user), json_quoted(password)) {
        (Some(u), Some(p)) => json_object(account_fields(), seq![u, p]),
        _ => None,
    }
}

/// What ends a request to the accounts.
pub struct AuthOutcome {
    /// The tokens afterwards.
    pub tokens: Seq<Entry>,
    /// The answer.
    pub response: ResponseView,
    /// The new content of the file of the accounts, where it changes.
    pub write: Option<Seq<u8>>,
}

/// An outcome that changes nothing and answers with `response`.
pub open spec fn answer(tokens: Seq<Entry>, response: ResponseView) -> AuthOutcome {
    AuthOutcome { tokens, response, write: None }
}

/// What creating an account ends in: status 422 where the user has one,
/// status 400 without a password, else the account joins the list.
pub open spec fn new_outcome(tokens: Seq<Entry>, form: FormView, accounts: Seq<Seq<char>>)
    -> AuthOutcome {
    if exists|i: int| 0 <= i < accounts.len() && is_account_of(#[trigger] accounts[i], form.user) {
        answer(tokens, reply(422, "error"@, "User already exists"@))
    } else {
        match form.password {
            None => answer(tokens, reply(400, "error"@, "No password"@)),
            Some(password) => match grown(
                "users"@,
                accounts,
                account_text(form.user, hashed(password)),
            ) {
                None => answer(tokens, server_error()),
                Some(bytes) => AuthOutcome {
                    tokens,
                    response: reply(200, "success"@, "Created new user "@ + form.user),
                    write: Some(bytes),
                },
            },
        }
    }
}

/// What logging in ends in: with the password of an account of the user,
/// the user gets the token that `entropy` writes in base 16.
pub open spec fn login_outcome(
    tokens: Seq<Entry>,
    form: FormView,
    accounts: Seq<Seq<char>>,
    entropy: Seq<u8>,
) -> AuthOutcome {
    match form.password {
        None => answer(tokens, reply(400, "error"@, "No password"@)),
        Some(password) => if exists|i: int|
            0 <= i < accounts.len() && opens_account(
                #[trigger] accounts[i],
                form.user,
                hashed(password),
            ) {
            AuthOutcome {
                tokens: with_entry(tokens, form.user, hex(entropy)),
                response: reply(200, "token"@, hex(entropy)),
                write: None,
            }
        } else {
            answer(tokens, reply(401, "error"@, "Invalid username or password"@))
        },
    }
}

/// What checking a token ends in.
pub open spec fn check_outcome(tokens: Seq<Entry>, form: FormView) -> AuthOutcome {
    match lookup(tokens, form.user) {
        None => answer(
            tokens,
            reply(401, "error"@, "User "@ + form.user + " is not logged in"@),
        ),
        Some(held) => {
            let given = match form.token {
                Some(t) => t,
                None => Seq::empty(),
            };
            if held == given {
                answer(tokens, reply(200, "success"@, "Token is valid"@))
            } else {
                answer(tokens, reply(401, "error"@, "Token is invalid"@))
            }
        },
    }
}

/// What a request to the accounts ends in. `accounts` is what reading the
/// file of the accounts gave, `entropy` the random bytes for a new token.
pub open spec fn auth_outcome(
    tokens: Seq<Entry>,
    form: FormView,
    accounts: Option<Seq<u8>>,
    entropy: Seq<u8>,
) -> AuthOutcome {
    match accounts {
        None => answer(tokens, server_error()),
        Some(doc) => match items_of(doc, "users"@) {
            None => answer(tokens, server_error()),
            Some(items) => if form.kind == "new"@ {
                new_outcome(tokens, form, items)
            } else if form.kind == "login"@ {
                login_outcome(tokens, form, items, entropy)
            } else if form.kind == "check"@ {
                check_outcome(tokens, form)
            } else {
                answer(tokens, reply(400, "error"@, "Unknown auth type "@ + form.kind))
            },
        },
    }
}

/// The message board.
pub struct Chat<'a> {
    endpoint: &'a str,
    tokens: Headers,
}

fn reply_with(code: u16, key: &str, message: &str) -> (r: Response)
    ensures
        r@ == reply(code, key@, message@),
{
    match write_pair(key, message) {
        Some(text) => Response::json(code, text.as_str()),
        None => Response::basic(500, "Internal Server Error"),
    }
}

fn write_object_of(keys: &[&str], given: Vec<Option<String>>) -> (r: Option<String>)
    requires
        keys@.len() == given@.len(),
    ensures
        maybe_text(r) == if forall|i: int| 0 <= i < given@.len() ==> given@[i] is Some {
            json_object(names_view(keys@), Seq::new(given@.len(), |i: int| given@[i]->Some_0@))
        } else {
            None
        },
{
    let mut texts: Vec<String> = Vec::new();
    let mut values = given;
    let n = values.len();
    let mut i: usize = 0;
    while i < n
        invariant
            i <= n == given@.len(),
            values@.len() == n,
            forall|j: int| i <= j < n ==> values@[j] == given@[j],
            texts@.len() == i,
            forall|j: int| 0 <= j < i ==> given@[j] is Some && texts@[j]@ == given@[j]->Some_0@,
        decreases n - i,
    {
        let mut taken: Option<String> = None;
        core::mem::swap(&mut values[i], &mut taken);
        match taken {
            Some(text) => {
                texts.push(text);
            },
            None => {
                assert(given@[i as int] is None);
                return None;
            },
        }
        i += 1;
    }
    assert(texts_view(texts@) =~= Seq::new(given@.len(), |i: int| given@[i]->Some_0@));
    write_object(keys, texts.as_slice())
}

/// Grows a list by one member and writes the document that holds it under
/// `key`, as the bytes of the file.
fn grow(key: &str, items: Vec<String>, member: Option<String>) -> (r: Option<Vec<u8>>)
    ensures
        content_of(r) == grown(key@, texts_view(items@), maybe_text(member)),
{
    let mut items = items;
    let member = match member {
        Some(m) => m,
        None => {
            return None;
        },
    };
    let ghost before = texts_view(items@);
    items.push(member);
    assert(texts_view(items@) =~= before.push(member@));
    match write_list(key, &items) {
        Some(text) => {
            let mut bytes: Vec<u8> = Vec::new();
            bytes.extend_from_slice(text.as_str().as_bytes());
            assert(bytes@ =~= encode_utf8(text@));
            Some(bytes)
        },
        None => None,
    }
}

fn tail_of(path: &str) -> (r: Option<Vec<char>>)
    ensures
        match r {
            Some(tail) => rfind_char(path@, '/') is Some && tail@ == last_segment(path@),
            None => rfind_char(path@, '/') is None,
        },
{
    let chars = chars_of(path);
    let len = chars.len();
    match last_index_of(chars.as_slice(), '/') {
        Some(i) => {
            proof {
                lemma_rfind_char(chars@, '/');
            }
            assert(chars@.subrange(i + 1, len as int) =~= chars@.skip(i + 1));
            Some(copy_range(chars.as_slice(), i + 1, len))
        },
        None => None,
    }
}

fn account_matches(account: &str, user: &str, password: Option<&str>) -> (r: bool)
    ensures
        r == match password {
            Some(p) => opens_account(account@, user@, p@),
            None => is_account_of(account@, user@),
        },
{
    let names: [&str; 2] = ["user", "password"];
    assert(names_view(names@) =~= account_fields());
    match read_fields(account.as_bytes(), names.as_slice()) {
        None => false,
        Some(fields) => {
            let same_user = match &fields[0] {
                Some(held) => same_text(held.as_str(), user),
                None => false,
            };
            match password {
                None => same_user,
                Some(p) => same_user && match &fields[1] {
                    Some(held) => same_text(held.as_str(), p),
                    None => false,
                },
            }
        },
    }
}

fn any_account(accounts: &Vec<String>, user: &str, password: Option<&str>) -> (r: bool)
    ensures
        r == match password {
            Some(p) => exists|i: int|
                0 <= i < accounts@.len() && opens_account(
                    #[trigger] texts_view(accounts@)[i],
                    user@,
                    p@,
                ),
            None => exists|i: int|
                0 <= i < accounts@.len() && is_account_of(
                    #[trigger] texts_view(accounts@)[i],
                    user@,
                ),
        },
{
    let mut i: usize = 0;
    while i < accounts.len()
        invariant
            i <= accounts@.len(),
            match password {
                Some(p) => forall|j: int|
                    0 <= j < i ==> !opens_account(
                        #[trigger] texts_view(accounts@)[j],
                        user@,
                        p@,
                    ),
                None => forall|j: int|
                    0 <= j < i ==> !is_account_of(#[trigger] texts_view(accounts@)[j], user@),
            },
        decreases accounts@.len() - i,
    {
        if account_matches(accounts[i].as_str(), user, password) {
            assert(texts_view(accounts@)[i as int] == accounts@[i as int]@);
            return true;
        }
        assert(texts_view(accounts@)[i as int] == accounts@[i as int]@);
        i += 1;
    }
    false
}

impl<'a> Chat<'a> {
    /// A message board for the paths that begin with `endpoint`, with nobody
    /// logged in.
    pub fn new(endpoint: &'a str) -> (r: Self)
        ensures
            r.prefix() == endpoint@,
            r.tokens() == Seq::<Entry>::empty(),
    {
        Self { endpoint, tokens: Headers::new() }
    }

    /// The prefix of the paths that the board owns.
    pub closed spec fn prefix(&self) -> Seq<char> {
        self.endpoint@
    }

    /// The token of each user who is logged in.
    pub closed spec fn tokens(&self) -> Seq<Entry> {
        self.tokens@
    }

    /// The prefix of the paths that the board owns.
    pub fn get_endpoint(&self) -> (r: &str)
        ensures
            r@ == self.prefix(),
    {
        self.endpoint
    }

    /// The token that a user holds.
    pub fn token_of(&self, user: &str) -> (r: Option<&String>)
        ensures
            match r {
                Some(t) => lookup(self.tokens(), user@) == Some(t@),
                None => lookup(self.tokens(), user@) is None,
            },
    {
        self.tokens.get(user)
    }

    /// What becomes of a `GET`: the messages are read where the path ends in
    /// `messages`, anything else is not found.
    pub fn handle_get(&self, req: &Request) -> (r: GetPlan)
        ensures
            match r {
                GetPlan::ReadHistory => last_segment(req@.endpoint) == "messages"@,
                GetPlan::Reply(res) => last_segment(req@.endpoint) != "messages"@ && res@
                    == basic_response(404, "Not Found"@),
            },
    {
        let wanted = chars_of("messages");
        let path = chars_of(req.get_endpoint());
        let last = last_segment_chars(path.as_slice());
        let is_messages = same_chars(last.as_slice(), wanted.as_slice());
        if is_messages {
            GetPlan::ReadHistory
        } else {
            GetPlan::Reply(Response::basic(404, "Not Found"))
        }
    }

    /// The answer to a `GET` of the messages: the history as it was read,
    /// or status 500 where it could not be read.
    pub fn get_messages(history: Option<Vec<u8>>) -> (r: Response)
        ensures
            r@ == messages_response(content_of(history)),
    {
        match history {
            Some(content) => {
                let mut res = Response::new(200, "application/json");
                res.set_data(content);
                res
            },
            None => Response::basic(500, "Internal Server Error"),
        }
    }

    fn plan_send(&self, body: &[u8]) -> (r: PostPlan)
        ensures
            r@ == send_plan(self.tokens(), body@),
    {
        let names: [&str; 3] = ["user", "content", "token"];
        assert(names_view(names@) =~= send_fields());
        let mut fields = match read_fields(body, names.as_slice()) {
            Some(fields) => fields,
            None => {
                return PostPlan::Reply(reply_with(400, "error", "Invalid request json"));
            },
        };
        let ghost all = fields_view(fields@);
        assert(all[0] == maybe_text(fields@[0]));
        assert(all[1] == maybe_text(fields@[1]));
        assert(all[2] == maybe_text(fields@[2]));
        let token = fields.pop().unwrap();
        let content = fields.pop().unwrap();
        let user = fields.pop().unwrap();
        let user = match user {
            Some(u) => u,
            None => {
                return PostPlan::Reply(reply_with(400, "error", "No user field"));
            },
        };
        let content = match content {
            Some(c) => c,
            None => {
                return PostPlan::Reply(reply_with(400, "error", "No content field"));
            },
        };
        let token = match token {
            Some(t) => t,
            None => {
                return PostPlan::Reply(reply_with(400, "error", "No token field"));
            },
        };
        match self.tokens.get(user.as_str()) {
            None => PostPlan::Reply(reply_with(401, "error", "User not logged in")),
            Some(held) => if same_text(held.as_str(), token.as_str()) {
                PostPlan::Send(Draft { user, content })
            } else {
                PostPlan::Reply(reply_with(401, "error", "Invalid token"))
            },
        }
    }

    fn plan_auth(body: &[u8]) -> (r: PostPlan)
        ensures
            r@ == auth_plan(body@),
    {
        let names: [&str; 4] = ["type", "user", "password", "token"];
        assert(names_view(names@) =~= auth_fields());
        let mut fields = match read_fields(body, names.as_slice()) {
            Some(fields) => fields,
            None => {
                return PostPlan::Reply(reply_with(400, "error", "Invalid json"));
            },
        };
        let ghost all = fields_view(fields@);
        assert(all[0] == maybe_text(fields@[0]));
        assert(all[1] == maybe_text(fields@[1]));
        assert(all[2] == maybe_text(fields@[2]));
        assert(all[3] == maybe_text(fields@[3]));
        let token = fields.pop().unwrap();
        let password = fields.pop().unwrap();
        let user = fields.pop().unwrap();
        let kind = fields.pop().unwrap();
        let kind = match kind {
            Some(k) => k,
            None => {
                return PostPlan::Reply(reply_with(400, "error", "No auth type given"));
            },
        };
        let user = match user {
            Some(u) => u,
            None => {
                return PostPlan::Reply(reply_with(400, "error", "No user given"));
            },
        };
        PostPlan::Auth(AuthForm { kind, user, password, token })
    }

    /// What becomes of a `POST`: it is answered at once, or a file is to be
    /// read first.
    pub fn handle_post(&self, req: &Request) -> (r: PostPlan)
        ensures
            r@ == post_plan(self.tokens(), req@),
    {
        let body = req.get_data();
        if body.len() == 0 {
            return PostPlan::Reply(Response::basic(400, "Bad Request (No data)"));
        }
        let tail = match tail_of(req.get_endpoint()) {
            Some(t) => t,
            None => {
                return PostPlan::Reply(Response::basic(400, "Bad Request"));
            },
        };
        let send = chars_of("send");
        let auth = chars_of("auth");
        if same_chars(tail.as_slice(), send.as_slice()) {
            self.plan_send(body.as_slice())
        } else if same_chars(tail.as_slice(), auth.as_slice()) {
            Self::plan_auth(body.as_slice())
        } else {
            PostPlan::Reply(Response::basic(400, "Bad Request"))
        }
    }

    /// Adds a message to the history. `history` is what reading
    /// `CHAT_HISTORY_FILE` gave, `now` the time in milliseconds since 1970.
    /// Returns the answer and, where the message was added, the new content
    /// of the file.
    pub fn finish_send(draft: &Draft, history: Option<Vec<u8>>, now: u64) -> (r: (
        Response,
        Option<Vec<u8>>,
    ))
        ensures
            (r.0@, content_of(r.1)) == send_outcome(
                draft.user@,
                draft.content@,
                content_of(history),
                now,
            ),
    {
        let doc = match history {
            Some(doc) => doc,
            None => {
                return (Response::basic(500, "Internal Server Error"), None);
            },
        };
        let items = match list_items(doc.as_slice(), "messages") {
            Some(items) => items,
            None => {
                return (Response::basic(500, "Internal Server Error"), None);
            },
        };
        let keys: [&str; 3] = ["user", "content", "timestamp"];
        assert(names_view(keys@) =~= message_fields());
        let mut values: Vec<Option<String>> = Vec::new();
        values.push(quote(draft.user.as_str()));
        values.push(quote(draft.content.as_str()));
        values.push(Some(string_of(decimal_chars(now).as_slice())));
        proof {
            if json_quoted(draft.user@) is Some && json_quoted(draft.content@) is Some {
                assert(Seq::new(values@.len(), |i: int| values@[i]->Some_0@) =~= seq![
                    json_quoted(draft.user@)->Some_0,
                    json_quoted(draft.content@)->Some_0,
                    decimal(now as nat),
                ]);
            } else {
                assert(values@[0] is None || values@[1] is None);
            }
        }
        let message = write_object_of(keys.as_slice(), values);
        match grow("messages", items, message) {
            Some(bytes) => (reply_with(200, "success", "message sent"), Some(bytes)),
            None => (Response::basic(500, "Internal Server Error"), None),
        }
    }

    fn finish_new(form: &AuthForm, accounts: Vec<String>) -> (r: (Response, Option<Vec<u8>>))
        ensures
            r.0@ == new_outcome(Seq::empty(), form@, texts_view(accounts@)).response,
            content_of(r.1) == new_outcome(
                Seq::empty(),
                form@,
                texts_view(accounts@),
            ).write,
    {
        if any_account(&accounts, form.user.as_str(), None) {
            return (reply_with(422, "error", "User already exists"), None);
        }
        let password = match &form.password {
            Some(p) => p,
            None => {
                return (reply_with(400, "error", "No password"), None);
            },
        };
        let digest = hex_string(sha256(password.as_str().as_bytes()).as_slice());
        let keys: [&str; 2] = ["user", "password"];
        assert(names_view(keys@) =~= account_fields());
        let mut values: Vec<Option<String>> = Vec::new();
        values.push(quote(form.user.as_str()));
        values.push(quote(digest.as_str()));
        proof {
            if json_quoted(form.user@) is Some && json_quoted(digest@) is Some {
                assert(Seq::new(values@.len(), |i: int| values@[i]->Some_0@) =~= seq![
                    json_quoted(form.user@)->Some_0,
                    json_quoted(digest@)->Some_0,
                ]);
            } else {
                assert(values@[0] is None || values@[1] is None);
            }
        }
        let account = write_object_of(keys.as_slice(), values);
        match grow("users", accounts, account) {
            Some(bytes) => {
                let mut message = String::from_str("Created new user ");
                message.append(form.user.as_str());
                (reply_with(200, "success", message.as_str()), Some(bytes))
            },
            None => (Response::basic(500, "Internal Server Error"), None),
        }
    }

    /// Ends a request to the accounts. `accounts` is what reading
    /// `AUTH_FILE` gave, `entropy` sixteen random bytes for the token of a
    /// user who logs in. Returns the answer and, where an account was
    /// created, the new content of the file.
    pub fn finish_auth(&mut self, form: &AuthForm, accounts: Option<Vec<u8>>, entropy: [u8; 16])
        -> (r: (Response, Option<Vec<u8>>))
        ensures
            final(self).prefix() == old(self).prefix(),
            (AuthOutcome {
                tokens: final(self).tokens(),
                response: r.0@,
                write: content_of(r.1),
            }) == auth_outcome(old(self).tokens(), form@, content_of(accounts), entropy@),
    {
        let doc = match accounts {
            Some(doc) => doc,
            None => {
                return (Response::basic(500, "Internal Server Error"), None);
            },
        };
        let items = match list_items(doc.as_slice(), "users") {
            Some(items) => items,
            None => {
                return (Response::basic(500, "Internal Server Error"), None);
            },
        };
        if same_text(form.kind.as_str(), "new") {
            Self::finish_new(form, items)
        } else if same_text(form.kind.as_str(), "login") {
            let password = match &form.password {
                Some(p) => p,
                None => {
                    return (reply_with(400, "error", "No password"), None);
                },
            };
            let digest = hex_string(sha256(password.as_str().as_bytes()).as_slice());
            if any_account(&items, form.user.as_str(), Some(digest.as_str())) {
                let token = hex_string(entropy.as_slice());
                let res = reply_with(200, "token", token.as_str());
                self.tokens.insert(form.user.clone(), token);
                (res, None)
            } else {
                (reply_with(401, "error", "Invalid username or password"), None)
            }
        } else if same_text(form.kind.as_str(), "check") {
            match self.tokens.get(form.user.as_str()) {
                None => {
                    let mut message = String::from_str("User ");
                    message.append(form.user.as_str());
                    message.append(" is not logged in");
                    (reply_with(401, "error", message.as_str()), None)
                },
                Some(held) => {
                    let given = match &form.token {
                        Some(t) => t.as_str(),
                        None => "",
                    };
                    proof {
                        reveal_strlit("");
                        assert(""@ =~= Seq::<char>::empty());
                    }
                    if same_text(held.as_str(), given) {
                        (reply_with(200, "success", "Token is valid"), None)
                    } else {
                        (reply_with(401, "error", "Token is invalid"), None)
                    }
                },
            }
        } else {
            let mut message = String::from_str("Unknown auth type ");
            message.append(form.kind.as_str());
            (reply_with(400, "error", message.as_str()), None)
        }
    }

    /// The answer once a file was to be written: the answer that was
    /// planned where the file was written, and status 500 where it was not.
    pub fn after_write(answer: Response, written: bool) -> (r: Response)
        ensures
            r@ == if written {
                answer@
            } else {
                server_error()
            },
    {
        if written {
            answer
        } else {
            Response::basic(500, "Internal Server Error")
        }
    }

    /// Adds a message to the history, with the time that it is now. `history`
    /// is what reading `CHAT_HISTORY_FILE` gave. Returns the answer and,
    /// where the message was added, the new content of the file. Where the
    /// clock gives no time, the answer is status 500 and nothing is added.
    pub fn handle_send_message(draft: &Draft, history: Option<Vec<u8>>) -> (r: (
        Response,
        Option<Vec<u8>>,
    ))
        ensures
            (r.0@ == server_error() && r.1 is None) || exists|now: u64|
                (r.0@, content_of(r.1)) == #[trigger] send_outcome(
                    draft.user@,
                    draft.content@,
                    content_of(history),
                    now,
                ),
    {
        match now_millis() {
            Some(now) => {
                let r = Self::finish_send(draft, history, now);
                assert((r.0@, content_of(r.1)) == send_outcome(
                    draft.user@,
                    draft.content@,
                    content_of(history),
                    now,
                ));
                r
            },
            None => (Response::basic(500, "Internal Server Error"), None),
        }
    }

    /// Ends a request to the accounts, with a random token for a user who
    /// logs in. `accounts` is what reading `AUTH_FILE` gave. Returns the
    /// answer and, where an account was created, the new content of the
    /// file.
    pub fn handle_auth(&mut self, form: &AuthForm, accounts: Option<Vec<u8>>) -> (r: (
        Response,
        Option<Vec<u8>>,
    ))
        ensures
            final(self).prefix() == old(self).prefix(),
            exists|entropy: Seq<u8>|
                entropy.len() == 16 && (AuthOutcome {
                    tokens: final(self).tokens(),
                    response: r.0@,
                    write: content_of(r.1),
                }) == #[trigger] auth_outcome(
                    old(self).tokens(),
                    form@,
                    content_of(accounts),
                    entropy,
                ),
    {
        let entropy = random_bytes();
        let r = self.finish_auth(form, accounts, entropy);
        assert(entropy@.len() == 16 && (AuthOutcome {
            tokens: self.tokens(),
            response: r.0@,
            write: content_of(r.1),
        }) == auth_outcome(old(self).tokens(), form@, content_of(accounts), entropy@));
        r
    }
}

} // verus!
