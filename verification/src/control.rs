//! The control interface for other programs on the same machine.
//!
//! But for the question whether the service is up, every request has to carry the token that stands
//! in a private file.

use vstd::prelude::*;

use crate::json;
use crate::json::{Json, JsonView};
use crate::private_fs;
use crate::private_fs::{FileStep, FileStepView};
use crate::text;

verus! {

// ---------------------------------------------------------------------------
// What is asked and answered
// ---------------------------------------------------------------------------

/// A quota as it is told to other programs.
pub struct QuotaSnapshot {
    pub window: String,
    /// The part that is used, where it is known.
    pub used_ratio: Option<serde_json::Number>,
    pub text: String,
    pub reset_at: Option<String>,
}

/// An account as it is told to other programs.
pub struct AccountSnapshot {
    pub id: String,
    pub label: String,
    pub active: bool,
    pub membership: Option<String>,
    pub subscription_expires_on: Option<String>,
    pub routing_enabled: bool,
    pub quotas: Vec<QuotaSnapshot>,
    pub error: Option<String>,
}

/// What another program asks for.
#[derive(Debug)]
pub enum Action {
    List,
    Refresh,
    Activate(String),
}

/// What an action says.
pub enum ActionView {
    List,
    Refresh,
    Activate(Seq<char>),
}

impl Action {
    pub open spec fn view(&self) -> ActionView {
        match self {
            Action::List => ActionView::List,
            Action::Refresh => ActionView::Refresh,
            Action::Activate(id) => ActionView::Activate(id@),
        }
    }
}

/// What the application answers.
pub enum Reply {
    Accounts { accounts: Vec<AccountSnapshot>, message: Option<String> },
    Error(String),
}

/// Where the service is found.
#[derive(Debug)]
pub struct Info {
    pub base_url: String,
    pub token_file: std::path::PathBuf,
}

impl Info {
    /// Where a service is found that listens at an address.
    pub fn new(address: &str, token_file: std::path::PathBuf) -> (info: Info)
        ensures
            info.base_url@ == base_url_of(address@),
            info.token_file == token_file,
    {
        Info { base_url: text::join3("http://", address, "/v1"), token_file }
    }
}

/// The start of every address of the service.
pub open spec fn base_url_of(address: Seq<char>) -> Seq<char> {
    "http://"@ + address + "/v1"@
}

/// The methods of requests that are told apart.
#[derive(Debug, Clone, Copy, PartialEq, Eq, Structural)]
pub enum HttpMethod {
    Get,
    Post,
    Options,
    Other,
}

/// What is read of a request: its method, its address below the host, and its headers in order.
pub struct HttpRequest {
    pub method: HttpMethod,
    pub url: String,
    pub headers: Vec<(String, String)>,
}

/// What is read of a request.
pub struct HttpRequestView {
    pub method: HttpMethod,
    pub url: Seq<char>,
    pub headers: Seq<(Seq<char>, Seq<char>)>,
}

/// What headers say, one by one.
pub open spec fn headers_view(headers: Seq<(String, String)>) -> Seq<(Seq<char>, Seq<char>)> {
    headers.map_values(|header: (String, String)| (header.0@, header.1@))
}

impl HttpRequest {
    pub open spec fn view(&self) -> HttpRequestView {
        HttpRequestView {
            method: self.method,
            url: self.url@,
            headers: headers_view(self.headers@),
        }
    }
}

/// What is to be done about a request.
pub enum Decision {
    /// Answer it, after its body was read away where that is said.
    Respond { status: u16, body: Json, drain: bool },
    /// Read its body away, and let the application act.
    Perform(Action),
}

/// What a decision says.
pub enum DecisionView {
    Respond { status: u16, body: JsonView, drain: bool },
    Perform(ActionView),
}

impl Decision {
    pub open spec fn view(&self) -> DecisionView {
        match self {
            Decision::Respond { status, body, drain } => DecisionView::Respond {
                status: *status,
                body: body@,
                drain: *drain,
            },
            Decision::Perform(action) => DecisionView::Perform(action@),
        }
    }
}

/// The largest part of a body that is read away, in bytes.
pub const MAX_BODY_BYTES: u64 = 16384;

/// How long the application has to answer, in seconds.
pub const REPLY_SECONDS: u64 = 60;

// ---------------------------------------------------------------------------
// Who may ask
// ---------------------------------------------------------------------------

/// Compares two texts with `subtle::ConstantTimeEq::ct_eq` on their bytes: whether they are equal.
/// That the time it takes does not depend on where they differ is not stated here.
#[verifier::external_body]
fn same_secret(left: &str, right: &str) -> (same: bool)
    ensures
        same == (left@ == right@),
{
    subtle::ConstantTimeEq::ct_eq(left.as_bytes(), right.as_bytes()).into()
}

/// The header that carries the token.
pub open spec fn token_header() -> Seq<char> {
    "X-Kimi-Router-Token"@
}

/// The value of the first header of a name, in whatever case the name is written.
pub open spec fn first_value(headers: Seq<(Seq<char>, Seq<char>)>, name: Seq<char>) -> Option<
    Seq<char>,
>
    decreases headers.len(),
{
    if headers.len() == 0 {
        None
    } else if text::lowered_ascii(headers[0].0) == text::lowered_ascii(name) {
        Some(headers[0].1)
    } else {
        first_value(headers.drop_first(), name)
    }
}

/// Whether the headers carry the token.
pub open spec fn carries_token(headers: Seq<(Seq<char>, Seq<char>)>, token: Seq<char>) -> bool {
    first_value(headers, token_header()) == Some(token)
}

/// Whether a request carries the token.
pub fn authorized(request: &HttpRequest, expected: &str) -> (may: bool)
    ensures
        may == carries_token(request@.headers, expected@),
{
    let ghost headers = request@.headers;
    let name = text::to_ascii_lowercase("X-Kimi-Router-Token");
    let mut at: usize = 0;
    proof {
        assert(headers.skip(0) =~= headers);
    }
    while at < request.headers.len()
        invariant
            at <= request.headers@.len(),
            headers == headers_view(request.headers@),
            name@ == text::lowered_ascii(token_header()),
            first_value(headers, token_header()) == first_value(
                headers.skip(at as int),
                token_header(),
            ),
        decreases request.headers@.len() - at,
    {
        let field = text::to_ascii_lowercase(request.headers[at].0.as_str());
        proof {
            assert(headers.skip(at as int)[0] == headers[at as int]);
            assert(headers.skip(at as int).drop_first() =~= headers.skip(at + 1));
        }
        if text::same_text(field.as_str(), name.as_str()) {
            return same_secret(request.headers[at].1.as_str(), expected);
        }
        at += 1;
    }
    false
}

// ---------------------------------------------------------------------------
// What is asked
// ---------------------------------------------------------------------------

/// Whether a character may stand in the id of an account.
pub open spec fn is_id_char(c: char) -> bool {
    text::is_ascii_word(c) || c == '-' || c == '_' || c == '.'
}

/// Whether a text can be the id of an account: letters, digits, hyphens, underscores and dots of
/// ASCII, at least one and at most 160 of them.
pub open spec fn is_account_id(id: Seq<char>) -> bool {
    &&& 0 < id.len() <= 160
    &&& forall|i: int| 0 <= i < id.len() ==> is_id_char(#[trigger] id[i])
}

/// Whether a text can be the id of an account.
pub fn valid_account_id(id: &str) -> (valid: bool)
    ensures
        valid == is_account_id(id@),
{
    let chars = text::chars_of(id);
    if chars.len() == 0 || chars.len() > 160 {
        return false;
    }
    let mut at: usize = 0;
    while at < chars.len()
        invariant
            at <= chars@.len(),
            chars@ == id@,
            forall|i: int| 0 <= i < at ==> is_id_char(#[trigger] chars@[i]),
        decreases chars@.len() - at,
    {
        let c = chars[at];
        let allowed = ('a' <= c && c <= 'z') || ('A' <= c && c <= 'Z') || ('0' <= c && c <= '9')
            || c == '-' || c == '_' || c == '.';
        if !allowed {
            proof {
                assert(!is_id_char(chars@[at as int]));
            }
            return false;
        }
        at += 1;
    }
    true
}

/// The position of the first question mark from a given one on, or the end.
pub open spec fn query_start(url: Seq<char>, from: int) -> int
    decreases url.len() - from,
{
    if from < 0 || from >= url.len() || url[from] == '?' {
        from
    } else {
        query_start(url, from + 1)
    }
}

/// An address without its query.
pub open spec fn path_of(url: Seq<char>) -> Seq<char> {
    url.take(query_start(url, 0))
}

/// An address without its query.
pub fn path_without_query(url: &str) -> (path: String)
    ensures
        path@ == path_of(url@),
{
    let chars = text::chars_of(url);
    let mut end: usize = 0;
    while end < chars.len() && chars[end] != '?'
        invariant
            end <= chars@.len(),
            query_start(chars@, 0) == query_start(chars@, end as int),
        decreases chars@.len() - end,
    {
        end += 1;
    }
    proof {
        assert(url@.subrange(0, end as int) =~= path_of(url@));
    }
    url.substring_char(0, end).to_owned()
}

/// The account that a path asks to activate.
pub open spec fn activation_in(path: Seq<char>) -> Option<Seq<char>> {
    let prefix = "/v1/accounts/"@;
    let suffix = "/activate"@;
    if text::begins_with(path, prefix) {
        let rest = path.skip(prefix.len() as int);
        if text::finishes_with(rest, suffix) && is_account_id(
            rest.take(rest.len() - suffix.len()),
        ) {
            Some(rest.take(rest.len() - suffix.len()))
        } else {
            None
        }
    } else {
        None
    }
}

fn read_activation(path: &str) -> (id: Option<String>)
    ensures
        id is Some == activation_in(path@) is Some,
        id matches Some(i) ==> activation_in(path@) == Some(i@),
{
    match text::strip_prefix(path, "/v1/accounts/") {
        Some(rest) => match text::strip_suffix(rest.as_str(), "/activate") {
            Some(id) => {
                if valid_account_id(id.as_str()) {
                    Some(id)
                } else {
                    None
                }
            },
            None => None,
        },
        None => None,
    }
}

/// A body that reports an error.
pub open spec fn error_body(error: Seq<char>) -> JsonView {
    JsonView::Object(Map::empty()).with_field("error"@, JsonView::Text(error))
}

/// The body that says that the service is up.
pub open spec fn health_body() -> JsonView {
    JsonView::Object(Map::empty()).with_field("ok"@, JsonView::Bool(true))
}

/// Whether a request only asks if the service is up.
pub open spec fn asks_health(request: HttpRequestView) -> bool {
    request.method == HttpMethod::Get && path_of(request.url) == "/v1/health"@
}

/// What is to be done about a request.
pub open spec fn decision(request: HttpRequestView, token: Seq<char>) -> DecisionView {
    let path = path_of(request.url);
    if asks_health(request) {
        DecisionView::Respond { status: 200, body: health_body(), drain: false }
    } else if !carries_token(request.headers, token) {
        DecisionView::Respond { status: 401, body: error_body("unauthorized"@), drain: false }
    } else if request.method == HttpMethod::Options {
        DecisionView::Respond { status: 204, body: JsonView::Object(Map::empty()), drain: false }
    } else if request.method == HttpMethod::Get && path == "/v1/accounts"@ {
        DecisionView::Perform(ActionView::List)
    } else if request.method == HttpMethod::Post && path == "/v1/refresh"@ {
        DecisionView::Perform(ActionView::Refresh)
    } else if request.method == HttpMethod::Post {
        match activation_in(path) {
            Some(id) => DecisionView::Perform(ActionView::Activate(id)),
            None => DecisionView::Respond {
                status: 404,
                body: error_body("not found"@),
                drain: true,
            },
        }
    } else {
        DecisionView::Respond { status: 405, body: error_body("method not allowed"@), drain: true }
    }
}

fn error_json(error: &str) -> (body: Json)
    ensures
        body@ == error_body(error@),
{
    Json::empty_object().and("error", Json::text(error))
}

/// What is to be done about a request.
pub fn handle(request: &HttpRequest, token: &str) -> (decided: Decision)
    ensures
        decided@ == decision(request@, token@),
{
    let path = path_without_query(request.url.as_str());
    if request.method == HttpMethod::Get && text::same_text(path.as_str(), "/v1/health") {
        let body = Json::empty_object().and("ok", Json::Bool(true));
        return Decision::Respond { status: 200, body, drain: false };
    }
    if !authorized(request, token) {
        return Decision::Respond { status: 401, body: error_json("unauthorized"), drain: false };
    }
    if request.method == HttpMethod::Options {
        return Decision::Respond { status: 204, body: Json::empty_object(), drain: false };
    }
    if request.method == HttpMethod::Get && text::same_text(path.as_str(), "/v1/accounts") {
        return Decision::Perform(Action::List);
    }
    if request.method == HttpMethod::Post && text::same_text(path.as_str(), "/v1/refresh") {
        return Decision::Perform(Action::Refresh);
    }
    if request.method == HttpMethod::Post {
        return match read_activation(path.as_str()) {
            Some(id) => Decision::Perform(Action::Activate(id)),
            None => Decision::Respond { status: 404, body: error_json("not found"), drain: true },
        };
    }
    Decision::Respond { status: 405, body: error_json("method not allowed"), drain: true }
}

// ---------------------------------------------------------------------------
// What is answered
// ---------------------------------------------------------------------------

/// What came of handing an action to the application.
pub enum WorkerOutcome {
    /// The application is gone.
    Unavailable,
    /// It answered.
    Answered(Reply),
    /// It did not answer in time.
    TimedOut,
}

/// An optional text in a body.
pub open spec fn optional_json(string: Option<String>) -> JsonView {
    match string {
        Some(s) => JsonView::Text(s@),
        None => JsonView::Null,
    }
}

/// A quota in a body.
pub open spec fn quota_json(quota: QuotaSnapshot) -> JsonView {
    JsonView::Object(Map::empty()).with_field(
        "window"@,
        JsonView::Text(quota.window@),
    ).with_field(
        "usedRatio"@,
        match quota.used_ratio {
            Some(ratio) => JsonView::Number(ratio),
            None => JsonView::Null,
        },
    ).with_field("text"@, JsonView::Text(quota.text@)).with_field(
        "resetAt"@,
        optional_json(quota.reset_at),
    )
}

/// An account in a body.
pub open spec fn account_json(account: AccountSnapshot) -> JsonView {
    JsonView::Object(Map::empty()).with_field("id"@, JsonView::Text(account.id@)).with_field(
        "label"@,
        JsonView::Text(account.label@),
    ).with_field("active"@, JsonView::Bool(account.active)).with_field(
        "membership"@,
        optional_json(account.membership),
    ).with_field(
        "subscriptionExpiresOn"@,
        optional_json(account.subscription_expires_on),
    ).with_field("routingEnabled"@, JsonView::Bool(account.routing_enabled)).with_field(
        "quotas"@,
        JsonView::Array(account.quotas@.map_values(|quota: QuotaSnapshot| quota_json(quota))),
    ).with_field("error"@, optional_json(account.error))
}

/// The body that lists accounts.
pub open spec fn accounts_body(accounts: Seq<AccountSnapshot>, message: Option<String>) -> JsonView {
    JsonView::Object(Map::empty()).with_field(
        "accounts"@,
        JsonView::Array(accounts.map_values(|account: AccountSnapshot| account_json(account))),
    ).with_field("message"@, optional_json(message))
}

/// The status and the body of the answer to a request that the application was to act on.
pub open spec fn worker_answer(outcome: WorkerOutcome) -> (u16, JsonView) {
    match outcome {
        WorkerOutcome::Unavailable => (503u16, error_body("application worker unavailable"@)),
        WorkerOutcome::Answered(Reply::Accounts { accounts, message }) => (
            200u16,
            accounts_body(accounts@, message),
        ),
        WorkerOutcome::Answered(Reply::Error(error)) => (400u16, error_body(error@)),
        WorkerOutcome::TimedOut => (504u16, error_body("application worker timeout"@)),
    }
}

fn print_quota(quota: &QuotaSnapshot) -> (tree: Json)
    ensures
        tree@ == quota_json(*quota),
{
    let ratio = match &quota.used_ratio {
        Some(ratio) => Json::Number(ratio.clone()),
        None => Json::Null,
    };
    Json::empty_object().and("window", Json::text(quota.window.as_str())).and(
        "usedRatio",
        ratio,
    ).and("text", Json::text(quota.text.as_str())).and(
        "resetAt",
        Json::optional_text(&quota.reset_at),
    )
}

fn print_account(account: &AccountSnapshot) -> (tree: Json)
    ensures
        tree@ == account_json(*account),
{
    let mut quotas: Vec<Json> = Vec::new();
    let mut at: usize = 0;
    while at < account.quotas.len()
        invariant
            at <= account.quotas@.len(),
            quotas@.len() == at,
            forall|i: int|
                0 <= i < at ==> (#[trigger] quotas@[i])@ == quota_json(account.quotas@[i]),
        decreases account.quotas@.len() - at,
    {
        quotas.push(print_quota(&account.quotas[at]));
        at += 1;
    }
    proof {
        assert(json::items_view(quotas@) =~= account.quotas@.map_values(
            |quota: QuotaSnapshot| quota_json(quota),
        ));
    }
    Json::empty_object().and("id", Json::text(account.id.as_str())).and(
        "label",
        Json::text(account.label.as_str()),
    ).and("active", Json::Bool(account.active)).and(
        "membership",
        Json::optional_text(&account.membership),
    ).and("subscriptionExpiresOn", Json::optional_text(&account.subscription_expires_on)).and(
        "routingEnabled",
        Json::Bool(account.routing_enabled),
    ).and("quotas", Json::Array(quotas)).and("error", Json::optional_text(&account.error))
}

fn print_accounts(accounts: &Vec<AccountSnapshot>, message: &Option<String>) -> (tree: Json)
    ensures
        tree@ == accounts_body(accounts@, *message),
{
    let mut items: Vec<Json> = Vec::new();
    let mut at: usize = 0;
    while at < accounts.len()
        invariant
            at <= accounts@.len(),
            items@.len() == at,
            forall|i: int| 0 <= i < at ==> (#[trigger] items@[i])@ == account_json(accounts@[i]),
        decreases accounts@.len() - at,
    {
        items.push(print_account(&accounts[at]));
        at += 1;
    }
    proof {
        assert(json::items_view(items@) =~= accounts@.map_values(
            |account: AccountSnapshot| account_json(account),
        ));
    }
    Json::empty_object().and("accounts", Json::Array(items)).and(
        "message",
        Json::optional_text(message),
    )
}

/// The status and the body of the answer to a request that the application was to act on.
pub fn worker_response(outcome: WorkerOutcome) -> (answer: (u16, Json))
    ensures
        (answer.0, answer.1@) == worker_answer(outcome),
{
    match outcome {
        WorkerOutcome::Unavailable => (503, error_json("application worker unavailable")),
        WorkerOutcome::Answered(Reply::Accounts { accounts, message }) => {
            (200, print_accounts(&accounts, &message))
        },
        WorkerOutcome::Answered(Reply::Error(error)) => (400, error_json(error.as_str())),
        WorkerOutcome::TimedOut => (504, error_json("application worker timeout")),
    }
}

/// An answer as it goes out.
pub struct HttpResponse {
    pub status: u16,
    pub headers: Vec<(String, String)>,
    pub body: String,
}

/// The headers of every answer.
pub open spec fn response_headers() -> Seq<(Seq<char>, Seq<char>)> {
    seq![
        ("Content-Type"@, "application/json; charset=utf-8"@),
        ("Cache-Control"@, "no-store"@),
        ("Referrer-Policy"@, "no-referrer"@),
        ("X-Content-Type-Options"@, "nosniff"@),
    ]
}

/// An answer as it goes out: the body on one line, and headers that keep it from being stored.
pub fn respond_json(status: u16, value: &Json) -> (response: HttpResponse)
    ensures
        response.status == status,
        response.body@ == json::compact_text(value@),
        headers_view(response.headers@) == response_headers(),
{
    let mut headers: Vec<(String, String)> = Vec::new();
    headers.push(("Content-Type".to_owned(), "application/json; charset=utf-8".to_owned()));
    headers.push(("Cache-Control".to_owned(), "no-store".to_owned()));
    headers.push(("Referrer-Policy".to_owned(), "no-referrer".to_owned()));
    headers.push(("X-Content-Type-Options".to_owned(), "nosniff".to_owned()));
    proof {
        assert(headers_view(headers@) =~= response_headers());
    }
    HttpResponse { status, headers, body: value.to_text() }
}

// ---------------------------------------------------------------------------
// The token
// ---------------------------------------------------------------------------

/// Whether a text can be a token: 256 bits in hexadecimal digits.
pub open spec fn is_token(token: Seq<char>) -> bool {
    &&& token.len() == 64
    &&& forall|i: int| 0 <= i < token.len() ==> text::is_hex_digit(#[trigger] token[i])
}

/// The token that a file holds, white space at its ends aside.
pub open spec fn token_in(contents: Seq<char>) -> Option<Seq<char>> {
    if is_token(text::trimmed(contents)) {
        Some(text::trimmed(contents))
    } else {
        None
    }
}

/// The token that a file holds, white space at its ends aside.
pub fn read_token(contents: &str) -> (token: Option<String>)
    ensures
        token is Some == token_in(contents@) is Some,
        token matches Some(t) ==> token_in(contents@) == Some(t@),
{
    let short = text::trim(contents);
    let chars = text::chars_of(short.as_str());
    if chars.len() != 64 {
        return None;
    }
    let mut at: usize = 0;
    while at < chars.len()
        invariant
            at <= chars@.len(),
            chars@ == text::trimmed(contents@),
            forall|i: int| 0 <= i < at ==> text::is_hex_digit(#[trigger] chars@[i]),
        decreases chars@.len() - at,
    {
        let c = chars[at];
        let hex = ('0' <= c && c <= '9') || ('a' <= c && c <= 'f') || ('A' <= c && c <= 'F');
        if !hex {
            proof {
                assert(!text::is_hex_digit(chars@[at as int]));
            }
            return None;
        }
        at += 1;
    }
    Some(short)
}

/// The hexadecimal digit of a number below sixteen, in lower case.
pub open spec fn hex_char(digit: int) -> char {
    if digit < 10 {
        ('0' as u32 + digit) as char
    } else {
        ('a' as u32 + digit - 10) as char
    }
}

/// Bytes in hexadecimal digits, two for each.
pub open spec fn hex_text(bytes: Seq<u8>) -> Seq<char> {
    Seq::new(
        2 * bytes.len(),
        |i: int|
            hex_char(
                if i % 2 == 0 {
                    bytes[i / 2] as int / 16
                } else {
                    bytes[i / 2] as int % 16
                },
            ),
    )
}

fn hex_digit(digit: u8) -> (c: char)
    requires
        digit < 16,
    ensures
        c == hex_char(digit as int),
{
    if digit < 10 {
        (48 + digit) as char
    } else {
        (87 + digit) as char
    }
}

/// Bytes in hexadecimal digits, two for each.
pub fn print_hex(bytes: &Vec<u8>) -> (digits: String)
    ensures
        digits@ == hex_text(bytes@),
{
    let mut digits = String::new();
    let mut at: usize = 0;
    while at < bytes.len()
        invariant
            at <= bytes@.len(),
            digits@ == hex_text(bytes@.take(at as int)),
        decreases bytes@.len() - at,
    {
        let ghost before = digits@;
        let byte = bytes[at];
        digits.push(hex_digit(byte / 16));
        digits.push(hex_digit(byte % 16));
        proof {
            let longer = hex_text(bytes@.take(at + 1));
            assert(digits@.len() == longer.len());
            assert forall|i: int| 0 <= i < longer.len() implies digits@[i] == longer[i] by {
                if i < 2 * at {
                    assert(before[i] == digits@[i]);
                    assert(i / 2 < at);
                } else {
                    assert(i / 2 == at);
                }
            }
            assert(digits@ =~= longer);
        }
        at += 1;
    }
    proof {
        assert(bytes@.take(bytes@.len() as int) =~= bytes@);
    }
    digits
}

/// Calls `rand::RngCore::try_fill_bytes` of `rand::rngs::OsRng` for 32 bytes. Which bytes they are
/// is left to chance, and the system may give none.
#[verifier::external_body]
fn random_bytes() -> (bytes: Option<Vec<u8>>)
    ensures
        bytes matches Some(b) ==> b@.len() == 32,
{
    let mut bytes = vec![0u8; 32];
    match rand::RngCore::try_fill_bytes(&mut rand::rngs::OsRng, &mut bytes) {
        Ok(()) => Some(bytes),
        Err(_) => None,
    }
}

/// The token to use, and what to do so that its file holds it.
pub struct TokenPlan {
    pub token: String,
    pub steps: Vec<FileStep>,
}

/// The steps by which a token is guarded that its file holds already.
pub open spec fn keep_steps(unix: bool) -> Seq<FileStepView> {
    if unix {
        seq![FileStepView::RestrictFile { mode: 0o600 }]
    } else {
        Seq::empty()
    }
}

/// What stands in the file of a token: the token, and the end of the line.
pub open spec fn token_contents(token: Seq<char>) -> Seq<char> {
    token.push('\n')
}

/// The steps by which a new token is put in its file.
pub open spec fn install_steps(token: Seq<char>, process_id: u32, unix: bool) -> Seq<
    FileStepView,
> {
    seq![
        FileStepView::WriteTemporary {
            extension: "tmp-"@ + text::decimal(process_id as nat),
            contents: token_contents(token),
        },
    ] + (if unix {
        seq![FileStepView::RestrictTemporary { mode: 0o600 }]
    } else {
        Seq::empty()
    }) + seq![FileStepView::RenameTemporary] + keep_steps(unix)
}

/// The plan to go on with a token that its file holds.
fn keep_token(token: String, unix: bool) -> (plan: TokenPlan)
    ensures
        plan.token@ == token@,
        private_fs::steps_view(plan.steps@) == keep_steps(unix),
{
    let mut steps: Vec<FileStep> = Vec::new();
    if unix {
        steps.push(FileStep::RestrictFile { mode: 0o600 });
    }
    proof {
        assert(private_fs::steps_view(steps@) =~= keep_steps(unix));
    }
    TokenPlan { token, steps }
}

/// The plan to use a token made of random bytes.
pub fn install_token(bytes: &Vec<u8>, process_id: u32, unix: bool) -> (plan: TokenPlan)
    ensures
        plan.token@ == hex_text(bytes@),
        private_fs::steps_view(plan.steps@) == install_steps(plan.token@, process_id, unix),
{
    let token = print_hex(bytes);
    let number = text::decimal_text(process_id as u64);
    let extension = text::join("tmp-", number.as_str());
    let mut contents = token.clone();
    contents.push('\n');
    let mut steps: Vec<FileStep> = Vec::new();
    steps.push(FileStep::WriteTemporary { extension, contents });
    if unix {
        steps.push(FileStep::RestrictTemporary { mode: 0o600 });
    }
    steps.push(FileStep::RenameTemporary);
    if unix {
        steps.push(FileStep::RestrictFile { mode: 0o600 });
    }
    proof {
        assert(private_fs::steps_view(steps@) =~= install_steps(token@, process_id, unix));
    }
    TokenPlan { token, steps }
}

/// The token to use, from what its file holds, if it could be read: that token, or else one that is
/// made anew. `None` only where a new one is needed and the system gives no random bytes.
pub fn load_or_create_token(contents: Option<&str>, process_id: u32, unix: bool) -> (plan: Option<
    TokenPlan,
>)
    ensures
        contents matches Some(c) ==> (token_in(c@) matches Some(token) ==> plan is Some && (
        plan->0).token@ == token && private_fs::steps_view((plan->0).steps@) == keep_steps(unix)),
        (contents is None || token_in((contents->0)@) is None) ==> (plan matches Some(p)
            ==> is_token(p.token@) && private_fs::steps_view(p.steps@) == install_steps(
            p.token@,
            process_id,
            unix,
        ) && exists|bytes: Seq<u8>| bytes.len() == 32 && p.token@ == #[trigger] hex_text(bytes)),
{
    match contents {
        Some(contents) => match read_token(contents) {
            Some(token) => {
                return Some(keep_token(token, unix));
            },
            None => {},
        },
        None => {},
    }
    match random_bytes() {
        Some(bytes) => {
            proof {
                hex_of_32_bytes_is_a_token(bytes@);
            }
            Some(install_token(&bytes, process_id, unix))
        },
        None => None,
    }
}

// ---------------------------------------------------------------------------
// The address
// ---------------------------------------------------------------------------

/// What tells other programs where the service is found.
pub open spec fn endpoint_json(base_url: Seq<char>) -> JsonView {
    JsonView::Object(Map::empty()).with_field("baseUrl"@, JsonView::Text(base_url)).with_field(
        "tokenFile"@,
        JsonView::Text("control-token"@),
    )
}

/// The document that tells other programs where the service is found; the token is not in it.
pub fn write_endpoint(base_url: &str) -> (document: String)
    ensures
        document@ == json::pretty_text(endpoint_json(base_url@)),
        json::reads_as(document@, endpoint_json(base_url@)),
{
    let tree = Json::empty_object().and("baseUrl", Json::text(base_url)).and(
        "tokenFile",
        Json::text("control-token"),
    );
    proof {
        let fields = tree@->Object_0;
        assert forall|key: Seq<char>| fields.contains_key(key) implies (
        #[trigger] fields[key]).is_exact((json::nesting_limit() - 1) as nat) by {
        }
    }
    tree.to_pretty()
}

// ---------------------------------------------------------------------------
// Laws
// ---------------------------------------------------------------------------

/// Bytes in hexadecimal digits make a token.
pub proof fn hex_of_32_bytes_is_a_token(bytes: Seq<u8>)
    requires
        bytes.len() == 32,
    ensures
        is_token(hex_text(bytes)),
{
    let digits = hex_text(bytes);
    assert forall|i: int| 0 <= i < digits.len() implies text::is_hex_digit(#[trigger] digits[i]) by {
        let byte = bytes[i / 2];
        assert(0 <= byte as int / 16 < 16);
        assert(0 <= byte as int % 16 < 16);
    }
}

/// A token that was put in its file is the one that is found there.
pub proof fn token_is_found_again(token: Seq<char>)
    requires
        is_token(token),
    ensures
        token_in(token_contents(token)) == Some(token),
{
    let contents = token_contents(token);
    assert(text::is_hex_digit(token[0]) && text::is_hex_digit(token[63]));
    assert(contents[0] == token[0]);
    assert(text::trimmed_start(contents) == contents);
    assert(contents.drop_last() =~= token);
    assert(text::is_white(contents.last()));
    assert(text::trimmed_end(contents) == text::trimmed_end(token));
    assert(text::trimmed_end(token) == token);
}

/// Without the token nothing is done and nothing is told but that the service is up: every other
/// request is refused, in the same words whatever the token is.
pub proof fn nothing_without_the_token(
    request: HttpRequestView,
    token: Seq<char>,
    other: Seq<char>,
)
    requires
        !carries_token(request.headers, token),
    ensures
        !(decision(request, token) is Perform),
        !asks_health(request) ==> decision(request, token) == (DecisionView::Respond {
            status: 401,
            body: error_body("unauthorized"@),
            drain: false,
        }),
        !carries_token(request.headers, other) ==> decision(request, token) == decision(
            request,
            other,
        ),
{
}

/// An account that a request names by its path has an id without slashes and percent signs, so that
/// it names no other file or address.
pub proof fn activated_ids_are_safe(request: HttpRequestView, token: Seq<char>, id: Seq<char>)
    requires
        decision(request, token) == DecisionView::Perform(ActionView::Activate(id)),
    ensures
        is_account_id(id),
        forall|i: int| 0 <= i < id.len() ==> #[trigger] id[i] != '/' && id[i] != '%',
        path_of(request.url) == "/v1/accounts/"@ + id + "/activate"@,
        request.method == HttpMethod::Post,
{
    let path = path_of(request.url);
    let prefix = "/v1/accounts/"@;
    let suffix = "/activate"@;
    let rest = path.skip(prefix.len() as int);
    assert(path =~= path.take(prefix.len() as int) + rest);
    assert(rest =~= rest.take(rest.len() - suffix.len()) + rest.skip(rest.len() - suffix.len()));
    assert(path =~= prefix + id + suffix);
    assert forall|i: int| 0 <= i < id.len() implies #[trigger] id[i] != '/' && id[i] != '%' by {
        assert(is_id_char(id[i]));
    }
}

}
