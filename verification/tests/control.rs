use kimi_subscription_router::control::{
    authorized, handle, install_token, load_or_create_token, path_without_query, print_hex,
    read_token, respond_json, valid_account_id, worker_response, write_endpoint, AccountSnapshot,
    Action, Decision, HttpMethod, HttpRequest, Info, QuotaSnapshot, Reply, WorkerOutcome,
};
use kimi_subscription_router::json::Json;
use kimi_subscription_router::private_fs::{
    restrict_dir, restrict_file, FileStep, Platform, Restriction,
};

const TOKEN: &str = "00112233445566778899aabbccddeeff00112233445566778899aabbccddeeff";

fn request(method: HttpMethod, url: &str, token: Option<&str>) -> HttpRequest {
    let mut headers = vec![("Host".to_string(), "127.0.0.1".to_string())];
    if let Some(token) = token {
        headers.push(("x-kimi-router-TOKEN".to_string(), token.to_string()));
    }
    HttpRequest { method, url: url.to_string(), headers }
}

fn responds(decision: Decision) -> (u16, String, bool) {
    match decision {
        Decision::Respond { status, body, drain } => (status, body.to_text(), drain),
        Decision::Perform(_) => panic!("an answer was expected"),
    }
}

#[test]
fn account_id_accepts_safe_path_segment() {
    assert!(valid_account_id("user-01_example.test"));
}

#[test]
fn account_id_rejects_path_traversal_and_encoding() {
    assert!(!valid_account_id("../credentials"));
    assert!(!valid_account_id("user%2Fother"));
    assert!(!valid_account_id("user/other"));
}

#[test]
fn account_ids_have_bounds() {
    assert!(!valid_account_id(""));
    assert!(valid_account_id("a".repeat(160).as_str()));
    assert!(!valid_account_id("a".repeat(161).as_str()));
    assert!(!valid_account_id("usér"));
}

#[test]
fn health_is_public_but_accounts_require_token() {
    let info = Info::new("127.0.0.1:43821", std::path::PathBuf::from("state/control-token"));
    let address = info.base_url.strip_prefix("http://").unwrap().strip_suffix("/v1").unwrap();
    assert_eq!(address, "127.0.0.1:43821");

    let health = responds(handle(&request(HttpMethod::Get, "/v1/health", None), TOKEN));
    assert_eq!(health, (200, "{\"ok\":true}".to_string(), false));

    let accounts = responds(handle(&request(HttpMethod::Get, "/v1/accounts", None), TOKEN));
    assert_eq!(accounts.0, 401);
    assert!(accounts.1.contains("unauthorized"));
}

#[test]
fn every_method_needs_the_token() {
    let refused = (401, "{\"error\":\"unauthorized\"}".to_string(), false);
    for (method, url) in [
        (HttpMethod::Options, "/v1/accounts"),
        (HttpMethod::Options, "/v1/health"),
        (HttpMethod::Post, "/v1/health"),
        (HttpMethod::Post, "/v1/refresh"),
        (HttpMethod::Other, "/nowhere"),
    ] {
        assert_eq!(responds(handle(&request(method, url, None), TOKEN)), refused);
        assert_eq!(responds(handle(&request(method, url, Some("wrong")), TOKEN)), refused);
    }
    let health = responds(handle(&request(HttpMethod::Get, "/v1/health?x", Some("wrong")), TOKEN));
    assert_eq!(health.0, 200);
}

#[test]
fn token_file_is_owner_only() {
    let plan = load_or_create_token(None, 12, true).unwrap();
    assert_eq!(plan.token.len(), 64);
    assert!(plan.token.bytes().all(|byte| matches!(byte, b'0'..=b'9' | b'a'..=b'f')));
    assert_eq!(plan.steps.len(), 4);
    match &plan.steps[0] {
        FileStep::WriteTemporary { extension, contents } => {
            assert_eq!(extension, "tmp-12");
            assert_eq!(contents, &format!("{}\n", plan.token));
        },
        _ => panic!("the token is written first"),
    }
    assert!(matches!(plan.steps[1], FileStep::RestrictTemporary { mode: 0o600 }));
    assert!(matches!(plan.steps[2], FileStep::RenameTemporary));
    assert!(matches!(plan.steps[3], FileStep::RestrictFile { mode: 0o600 }));
}

#[test]
fn token_is_kept_while_it_is_good() {
    let stored = format!(" {}\n", TOKEN);
    let plan = load_or_create_token(Some(stored.as_str()), 12, true).unwrap();
    assert_eq!(plan.token, TOKEN);
    assert_eq!(plan.steps.len(), 1);
    assert!(matches!(plan.steps[0], FileStep::RestrictFile { mode: 0o600 }));
    let plan = load_or_create_token(Some("short"), 12, false).unwrap();
    assert_eq!(plan.token.len(), 64);
    assert_eq!(plan.steps.len(), 2);
    let other = load_or_create_token(Some("short"), 12, false).unwrap();
    assert_ne!(plan.token, other.token);
    assert_eq!(read_token(format!("{}\n", other.token).as_str()), Some(other.token));
    assert_eq!(read_token("g".repeat(64).as_str()), None);
    assert_eq!(read_token("a".repeat(63).as_str()), None);
}

#[test]
fn bytes_are_printed_in_hexadecimal() {
    assert_eq!(print_hex(&vec![0, 9, 10, 15, 16, 255]), "00090a0f10ff");
    let bytes: Vec<u8> = (0..32).collect();
    let plan = install_token(&bytes, 1, false);
    assert_eq!(
        plan.token,
        "000102030405060708090a0b0c0d0e0f101112131415161718191a1b1c1d1e1f"
    );
}

#[test]
fn only_the_token_authorizes() {
    let good = request(HttpMethod::Get, "/", Some(TOKEN));
    assert!(authorized(&good, TOKEN));
    assert!(!authorized(&good, "other"));
    assert!(!authorized(&request(HttpMethod::Get, "/", None), TOKEN));
    assert!(!authorized(&request(HttpMethod::Get, "/", Some("")), TOKEN));
    let mut twice = request(HttpMethod::Get, "/", Some("wrong"));
    twice.headers.push(("X-Kimi-Router-Token".to_string(), TOKEN.to_string()));
    assert!(!authorized(&twice, TOKEN));
}

#[test]
fn requests_come_to_actions() {
    let list = handle(&request(HttpMethod::Get, "/v1/accounts?x=1", Some(TOKEN)), TOKEN);
    assert!(matches!(list, Decision::Perform(Action::List)));
    let refresh = handle(&request(HttpMethod::Post, "/v1/refresh", Some(TOKEN)), TOKEN);
    assert!(matches!(refresh, Decision::Perform(Action::Refresh)));
    match handle(&request(HttpMethod::Post, "/v1/accounts/u.1/activate", Some(TOKEN)), TOKEN) {
        Decision::Perform(Action::Activate(id)) => assert_eq!(id, "u.1"),
        _ => panic!("an activation"),
    }
}

#[test]
fn other_requests_are_refused() {
    let ask = |method, url: &str| responds(handle(&request(method, url, Some(TOKEN)), TOKEN));
    let missing = (404, "{\"error\":\"not found\"}".to_string(), true);
    assert_eq!(ask(HttpMethod::Post, "/v1/accounts/a%2Fb/activate"), missing);
    assert_eq!(ask(HttpMethod::Post, "/v1/accounts/activate"), missing);
    assert_eq!(ask(HttpMethod::Post, "/v1/accounts//activate"), missing);
    assert_eq!(ask(HttpMethod::Post, "/v1/health"), missing);
    let refused = (405, "{\"error\":\"method not allowed\"}".to_string(), true);
    assert_eq!(ask(HttpMethod::Get, "/v1/refresh"), refused);
    assert_eq!(ask(HttpMethod::Other, "/v1/accounts"), refused);
    assert_eq!(ask(HttpMethod::Options, "/anything"), (204, "{}".to_string(), false));
    assert_eq!(path_without_query("/a?b?c"), "/a");
    assert_eq!(path_without_query("/a"), "/a");
}

#[test]
fn answers_of_the_application() {
    let account = AccountSnapshot {
        id: "u1".to_string(),
        label: "Alice".to_string(),
        active: true,
        membership: None,
        subscription_expires_on: Some("2026-09-30".to_string()),
        routing_enabled: false,
        quotas: vec![QuotaSnapshot {
            window: "7天".to_string(),
            used_ratio: serde_json::Number::from_f64(0.5),
            text: "50% (1/2)".to_string(),
            reset_at: None,
        }],
        error: None,
    };
    let reply = Reply::Accounts { accounts: vec![account], message: Some("ok".to_string()) };
    let (status, body) = worker_response(WorkerOutcome::Answered(reply));
    assert_eq!(status, 200);
    assert_eq!(
        body.to_text(),
        r#"{"accounts":[{"active":true,"error":null,"id":"u1","label":"Alice","membership":null,"quotas":[{"resetAt":null,"text":"50% (1/2)","usedRatio":0.5,"window":"7天"}],"routingEnabled":false,"subscriptionExpiresOn":"2026-09-30"}],"message":"ok"}"#
    );
    let (status, body) = worker_response(WorkerOutcome::Answered(Reply::Error("no".to_string())));
    assert_eq!((status, body.to_text()), (400, "{\"error\":\"no\"}".to_string()));
    let (status, body) = worker_response(WorkerOutcome::Unavailable);
    assert_eq!(status, 503);
    assert_eq!(body.to_text(), "{\"error\":\"application worker unavailable\"}");
    let (status, body) = worker_response(WorkerOutcome::TimedOut);
    assert_eq!(status, 504);
    assert_eq!(body.to_text(), "{\"error\":\"application worker timeout\"}");
}

#[test]
fn answers_are_not_stored() {
    let response = respond_json(200, &Json::parse("{\"a\": 1}").unwrap());
    assert_eq!(response.status, 200);
    assert_eq!(response.body, "{\"a\":1}");
    assert_eq!(response.headers.len(), 4);
    assert_eq!(response.headers[0].1, "application/json; charset=utf-8");
    assert_eq!(response.headers[1], ("Cache-Control".to_string(), "no-store".to_string()));
}

#[test]
fn endpoint_document_has_no_token() {
    assert_eq!(
        write_endpoint("http://127.0.0.1:1/v1"),
        "{\n  \"baseUrl\": \"http://127.0.0.1:1/v1\",\n  \"tokenFile\": \"control-token\"\n}"
    );
}

#[test]
fn secrets_are_for_their_owner() {
    assert!(matches!(restrict_file(Platform::Unix), Restriction::Mode(0o600)));
    assert!(matches!(restrict_dir(Platform::Unix), Restriction::Mode(0o700)));
    assert!(matches!(
        restrict_file(Platform::Windows),
        Restriction::Descriptor("D:P(A;;FA;;;OW)(A;;FA;;;SY)")
    ));
    assert!(matches!(
        restrict_dir(Platform::Windows),
        Restriction::Descriptor("D:P(A;OICI;FA;;;OW)(A;OICI;FA;;;SY)")
    ));
    assert!(matches!(restrict_file(Platform::Other), Restriction::Nothing));
}
