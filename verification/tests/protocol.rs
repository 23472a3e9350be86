use kimi_subscription_router::json::Json;
use kimi_subscription_router::protocol::{
    encode_line, error_tells_of_quota, id_key, normalize_initialize_response, read_child_line,
    request_method, request_session_id, respond_no_accounts, respond_pool_exhausted,
    response_is_quota_exhausted, SessionContext,
};

fn json(raw: &str) -> Json {
    Json::parse(raw).unwrap()
}

#[test]
fn recognizes_only_explicit_quota_errors() {
    assert!(response_is_quota_exhausted(&json(
        r#"{"error": {"code": -32000, "message": "Usage limit reached"}}"#
    )));
    assert!(!response_is_quota_exhausted(&json(
        r#"{"error": {"code": -32000, "message": "tool failed"}}"#
    )));
    assert!(!response_is_quota_exhausted(&json(r#"{"result": {"stopReason": "end_turn"}}"#)));
}

#[test]
fn initialize_response_does_not_expose_account_login_home() {
    let mut response = json(
        r#"{
            "result": {
                "authMethods": [{"env": {"KIMI_CODE_HOME": "/private/account"}}],
                "agentInfo": {"name": "Kimi Code CLI", "version": "0.36.1"}
            }
        }"#,
    );
    normalize_initialize_response(&mut response);
    let result = response.field("result").unwrap();
    assert_eq!(result.field("authMethods").unwrap().to_text(), "[]");
    let info = result.field("agentInfo").unwrap();
    assert_eq!(info.text_field("name").as_deref(), Some("Kimi Subscription Router"));
    assert_eq!(info.text_field("version").as_deref(), Some("0.1.0"));
    assert!(!response.to_text().contains("/private/account"));
}

#[test]
fn answers_without_a_result_object_stay() {
    for raw in [r#"{"error":{"code":1}}"#, r#"{"result":[1]}"#, "null"] {
        let mut response = json(raw);
        normalize_initialize_response(&mut response);
        assert_eq!(response.to_text(), raw);
    }
}

#[test]
fn every_quota_word_counts_in_any_case() {
    for words in [
        "USAGE LIMIT",
        "Quota exhausted",
        "quota_exhausted",
        "RESOURCE_EXHAUSTED",
        "Rate limit exceeded",
        "Status 429",
        "HTTP 429: slow down",
    ] {
        assert!(error_tells_of_quota(words), "{}", words);
    }
    for words in ["usage  limit", "http 428", "quota", ""] {
        assert!(!error_tells_of_quota(words), "{}", words);
    }
}

#[test]
fn requests_are_read() {
    let message = json(r#"{"id":7,"method":"session/load","params":{"sessionId":"s1"}}"#);
    assert_eq!(request_session_id(&message).as_deref(), Some("s1"));
    assert_eq!(request_method(&message), "session/load");
    assert_eq!(request_session_id(&json(r#"{"params":{"sessionId":1}}"#)), None);
    assert_eq!(request_session_id(&json(r#"{"params":["sessionId"]}"#)), None);
    assert_eq!(request_method(&json(r#"{"method":5}"#)), "");
    assert_eq!(id_key(&json("7")), "7");
    assert_eq!(id_key(&json(r#""7""#)), "\"7\"");
}

#[test]
fn contexts_name_session_and_servers() {
    let request = json(r#"{"params":{"cwd":"/w","sessionId":"old"}}"#);
    let context = SessionContext::from_request(&request, "new");
    let params = Json::Object(context.resume_params);
    assert_eq!(params.to_text(), r#"{"cwd":"/w","mcpServers":[],"sessionId":"new"}"#);
    let named = json(r#"{"params":{"mcpServers":[{"name":"x"}]}}"#);
    let params = Json::Object(SessionContext::from_request(&named, "s").resume_params);
    assert_eq!(params.to_text(), r#"{"mcpServers":[{"name":"x"}],"sessionId":"s"}"#);
    let bare = Json::Object(SessionContext::from_request(&json("{}"), "s").resume_params);
    assert_eq!(bare.to_text(), r#"{"mcpServers":[],"sessionId":"s"}"#);
}

#[test]
fn replies_have_their_form() {
    assert_eq!(
        respond_no_accounts(Some(json("4"))).to_text(),
        r#"{"error":{"code":-32000,"message":"No routable Kimi accounts are configured."},"id":4,"jsonrpc":"2.0"}"#
    );
    assert_eq!(
        respond_pool_exhausted(None, None).to_text(),
        r#"{"error":{"code":-32042,"data":{"nextReset":null},"message":"All configured Kimi accounts are depleted."},"id":null,"jsonrpc":"2.0"}"#
    );
}

#[test]
fn lines_are_read_and_written() {
    assert_eq!(encode_line(&json(r#"{"id":1}"#)), "{\"id\":1}\n");
    assert!(read_child_line("not json").is_none());
    assert!(read_child_line("").is_none());
    assert_eq!(read_child_line(" [1] ").unwrap().to_text(), "[1]");
}
