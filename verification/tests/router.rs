use kimi_subscription_router::clock::Timestamp;
use kimi_subscription_router::json::Json;
use kimi_subscription_router::router::{
    check_configured, Effect, Question, Router, StartError, Turn,
};
use kimi_subscription_router::state::{ReadOutcome, RouterState, StateStore};

const NOW: Timestamp = Timestamp { seconds: 1786924800, nanos: 0 };

fn json(raw: &str) -> Json {
    Json::parse(raw).unwrap()
}

fn router(accounts: &[&str]) -> Router {
    let names = accounts.iter().map(|name| name.to_string()).collect();
    Router::start(names, RouterState::default()).ok().unwrap()
}

fn lines(turn: &Turn) -> Vec<String> {
    turn.effects
        .iter()
        .map(|effect| match effect {
            Effect::Write(message) => format!("write {}", message.to_text()),
            Effect::Send { account_id, message } => {
                format!("send {} {}", account_id, message.to_text())
            },
            Effect::Save(_) => "save".to_string(),
            Effect::MarkExhausted(account_id) => format!("exhausted {}", account_id),
            Effect::Unavailable(account_id) => format!("unavailable {}", account_id),
        })
        .collect()
}

fn take(router: &mut Router, line: &str) -> Turn {
    router.on_line(line).unwrap()
}

/// A router with a session `s` that account `a` made.
fn with_session(accounts: &[&str]) -> Router {
    let mut router = router(accounts);
    let turn = take(
        &mut router,
        r#"{"jsonrpc":"2.0","id":1,"method":"session/new","params":{"cwd":"/w"}}"#,
    );
    let purpose = match turn.question {
        Some(Question::Select { excluded, purpose }) => {
            assert!(excluded.is_empty());
            purpose
        },
        _ => panic!("a new session needs an account"),
    };
    let turn = router.on_selected(purpose, Ok("a".to_string()));
    assert_eq!(
        lines(&turn),
        [r#"send a {"id":1,"jsonrpc":"2.0","method":"session/new","params":{"cwd":"/w"}}"#]
    );
    let turn = router.handle_child(
        "a",
        json(r#"{"jsonrpc":"2.0","id":1,"result":{"sessionId":"s"}}"#),
        NOW,
    );
    assert_eq!(
        lines(&turn),
        ["save", r#"write {"id":1,"jsonrpc":"2.0","result":{"sessionId":"s"}}"#]
    );
    assert_eq!(router.state().owner("s"), Some("a"));
    router
}

const PROMPT: &str =
    r#"{"id":2,"jsonrpc":"2.0","method":"session/prompt","params":{"sessionId":"s","text":"hi"}}"#;

#[test]
fn starting_needs_accounts_and_children() {
    assert_eq!(check_configured(0), Err(StartError::NoAccounts));
    assert_eq!(check_configured(2), Ok(()));
    match Router::start(vec![], RouterState::default()) {
        Err(error) => {
            assert_eq!(error, StartError::NoChildren);
            assert_eq!(error.message(), "no Kimi account could start an ACP child");
        },
        Ok(_) => panic!("no children"),
    }
    assert_eq!(
        StartError::NoAccounts.message(),
        "no Kimi accounts; add an account in Kimi Subscription Router first"
    );
}

#[test]
fn blank_and_broken_lines() {
    let mut router = router(&["a"]);
    assert!(lines(&take(&mut router, "  \t")).is_empty());
    let turn = take(&mut router, "{");
    let reply = &lines(&turn)[0];
    assert!(reply.starts_with(r#"write {"error":{"code":-32700,"message":"Parse error: "#));
    assert!(reply.ends_with(r#""},"id":null,"jsonrpc":"2.0"}"#));
}

#[test]
fn session_stays_with_its_owner() {
    let mut router = with_session(&["a", "b"]);
    let turn = take(
        &mut router,
        r#"{"id":9,"method":"session/cancel","params":{"sessionId":"s"}}"#,
    );
    assert_eq!(
        lines(&turn),
        [r#"send a {"id":9,"method":"session/cancel","params":{"sessionId":"s"}}"#]
    );
    let turn = take(&mut router, PROMPT);
    assert!(turn.effects.is_empty());
    match turn.question {
        Some(Question::Capacity { account_id, session_id, message }) => {
            assert_eq!(account_id, "a");
            let turn = router.on_capacity(account_id, session_id, message, true);
            assert_eq!(lines(&turn), [format!("send a {}", PROMPT)]);
        },
        _ => panic!("a prompt needs capacity"),
    }
}

fn fail_over(router: &mut Router) {
    let turn = take(router, PROMPT);
    let turn = match turn.question {
        Some(Question::Capacity { account_id, session_id, message }) => {
            router.on_capacity(account_id, session_id, message, false)
        },
        _ => panic!("a prompt needs capacity"),
    };
    assert_eq!(lines(&turn), ["exhausted a"]);
    let purpose = match turn.question {
        Some(Question::Select { excluded, purpose }) => {
            assert_eq!(excluded, ["a"]);
            purpose
        },
        _ => panic!("a failover needs an account"),
    };
    let turn = router.on_selected(purpose, Ok("b".to_string()));
    assert_eq!(
        lines(&turn),
        [r#"send a {"id":"router-close-2","jsonrpc":"2.0","method":"session/close","params":{"sessionId":"s"}}"#]
    );
    assert_eq!(router.state().owner("s"), Some("a"));
}

#[test]
fn failover_closes_resumes_and_retries() {
    let mut router = with_session(&["a", "b"]);
    fail_over(&mut router);
    let turn = router.handle_child("a", json(r#"{"id":"router-close-2","result":{}}"#), NOW);
    assert_eq!(
        lines(&turn),
        [r#"send b {"id":"router-resume-1","jsonrpc":"2.0","method":"session/resume","params":{"cwd":"/w","mcpServers":[],"sessionId":"s"}}"#]
    );
    assert_eq!(router.state().owner("s"), Some("a"));
    let turn = router.handle_child("b", json(r#"{"id":"router-resume-1","result":{}}"#), NOW);
    assert_eq!(lines(&turn), ["save".to_string(), format!("send b {}", PROMPT)]);
    assert_eq!(router.state().owner("s"), Some("b"));
    match &turn.effects[0] {
        Effect::Save(document) => {
            let store = StateStore::new(std::path::PathBuf::from("x"));
            let kept = store.load(ReadOutcome::Text(document.clone())).ok().unwrap();
            assert_eq!(kept.owner("s"), Some("b"));
        },
        _ => panic!("ownership is kept first"),
    }
    let turn = router.handle_child("b", json(r#"{"id":2,"result":{"stopReason":"end_turn"}}"#), NOW);
    assert_eq!(lines(&turn), [r#"write {"id":2,"result":{"stopReason":"end_turn"}}"#]);
}

#[test]
fn failover_that_fails_leaves_the_owner() {
    let mut router = with_session(&["a", "b"]);
    fail_over(&mut router);
    let turn = router.handle_child(
        "a",
        json(r#"{"id":"router-close-2","error":{"code":5,"message":"busy"}}"#),
        NOW,
    );
    assert_eq!(
        lines(&turn),
        [r#"write {"error":{"code":-32044,"data":{"code":5,"message":"busy"},"message":"Kimi session failover could not close the previous owner."},"id":2,"jsonrpc":"2.0"}"#]
    );
    assert_eq!(router.state().owner("s"), Some("a"));

    let mut router = with_session(&["a", "b"]);
    fail_over(&mut router);
    router.handle_child("a", json(r#"{"id":"router-close-2","result":{}}"#), NOW);
    let turn = router.handle_child("b", json(r#"{"id":"router-resume-1","error":"no"}"#), NOW);
    assert_eq!(
        lines(&turn),
        [r#"write {"error":{"code":-32044,"data":"no","message":"Kimi session failover could not resume the conversation."},"id":2,"jsonrpc":"2.0"}"#]
    );
    assert_eq!(router.state().owner("s"), Some("a"));
}

#[test]
fn quota_error_of_a_prompt_sets_off_a_failover() {
    let mut router = with_session(&["a", "b"]);
    let turn = take(&mut router, PROMPT);
    if let Some(Question::Capacity { account_id, session_id, message }) = turn.question {
        router.on_capacity(account_id, session_id, message, true);
    }
    let turn = router.handle_child(
        "a",
        json(r#"{"id":2,"error":{"code":-32000,"message":"HTTP 429"}}"#),
        NOW,
    );
    assert_eq!(lines(&turn), ["exhausted a"]);
    match turn.question {
        Some(Question::Select { excluded, purpose }) => {
            assert_eq!(excluded, ["a"]);
            let reset = Timestamp { seconds: 1787014923, nanos: 0 };
            let turn = router.on_selected(purpose, Err(Some(reset)));
            assert_eq!(
                lines(&turn),
                [r#"write {"error":{"code":-32042,"data":{"nextReset":"2026-08-18T01:02:03+00:00"},"message":"All configured Kimi accounts are depleted."},"id":2,"jsonrpc":"2.0"}"#]
            );
        },
        _ => panic!("a failover needs an account"),
    }
}

#[test]
fn ordinary_errors_are_handed_on() {
    let mut router = with_session(&["a", "b"]);
    let turn = take(&mut router, PROMPT);
    if let Some(Question::Capacity { account_id, session_id, message }) = turn.question {
        router.on_capacity(account_id, session_id, message, true);
    }
    let turn = router.handle_child("a", json(r#"{"id":2,"error":{"message":"tool failed"}}"#), NOW);
    assert_eq!(lines(&turn), [r#"write {"error":{"message":"tool failed"},"id":2}"#]);
    assert!(turn.question.is_none());
}

#[test]
fn session_without_context_cannot_move() {
    let mut state = RouterState::default();
    state.assign("s", "a");
    let mut router = Router::start(vec!["a".to_string()], state).ok().unwrap();
    let turn = take(&mut router, PROMPT);
    let turn = match turn.question {
        Some(Question::Capacity { account_id, session_id, message }) => {
            router.on_capacity(account_id, session_id, message, false)
        },
        _ => panic!("a prompt needs capacity"),
    };
    assert_eq!(lines(&turn), [
        "exhausted a",
        r#"write {"error":{"code":-32043,"message":"Cannot move this session because its resume context is unavailable. Load the session and retry."},"id":2,"jsonrpc":"2.0"}"#,
    ]);
}

#[test]
fn loading_a_session_gives_it_a_context() {
    let mut state = RouterState::default();
    state.assign("s", "a");
    let mut router = Router::start(vec!["a".to_string(), "b".to_string()], state).ok().unwrap();
    let turn = take(
        &mut router,
        r#"{"id":1,"method":"session/load","params":{"sessionId":"s","cwd":"/w"}}"#,
    );
    assert_eq!(lines(&turn).len(), 1);
    let turn = router.handle_child("a", json(r#"{"id":1,"result":null}"#), NOW);
    assert_eq!(lines(&turn), ["save", r#"write {"id":1,"result":null}"#]);
    fail_over(&mut router);
}

#[test]
fn sessions_are_forked_and_deleted() {
    let mut router = with_session(&["a"]);
    take(&mut router, r#"{"id":3,"method":"session/fork","params":{"sessionId":"s"}}"#);
    router.handle_child("a", json(r#"{"id":3,"result":{"sessionId":"t"}}"#), NOW);
    assert_eq!(router.state().owner("t"), Some("a"));
    take(&mut router, r#"{"id":4,"method":"session/delete","params":{"sessionId":"s"}}"#);
    router.handle_child("a", json(r#"{"id":4,"result":{}}"#), NOW);
    assert_eq!(router.state().owner("s"), None);
    assert_eq!(router.state().owner("t"), Some("a"));
    take(&mut router, r#"{"id":5,"method":"session/delete","params":{"sessionId":"t"}}"#);
    router.handle_child("a", json(r#"{"id":5,"error":{}}"#), NOW);
    assert_eq!(router.state().owner("t"), Some("a"));
}

#[test]
fn initialize_is_answered_by_the_primary_once() {
    let mut router = router(&["b", "a"]);
    let turn = take(&mut router, r#"{"id":0,"method":"initialize","params":{}}"#);
    assert_eq!(lines(&turn), [
        r#"send a {"id":0,"method":"initialize","params":{}}"#,
        r#"send b {"id":0,"method":"initialize","params":{}}"#,
    ]);
    assert!(router.initializing());
    let turn = take(&mut router, r#"{"id":8,"method":"session/list"}"#);
    assert_eq!(
        lines(&turn),
        [r#"write {"error":{"code":-32001,"message":"Router initialization is still in progress."},"id":8,"jsonrpc":"2.0"}"#]
    );
    let turn = router.handle_child("b", json(r#"{"id":0,"result":{"authMethods":[1],"x":2}}"#), NOW);
    assert!(lines(&turn).is_empty());
    let turn = router.handle_child("a", json(r#"{"id":0,"result":{"y":3}}"#), NOW);
    assert_eq!(
        lines(&turn),
        [r#"write {"id":0,"result":{"agentInfo":{"name":"Kimi Subscription Router","version":"0.1.0"},"authMethods":[],"x":2}}"#]
    );
    assert!(!router.initializing());
}

#[test]
fn child_that_ends_owes_nothing() {
    let mut router = with_session(&["a", "b"]);
    take(&mut router, r#"{"id":20,"method":"session/list"}"#);
    take(&mut router, r#"{"id":"x","method":"session/mode","params":{"sessionId":"s"}}"#);
    let turn = router.handle_child_closed("a");
    let orphan = |id: &str| {
        format!(
            "write {{\"error\":{{\"code\":-32045,\"message\":\"The assigned Kimi ACP child exited before completing the request.\"}},\"id\":{},\"jsonrpc\":\"2.0\"}}",
            id
        )
    };
    assert_eq!(lines(&turn), [orphan("\"x\""), orphan("20")]);
    assert!(!router.has_peer("a"));
    assert!(lines(&router.handle_child_closed("a")).is_empty());
    let turn = take(&mut router, r#"{"id":21,"method":"session/x","params":{"sessionId":"s"}}"#);
    match turn.question {
        Some(Question::Select { excluded, .. }) => assert_eq!(excluded, ["a"]),
        _ => panic!("the owner has no child any more"),
    }
}

#[test]
fn primary_that_ends_while_initializing() {
    let mut router = router(&["a", "b"]);
    take(&mut router, r#"{"id":0,"method":"initialize"}"#);
    assert!(lines(&router.handle_child_closed("a")).is_empty());
    let turn = router.handle_child("b", json(r#"{"id":0,"result":{}}"#), NOW);
    assert_eq!(
        lines(&turn),
        [r#"write {"error":{"code":-32001,"message":"Primary Kimi ACP child exited during initialization."},"id":0,"jsonrpc":"2.0"}"#]
    );
    take(&mut router, r#"{"id":1,"method":"initialize"}"#);
    let turn = router.handle_child_closed("b");
    assert_eq!(
        lines(&turn),
        [r#"write {"error":{"code":-32001,"message":"Primary Kimi ACP child exited during initialization."},"id":1,"jsonrpc":"2.0"}"#]
    );
    let turn = take(&mut router, r#"{"id":2,"method":"initialize"}"#);
    assert_eq!(
        lines(&turn),
        [r#"write {"error":{"code":-32000,"message":"No routable Kimi accounts are configured."},"id":2,"jsonrpc":"2.0"}"#]
    );
}

#[test]
fn initialize_needs_a_primary() {
    let mut router = router(&["a"]);
    router.note_accounts(vec!["z".to_string()]);
    assert!(router.on_line(r#"{"id":0,"method":"initialize"}"#).is_none());
    let turn = take(&mut router, r#"{"id":1,"method":"authenticate"}"#);
    assert_eq!(
        lines(&turn),
        [r#"write {"error":{"code":-32000,"message":"No routable Kimi accounts are configured."},"id":1,"jsonrpc":"2.0"}"#]
    );
    let listed = vec!["z".to_string(), "a".to_string()];
    assert_eq!(router.reload_routing_accounts(&listed), ["a"]);
    assert_eq!(router.primary_account(), None);
    router.note_accounts(listed);
    assert_eq!(router.primary_account().as_deref(), Some("a"));
    assert!(router.on_line(r#"{"id":0,"method":"initialize"}"#).is_some());
}

#[test]
fn requests_of_children_find_their_way_back() {
    let mut router = router(&["a", "b"]);
    let turn = router.handle_child("b", json(r#"{"id":5,"method":"fs/read"}"#), NOW);
    assert_eq!(lines(&turn), [r#"write {"id":"router-reverse-1","method":"fs/read"}"#]);
    let turn = router.handle_child("a", json(r#"{"id":5,"method":"fs/read"}"#), NOW);
    assert_eq!(lines(&turn), [r#"write {"id":"router-reverse-2","method":"fs/read"}"#]);
    let turn = take(&mut router, r#"{"id":"router-reverse-1","result":"b"}"#);
    assert_eq!(lines(&turn), [r#"send b {"id":5,"result":"b"}"#]);
    let turn = take(&mut router, r#"{"id":"router-reverse-1","result":"b"}"#);
    assert!(lines(&turn).is_empty());
    let turn = take(&mut router, r#"{"result":1}"#);
    assert!(lines(&turn).is_empty());
    let turn = router.handle_child("a", json(r#"{"method":"note"}"#), NOW);
    assert_eq!(lines(&turn), [r#"write {"method":"note"}"#]);
    router.handle_child_closed("a");
    let turn = take(&mut router, r#"{"id":"router-reverse-2","result":"a"}"#);
    assert_eq!(lines(&turn), ["unavailable a"]);
}

#[test]
fn refused_requests() {
    let mut router = router(&["a"]);
    let turn = take(&mut router, r#"{"id":1,"method":"logout"}"#);
    assert_eq!(
        lines(&turn),
        [r#"write {"error":{"code":-32601,"message":"Logout is managed by Kimi Subscription Router."},"id":1,"jsonrpc":"2.0"}"#]
    );
    let turn = take(&mut router, r#"{"id":2,"method":"session/prompt"}"#);
    assert_eq!(
        lines(&turn),
        [r#"write {"error":{"code":-32602,"message":"Missing sessionId."},"id":2,"jsonrpc":"2.0"}"#]
    );
    let turn = take(&mut router, r#"{"method":"ping"}"#);
    assert_eq!(lines(&turn), [r#"send a {"method":"ping"}"#]);
    let turn = router.on_child_message("a", json(r#"{"id":77,"result":1}"#));
    assert_eq!(lines(&turn), [r#"write {"id":77,"result":1}"#]);
    let turn = router.on_child_message("a", json("[]"));
    assert_eq!(lines(&turn), ["write []"]);
}
