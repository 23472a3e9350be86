use kimi_subscription_router::clock::{CalendarDate, Timestamp, FIRST_SECOND, LAST_SECOND};
use kimi_subscription_router::json::Json;
use kimi_subscription_router::private_fs::FileStep;
use kimi_subscription_router::router_status::{
    load_router_status_from, lock_conflict, lock_is_held, read_persisted_sessions, LockProbe,
    RouterStatusSnapshot, StatusError,
};
use kimi_subscription_router::state::{ReadOutcome, RouterState, StateError, StateStore};

fn store() -> StateStore {
    StateStore::new(std::path::PathBuf::from("/tmp/router-state.json"))
}

fn text(raw: &str) -> ReadOutcome {
    ReadOutcome::Text(raw.to_string())
}

#[test]
fn persists_sticky_ownership_without_credentials() {
    let store = StateStore::new(std::path::PathBuf::from("router-state.json"));
    let mut state = RouterState::default();
    state.assign("session-a", "account-a");
    let mut raw = String::new();
    for step in store.save(&state, 7, true) {
        if let FileStep::WriteTemporary { contents, .. } = step {
            raw = contents;
        }
    }

    let loaded = store.load(ReadOutcome::Text(raw.clone())).ok().unwrap();
    assert_eq!(loaded.owner("session-a"), Some("account-a"));
    assert!(!raw.contains("access_token"));
    assert!(!raw.contains("refresh_token"));
}

#[test]
fn loads_session_counts_without_credentials() {
    let state = r#"{
                "version": 1,
                "sessions": {
                    "session-b": {"account_id":"b","assigned_at":"2026-08-18T00:00:00Z"},
                    "session-a": {"account_id":"a","assigned_at":"2026-08-17T00:00:00Z"},
                    "session-c": {"account_id":"a","assigned_at":"2026-08-18T01:00:00Z"}
                }
            }"#;
    let persisted = read_persisted_sessions(text(state)).ok().unwrap();
    let running = lock_is_held(LockProbe::Free, false).ok().unwrap();
    let status = load_router_status_from(&persisted, running);
    assert!(!status.running);
    assert_eq!(status.session_count, 3);
    assert_eq!(status.account_session_counts.get("a"), Some(&2));
    assert_eq!(status.sessions[0].session_id, "session-a");
    assert_eq!(status.sessions[0].assigned_at.seconds, 1786924800);
    assert_eq!(status.account_session_counts.get("b"), Some(&1));
    assert_eq!(status.account_session_counts.get("c"), None);
    assert_eq!(status.sessions[2].account_id, "a");
}

#[test]
fn detects_another_lock_holder() {
    let persisted = read_persisted_sessions(ReadOutcome::NotFound).ok().unwrap();
    let probe = LockProbe::Refused {
        would_block: true,
        code: Some(11),
        words: "Resource temporarily unavailable".to_string(),
    };
    let status = load_router_status_from(&persisted, lock_is_held(probe, false).ok().unwrap());
    assert!(status.running);
    assert_eq!(status.session_count, 0);
}

#[test]
fn lock_conflicts_on_windows() {
    assert!(lock_conflict(false, Some(32), true));
    assert!(lock_conflict(false, Some(33), true));
    assert!(!lock_conflict(false, Some(33), false));
    assert!(!lock_conflict(false, Some(5), true));
    assert!(!lock_conflict(false, None, true));
    let probe =
        LockProbe::Refused { would_block: false, code: Some(5), words: "denied".to_string() };
    match lock_is_held(probe, true) {
        Err(StatusError::System(words)) => assert_eq!(words, "denied"),
        _ => panic!("a refusal without a conflict is an error"),
    }
    match lock_is_held(LockProbe::Failed("no such directory".to_string()), false) {
        Err(StatusError::System(words)) => assert_eq!(words, "no such directory"),
        _ => panic!("a lock that cannot be tried for is an error"),
    }
}

#[test]
fn status_of_a_bad_file_is_an_error() {
    match read_persisted_sessions(text("{")) {
        Err(StatusError::Malformed(Some(words))) => assert!(words.contains("EOF")),
        _ => panic!("no JSON"),
    }
    match read_persisted_sessions(text("[1, 2]")) {
        Err(StatusError::Malformed(None)) => {},
        _ => panic!("not a state"),
    }
    match read_persisted_sessions(ReadOutcome::Failed("denied".to_string())) {
        Err(StatusError::System(words)) => assert_eq!(words, "denied"),
        _ => panic!("not read"),
    }
    let any_version = read_persisted_sessions(text(r#"{"version":"old"}"#)).ok().unwrap();
    assert_eq!(any_version.len(), 0);
    let none = RouterStatusSnapshot::default();
    assert!(!none.running);
    assert_eq!(none.session_count, 0);
}

#[test]
fn missing_or_blank_file_is_the_fresh_state() {
    let missing = store().load(ReadOutcome::NotFound).ok().unwrap();
    assert_eq!(missing.version, 1);
    assert_eq!(missing.sessions.len(), 0);
    let blank = store().load(text(" \n\t")).ok().unwrap();
    assert_eq!(blank.version, 1);
    assert_eq!(blank.sessions.len(), 0);
}

#[test]
fn document_keeps_its_form() {
    let mut state = RouterState::default();
    state.assign_at("s1", "acc", Timestamp { seconds: 1786924800, nanos: 500_000_000 });
    let document = state.document();
    assert_eq!(
        document,
        "{\n  \"version\": 1,\n  \"sessions\": {\n    \"s1\": {\n      \"account_id\": \"acc\",\n      \"assigned_at\": \"2026-08-17T00:00:00.500Z\"\n    }\n  }\n}"
    );
    let loaded = store().load(ReadOutcome::Text(document)).ok().unwrap();
    assert_eq!(loaded.sessions.get("s1").unwrap().assigned_at, Timestamp {
        seconds: 1786924800,
        nanos: 500_000_000,
    });
}

#[test]
fn save_puts_the_document_beside_the_file_first() {
    let state = RouterState::default();
    let steps = store().save(&state, 4711, true);
    assert_eq!(steps.len(), 4);
    assert!(matches!(steps[0], FileStep::CreateParent));
    match &steps[1] {
        FileStep::WriteTemporary { extension, contents } => {
            assert_eq!(extension, "json.4711.tmp");
            assert_eq!(contents, "{\n  \"version\": 1,\n  \"sessions\": {}\n}");
        },
        _ => panic!("the document is written second"),
    }
    assert!(matches!(steps[2], FileStep::RestrictTemporary { mode: 0o600 }));
    assert!(matches!(steps[3], FileStep::RenameTemporary));
    let elsewhere = store().save(&state, 1, false);
    assert_eq!(elsewhere.len(), 3);
    assert_eq!(store().path(), &std::path::PathBuf::from("/tmp/router-state.json"));
}

#[test]
fn malformed_states_are_refused() {
    for raw in [
        "[1,{},3]",
        "7",
        r#"{"version":-1}"#,
        r#"{"version":4294967296}"#,
        r#"{"version":1.0}"#,
        r#"{"version":null}"#,
        r#"{"sessions":[]}"#,
        r#"{"sessions":{"s":{"account_id":"a"}}}"#,
        r#"{"sessions":{"s":{"account_id":"a","assigned_at":"yesterday"}}}"#,
        r#"{"sessions":{"s":{"account_id":1,"assigned_at":"2026-08-18T00:00:00Z"}}}"#,
    ] {
        match store().load(text(raw)) {
            Err(StateError::Malformed(None)) => {},
            _ => panic!("{}", raw),
        }
    }
    match store().load(text("{\"version\"")) {
        Err(StateError::Malformed(Some(words))) => assert!(!words.is_empty()),
        _ => panic!("no JSON text"),
    }
    match store().load(ReadOutcome::Failed("denied".to_string())) {
        Err(error) => {
            assert!(matches!(&error, StateError::Unreadable(words) if words == "denied"));
            assert_eq!(error.message("/x"), "read router state /x");
        },
        Ok(_) => panic!("not read"),
    }
    assert_eq!(StateError::Malformed(None).message("/x"), "parse router state /x");
}

#[test]
fn states_are_read_from_objects_and_arrays() {
    let raw = r#"{"version":4294967295,"later":[1.5],"sessions":{"s":["a","2026-08-18T02:00:00+02:00"]}}"#;
    let state = store().load(text(raw)).ok().unwrap();
    assert_eq!(state.version, 4294967295);
    assert_eq!(state.owner("s"), Some("a"));
    assert_eq!(state.sessions.get("s").unwrap().assigned_at.seconds, 1787011200);
    let listed = store().load(text("[3]")).ok().unwrap();
    assert_eq!(listed.version, 3);
    assert_eq!(listed.sessions.len(), 0);
}

#[test]
fn ownership_is_assigned_removed_and_counted() {
    let mut state = RouterState::default();
    assert_eq!(state.owner("a"), None);
    state.assign("a", "one");
    state.assign("b", "two");
    state.assign("c", "one");
    assert_eq!(state.owned_count("one"), 2);
    assert_eq!(state.owned_count("two"), 1);
    assert_eq!(state.owned_count("three"), 0);
    state.assign("a", "two");
    assert_eq!(state.owner("a"), Some("two"));
    assert_eq!(state.owned_count("two"), 2);
    state.remove("b");
    assert_eq!(state.owner("b"), None);
    assert_eq!(state.owner("c"), Some("one"));
    state.remove("missing");
    assert_eq!(state.sessions.len(), 2);
}

#[test]
fn moments_are_read_and_written() {
    let moment = Timestamp::parse("2026-08-18T01:02:03Z").unwrap();
    assert_eq!(moment, Timestamp { seconds: 1787014923, nanos: 0 });
    assert_eq!(moment.to_text(), "2026-08-18T01:02:03Z");
    assert_eq!(moment.to_rfc3339(), "2026-08-18T01:02:03+00:00");
    assert_eq!(Timestamp::parse("2026-08-18"), None);
    let leap = Timestamp { seconds: 59, nanos: 1_500_000_000 };
    assert!(leap.is_valid());
    assert_eq!(Timestamp::parse(leap.to_text().as_str()), Some(leap));
    assert!(!Timestamp { seconds: 58, nanos: 1_500_000_000 }.is_valid());
    assert!(!Timestamp { seconds: LAST_SECOND + 1, nanos: 0 }.is_valid());
    assert!(!Timestamp { seconds: FIRST_SECOND - 1, nanos: 0 }.is_valid());
    let first = Timestamp { seconds: FIRST_SECOND, nanos: 0 };
    let last = Timestamp { seconds: LAST_SECOND, nanos: 999_999_999 };
    assert!(first.is_valid() && last.is_valid());
    let leap_at_last = Timestamp { seconds: LAST_SECOND, nanos: 1_999_999_999 };
    let year_zero = Timestamp { seconds: -62167219200, nanos: 1 };
    let before_zero = Timestamp { seconds: -62167219201, nanos: 1_000_000_000 };
    for moment in [first, last, leap_at_last, year_zero, before_zero] {
        assert_eq!(Timestamp::parse(moment.to_text().as_str()), Some(moment));
    }
    assert_eq!(first.to_text(), "-262143-01-01T00:00:00Z");
    assert_eq!(last.to_text(), "+262142-12-31T23:59:59.999999999Z");
    assert!(Timestamp::now().is_valid());
}

#[test]
fn saved_states_are_loaded_whatever_the_year() {
    let mut state = RouterState::default();
    state.version = 7;
    state.assign_at("", "a", Timestamp { seconds: FIRST_SECOND, nanos: 5 });
    state.assign_at("s\n", "b", Timestamp { seconds: LAST_SECOND, nanos: 1_000_000_001 });
    let loaded = store().load(ReadOutcome::Text(state.document())).ok().unwrap();
    assert_eq!(loaded.version, 7);
    assert_eq!(loaded.sessions.len(), 2);
    for id in ["", "s\n"] {
        let (kept, found) = (state.sessions.get(id).unwrap(), loaded.sessions.get(id).unwrap());
        assert_eq!(kept.account_id, found.account_id);
        assert_eq!(kept.assigned_at, found.assigned_at);
    }
}

#[test]
fn moments_are_made_of_parts() {
    let plain = Timestamp { seconds: 10, nanos: 7 };
    assert_eq!(Timestamp::of_parts(10, 7), Some(plain));
    let leap = Timestamp { seconds: 59, nanos: 1_000_000_007 };
    assert_eq!(Timestamp::of_parts(59, 1_000_000_007), Some(leap));
    assert_eq!(Timestamp::of_parts(9, 1_000_000_007), Some(plain));
    assert_eq!(Timestamp::of_parts(10, 2_000_000_000), None);
    assert_eq!(Timestamp::of_parts(LAST_SECOND + 1, 0), None);
    assert_eq!(Timestamp::of_parts(FIRST_SECOND - 1, 1_000_000_000), None);
    assert_eq!(Timestamp::of_parts(i64::MAX, 1_500_000_000), None);
}

#[test]
fn dates_are_read_and_written() {
    let day = CalendarDate::parse("2024-02-29").unwrap();
    assert_eq!((day.year, day.month, day.day), (2024, 2, 29));
    assert_eq!(day.to_text(), "2024-02-29");
    assert_eq!(CalendarDate::parse("2023-02-29"), None);
    assert_eq!(CalendarDate::parse("2023-13-01"), None);
    let early = CalendarDate { year: -1, month: 3, day: 9 };
    assert_eq!(early.to_text(), "-0001-03-09");
    assert_eq!(CalendarDate::parse("-0001-03-09"), Some(early));
    let late = CalendarDate { year: 12345, month: 10, day: 31 };
    assert_eq!(late.to_text(), "+12345-10-31");
    assert_eq!(CalendarDate::parse("+12345-10-31"), Some(late));
}

#[test]
fn trees_keep_what_they_say() {
    let tree = Json::parse(r#"{"b":[1,-2.5,null,true],"a":"x\ny"}"#).unwrap();
    assert_eq!(tree.to_text(), r#"{"a":"x\ny","b":[1,-2.5,null,true]}"#);
    assert!(tree.equals(&tree.duplicate()));
    assert!(!tree.equals(&Json::Null));
    assert_eq!(tree.text_field("a").as_deref(), Some("x\ny"));
    assert!(tree.field("missing").is_none());
    assert_eq!(Json::integer(-32700).to_text(), "-32700");
    assert_eq!(Json::integer(5).as_u64(), Some(5));
    assert_eq!(Json::integer(-5).as_u64(), None);
    assert_eq!(Json::text("1").as_u64(), None);
    let twice = Json::Object(vec![
        ("k".to_string(), Json::integer(1)),
        ("k".to_string(), Json::integer(2)),
    ]);
    assert_eq!(twice.to_text(), r#"{"k":2}"#);
    assert_eq!(twice.to_pretty(), "{\n  \"k\": 2\n}");
    assert!(twice.equals(&Json::parse(r#"{"k":1,"k":2}"#).unwrap()));
    let nested = Json::Array(vec![twice, Json::Bool(false)]);
    assert_eq!(nested.to_text(), r#"[{"k":2},false]"#);
    assert!(Json::parse("nope").is_err());
}
