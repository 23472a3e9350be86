use kimi_subscription_router::accounts::{
    account_row, after_live_account, after_removal_step, after_swap, avatar, compact_error, control_reply, handle_control_request,
    normalize_subscription_expiry, order_accounts, prettify_membership, quota_views, rename,
    set_routing_enabled, set_subscription_expiry, summary_labels, Account, AccountRow, Change,
    ControlStep, Quota, QuotaWindow, RemovalNext, RemovalStep, Tone,
};
use kimi_subscription_router::control::{Action, Reply};
use kimi_subscription_router::json::Json;
use kimi_subscription_router::kimi_user::{
    after_first_attempt, after_recovery, is_unauthorized, parse_display_label, profile_request,
    read_profile, request_failed, Retry,
};

fn account(id: &str, label: &str) -> Account {
    Account {
        id: id.to_string(),
        label: label.to_string(),
        active: false,
        manual_only: false,
        extra: vec![],
    }
}

fn quota(window: QuotaWindow) -> Quota {
    Quota {
        window,
        used: "3".to_string(),
        limit: "4".to_string(),
        ratio: None,
        reset: None,
        note: None,
    }
}

fn stored(change: Result<Change, String>) -> (Account, String) {
    match change {
        Ok(Change::Store { account, message }) => (account, message),
        _ => panic!("the account is to be stored"),
    }
}

#[test]
fn subscription_expiry_accepts_iso_date() {
    assert_eq!(
        normalize_subscription_expiry(" 2026-09-30 ").unwrap(),
        Some("2026-09-30".to_string())
    );
}

#[test]
fn subscription_expiry_empty_value_clears_note() {
    assert_eq!(normalize_subscription_expiry("  ").unwrap(), None);
}

#[test]
fn subscription_expiry_rejects_invalid_date() {
    assert!(normalize_subscription_expiry("2026-02-30").is_err());
    assert!(normalize_subscription_expiry("09/30/2026").is_err());
}

#[test]
fn subscription_expiry_is_written_in_one_way() {
    assert_eq!(normalize_subscription_expiry("2026-9-3").unwrap().as_deref(), Some("2026-09-03"));
    assert_eq!(
        normalize_subscription_expiry("soon").unwrap_err(),
        "日期格式无效，请使用 YYYY-MM-DD，例如 2026-09-30"
    );
}

#[test]
fn nickname_is_preferred() {
    let body =
        r#"{"user_id":"u1","nickname":"Alice","username":"alice01","email":"a@example.com"}"#;
    assert_eq!(parse_display_label(body).as_deref(), Some("Alice"));
}

#[test]
fn username_and_email_are_fallbacks() {
    let username = r#"{"user_id":"u1","nickname":"","username":"alice01"}"#;
    assert_eq!(parse_display_label(username).as_deref(), Some("alice01"));

    let email = r#"{"user_id":"u1","email":"a@example.com"}"#;
    assert_eq!(parse_display_label(email).as_deref(), Some("a@example.com"));
}

#[test]
fn malformed_or_unnamed_response_has_no_label() {
    assert_eq!(parse_display_label("not json"), None);
    assert_eq!(parse_display_label(r#"{"user_id":"u1"}"#), None);
}

#[test]
fn fetches_profile_from_me_endpoint() {
    let request = profile_request("token", "http://127.0.0.1:9//");
    assert_eq!(request.url, "http://127.0.0.1:9/me");
    assert_eq!(request.authorization, "Bearer token");
    assert_eq!(request.user_agent, "kimi-switch");
    let label = read_profile(200, "200 OK", r#"{"user_id":"u1","nickname":"Alice"}"#).unwrap();
    assert_eq!(label.as_deref(), Some("Alice"));
}

#[test]
fn names_are_trimmed() {
    assert_eq!(
        parse_display_label("{\"nickname\":\" \\t\",\"username\":\"\\u3000Bob\\n\"}").as_deref(),
        Some("Bob")
    );
    assert_eq!(parse_display_label(r#"{"nickname":7,"email":" "}"#), None);
}

#[test]
fn token_is_recovered_once() {
    let refused = read_profile(401, "401 Unauthorized", "no").unwrap_err();
    assert_eq!(refused, "kimi user info HTTP 401 Unauthorized: no");
    assert!(is_unauthorized(refused.as_str()));
    assert!(!is_unauthorized(read_profile(500, "500 Oops", "").unwrap_err().as_str()));
    assert!(!is_unauthorized(request_failed("401 ").as_str()));
    assert!(read_profile(300, "300 Multiple Choices", "{}").is_err());
    assert_eq!(read_profile(299, "299", "{}"), Ok(None));
    match after_first_attempt(Err(refused.clone()), true) {
        Retry::Recover(error) => match after_recovery(error, Ok(Some("fresh".to_string()))) {
            Retry::AskAgain(token) => assert_eq!(token, "fresh"),
            _ => panic!("a fresh token is tried"),
        },
        _ => panic!("the token is recovered"),
    }
    match after_first_attempt(Err(refused.clone()), false) {
        Retry::Done(Err(error)) => assert_eq!(error, refused),
        _ => panic!("only the active account is recovered"),
    }
    match after_recovery(refused.clone(), Ok(None)) {
        Retry::Done(Err(error)) => assert_eq!(error, refused),
        _ => panic!("the first error stands"),
    }
    match after_recovery(refused, Err("locked".to_string())) {
        Retry::Done(Err(error)) => assert_eq!(error, "locked"),
        _ => panic!("the failure stands"),
    }
    match after_first_attempt(Ok(Some("Alice".to_string())), true) {
        Retry::Done(Ok(Some(name))) => assert_eq!(name, "Alice"),
        _ => panic!("a name is settled"),
    }
}

#[test]
fn membership_is_prettified() {
    assert_eq!(prettify_membership("LEVEL_INTERMEDIATE"), "Intermediate");
    assert_eq!(prettify_membership("free"), "Free");
    assert_eq!(prettify_membership("LEVEL_"), "");
    assert_eq!(prettify_membership(""), "");
    assert_eq!(prettify_membership("ßA"), "SSa");
}

#[test]
fn errors_are_cut_short() {
    assert_eq!(compact_error("a\nb\rc"), "a b c");
    assert_eq!(compact_error("x".repeat(80).as_str()), "x".repeat(80));
    assert_eq!(compact_error("é".repeat(81).as_str()), format!("{}…", "é".repeat(80)));
}

#[test]
fn quotas_are_shown_but_for_months() {
    let mut week = quota(QuotaWindow::SevenDay);
    week.ratio = Some((serde_json::Number::from_f64(0.75).unwrap(), "75".to_string()));
    week.reset = Some("08-18 09:00".to_string());
    let quotas =
        vec![quota(QuotaWindow::FiveHour), quota(QuotaWindow::Month), week, quota(QuotaWindow::Other)];
    let shown = quota_views(&quotas);
    assert_eq!(shown.len(), 3);
    assert_eq!(shown[0].window, "5小时");
    assert_eq!(shown[0].text, "3/4");
    assert_eq!(shown[1].window, "7天");
    assert_eq!(shown[1].text, "75% (3/4)");
    assert_eq!(shown[1].reset.as_deref(), Some("重置 08-18 09:00"));
    assert_eq!(shown[2].window, "其他");
}

#[test]
fn rows_show_accounts() {
    let mut shown = account("u1", "u1");
    assert!(shown.wants_nickname());
    shown.learn_nickname("Alice");
    assert!(!shown.wants_nickname());
    let mut week = quota(QuotaWindow::SevenDay);
    week.ratio = Some((serde_json::Number::from_f64(0.25).unwrap(), "25".to_string()));
    week.note = Some("LEVEL_PRO".to_string());
    let row = account_row(&shown, Ok(vec![quota(QuotaWindow::FiveHour), week]));
    assert_eq!(row.label, "Alice");
    assert_eq!(row.membership.as_deref(), Some("Pro"));
    assert!(row.routing_enabled);
    assert_eq!(row.weekly_ratio(), serde_json::Number::from_f64(0.25));
    assert_eq!(row.error, None);
    let failed = account_row(&account("u2", "Work"), Err("down\nagain".to_string()));
    assert_eq!(failed.label, "Work");
    assert_eq!(failed.error.as_deref(), Some("down again"));
    assert!(failed.quotas.is_empty());
    assert_eq!(failed.weekly_ratio(), None);
    assert_eq!(account_row(&account("u3", "u3"), Ok(vec![])).label, "u3");
}

#[test]
fn active_accounts_come_first() {
    let mut active = account("b", "b");
    active.active = true;
    let ordered = order_accounts(vec![account("a", "a"), active, account("c", "c")]);
    let ids: Vec<&str> = ordered.iter().map(|account| account.id.as_str()).collect();
    assert_eq!(ids, ["b", "a", "c"]);
}

#[test]
fn accounts_are_renamed() {
    let (changed, message) = stored(rename(Some(account("u1", "u1")), "u1", " Work "));
    assert_eq!(changed.label, "Work");
    assert_eq!(message, "已把 u1 重命名为「Work」");
    for label in ["  ", "Work"] {
        match rename(Some(account("u1", "Work")), "u1", label) {
            Ok(Change::Keep { message }) => assert_eq!(message, "别名未变化"),
            _ => panic!("nothing changes"),
        }
    }
    assert_eq!(rename(None, "u9", "x").err().unwrap(), "账号 u9 不存在");
}

#[test]
fn days_are_noted_and_taken_away() {
    let (changed, message) =
        stored(set_subscription_expiry(Some(account("u1", "u1")), "u1", "2026-09-30"));
    assert_eq!(changed.expires_on().as_deref(), Some("2026-09-30"));
    assert_eq!(message, "已记录 u1 的订阅到期日：2026-09-30");
    let (changed, message) = stored(set_subscription_expiry(Some(changed), "u1", " "));
    assert_eq!(changed.expires_on(), None);
    assert_eq!(message, "已清除 u1 的订阅到期日");
    assert!(set_subscription_expiry(Some(changed), "u1", "x").is_err());
    assert_eq!(set_subscription_expiry(None, "u1", "x").err().unwrap(), "账号 u1 不存在");
}

#[test]
fn routing_is_switched() {
    let (off, message) = stored(set_routing_enabled(Some(account("u1", "u1")), "u1", false));
    assert!(!off.routing_enabled());
    assert_eq!(message, "u1 已暂停自动路由");
    let (mut on, message) = stored(set_routing_enabled(Some(off), "u1", true));
    assert!(on.routing_enabled());
    assert_eq!(message, "u1 已加入自动路由");
    on.manual_only = true;
    assert!(!on.routing_enabled());
    on.manual_only = false;
    on.extra = vec![("routing_enabled".to_string(), Json::text("no"))];
    assert!(on.routing_enabled());
    assert_eq!(set_routing_enabled(None, "u1", true).err().unwrap(), "账号 u1 不存在");
}

fn row(id: &str, label: &str, active: bool) -> AccountRow {
    let mut shown = account(id, label);
    shown.active = active;
    account_row(&shown, Ok(vec![quota(QuotaWindow::SevenDay)]))
}

#[test]
fn summary_names_the_active_account() {
    let rows = vec![row("a", "A", false), row("b", "B", true)];
    assert_eq!(summary_labels(&rows), ("B".to_string(), "2 个已保存账号".to_string()));
    let none: Vec<AccountRow> = vec![];
    assert_eq!(summary_labels(&none), ("未选择".to_string(), "0 个已保存账号".to_string()));
}

#[test]
fn avatars_depend_on_the_id() {
    // 97 * 31 + 98 = 3105
    assert_eq!(avatar(&row("ab", "Ärger", false)), (0, 'Ä'));
    let mut unnamed = row("b", "x", false);
    unnamed.label = String::new();
    assert_eq!(avatar(&unnamed), (3, '?'));
}

#[test]
fn removal_goes_on_without_the_credential_store() {
    let words = || Some("denied".to_string());
    for step in [RemovalStep::Unregister, RemovalStep::MarkRemoved] {
        assert!(matches!(
            after_removal_step(step, words()),
            RemovalNext::Stop(told) if told == "denied"
        ));
    }
    assert!(matches!(
        after_removal_step(RemovalStep::DeleteCredentials, words()),
        RemovalNext::Perform(RemovalStep::ForgetQuota)
    ));
    let mut steps = vec![RemovalStep::Unregister];
    while let RemovalNext::Perform(next) = after_removal_step(steps[steps.len() - 1], None) {
        steps.push(next);
    }
    assert_eq!(steps, [
        RemovalStep::Unregister,
        RemovalStep::MarkRemoved,
        RemovalStep::DeleteCredentials,
        RemovalStep::ForgetQuota,
        RemovalStep::Audit,
    ]);
    assert!(matches!(after_removal_step(RemovalStep::Audit, None), RemovalNext::Done));
}

#[test]
fn removed_accounts_do_not_come_back() {
    let live = Some("u1".to_string());
    assert!(after_live_account(&live, false));
    assert!(!after_live_account(&live, true));
    assert!(!after_live_account(&None, false));
}

#[test]
fn other_programs_are_answered() {
    assert!(matches!(
        handle_control_request(Action::List),
        ControlStep::Load { message: None, refresh_ui: false }
    ));
    match handle_control_request(Action::Refresh) {
        ControlStep::Load { message: Some((words, tone)), refresh_ui } => {
            assert_eq!(words, "已通过本地 API 刷新额度");
            assert_eq!(tone, Tone::Good);
            assert!(refresh_ui);
        },
        _ => panic!("the rows are loaded"),
    }
    match handle_control_request(Action::Activate("u1".to_string())) {
        ControlStep::Swap(id) => assert_eq!(id, "u1"),
        _ => panic!("the account is switched to"),
    }
    assert!(matches!(after_swap(Err("x".to_string())), ControlStep::Refuse(words) if words == "x"));
    let rows = vec![row("a", "A", true)];
    let message = match after_swap(Ok("done".to_string())) {
        ControlStep::Load { message, refresh_ui: true } => message,
        _ => panic!("the rows are loaded"),
    };
    match control_reply(&rows, &message) {
        Reply::Accounts { accounts, message } => {
            assert_eq!(accounts.len(), 1);
            assert_eq!(accounts[0].label, "A");
            assert!(accounts[0].active);
            assert_eq!(accounts[0].quotas[0].text, "3/4");
            assert_eq!(message.as_deref(), Some("done"));
        },
        _ => panic!("the accounts are told"),
    }
}
