use kimi_subscription_router::accounts::{account_row, Account, AccountRow, Tone};
use kimi_subscription_router::gui::{
    auth_link, device_auth_result, import_result, keep_in_tray, swap_result, touch_shows_window,
    tray_action, worker_message, AuthOutcome, GuiState, Request, Response, RowClicks, TopButton,
    TrayAction, TrayTouch, WindowCommand, WorkDone, REFRESH_SECONDS,
};
use kimi_subscription_router::icon::{app_icon, icon_pixel};
use kimi_subscription_router::json::Json;

fn row(id: &str, label: &str, expires_on: Option<&str>) -> AccountRow {
    let mut extra = vec![];
    if let Some(day) = expires_on {
        extra.push(("subscription_expires_on".to_string(), Json::text(day)));
    }
    let account = Account {
        id: id.to_string(),
        label: label.to_string(),
        active: false,
        manual_only: false,
        extra,
    };
    account_row(&account, Ok(vec![]))
}

fn loaded() -> GuiState {
    let mut state = GuiState::new(true);
    let rows = vec![row("u1", "Work", Some("2026-09-30")), row("u2", "Home", None)];
    state.on_response(Response::List { rows, message: None });
    state
}

fn no_clicks() -> RowClicks {
    RowClicks { swap: None, delete: None, rename: None, expiry: None, routing: None }
}

#[test]
fn begins_at_work_and_unloaded() {
    let state = GuiState::new(false);
    assert!(state.busy && !state.loaded && !state.dark_mode);
    assert_eq!(state.status, "加载中…");
    assert!(state.wants_repaint());
}

#[test]
fn refreshes_only_when_idle_and_old() {
    let mut state = GuiState::new(true);
    assert!(state.auto_refresh(REFRESH_SECONDS).is_none());
    let mut state = loaded();
    assert!(state.auto_refresh(REFRESH_SECONDS - 1).is_none());
    assert!(matches!(state.auto_refresh(REFRESH_SECONDS), Some(Request::Refresh)));
    assert_eq!(state.status, "正在自动刷新额度…");
    assert!(state.busy);
    assert!(state.auto_refresh(REFRESH_SECONDS).is_none());
}

#[test]
fn answers_of_the_worker_are_shown() {
    let mut state = loaded();
    assert!(!state.busy && state.loaded);
    assert_eq!(state.status, "");
    assert_eq!(state.rows.len(), 2);
    state.on_response(Response::List {
        rows: vec![],
        message: Some(("已删除 u1".to_string(), Tone::Good)),
    });
    assert_eq!(state.status, "已删除 u1");
    assert_eq!(state.status_tone, Tone::Good);
    state.on_response(Response::Fatal("初始化失败: x".to_string()));
    assert_eq!(state.status_tone, Tone::Bad);
    state.worker_gone();
    assert_eq!(state.status, "后台线程已退出，请重启程序");
    assert!(!state.busy);
}

#[test]
fn logging_in_can_be_stopped() {
    let mut state = loaded();
    let flag = match state.press(TopButton::AddAccount) {
        Some(Request::StartDeviceAuth(flag)) => flag,
        _ => panic!("the user logs in"),
    };
    assert_eq!(state.auth_dialog.as_ref().unwrap().url, "");
    state.on_response(Response::AuthLink { url: "https://x".to_string(), user_code: "C".to_string() });
    let dialog = state.auth_dialog.as_ref().unwrap();
    assert_eq!((dialog.url.as_str(), dialog.user_code.as_str(), dialog.cancel), ("https://x", "C", flag));
    assert_eq!(state.cancel_auth(), Some(flag));
    assert_eq!(state.status, "已取消添加账号");
    assert_eq!(state.cancel_auth(), None);
    state.on_response(Response::AuthLink { url: "https://y".to_string(), user_code: String::new() });
    let second = state.auth_dialog.as_ref().unwrap().cancel;
    assert_ne!(second, flag);
    assert_eq!(state.close_auth(), Some(second));
    assert_eq!(state.close_auth(), None);
}

#[test]
fn buttons_do_nothing_while_the_worker_works() {
    let mut state = loaded();
    assert!(matches!(state.press(TopButton::Import), Some(Request::Import)));
    assert_eq!(state.status, "正在导入…");
    assert!(state.press(TopButton::Refresh).is_none());
    assert_eq!(state.status, "正在导入…");
    state.toggle_theme();
    assert!(!state.dark_mode);
}

#[test]
fn clicks_in_rows() {
    let mut state = loaded();
    let requests = state.apply_clicks(RowClicks {
        swap: Some("u2".to_string()),
        delete: Some("u1".to_string()),
        rename: Some("u1".to_string()),
        expiry: Some("u1".to_string()),
        routing: None,
    });
    assert_eq!(requests.len(), 1);
    assert!(matches!(&requests[0], Request::Swap(id) if id == "u2"));
    assert_eq!(state.status, "正在切换到 u2…");
    assert_eq!(state.pending_delete.as_deref(), Some("u1"));
    assert_eq!(state.rename_target, Some(("u1".to_string(), "Work".to_string())));
    assert_eq!(
        state.subscription_expiry_target,
        Some(("u1".to_string(), "2026-09-30".to_string()))
    );
    let mut clicks = no_clicks();
    clicks.routing = Some(("u2".to_string(), false));
    clicks.expiry = Some("u9".to_string());
    let requests = state.apply_clicks(clicks);
    assert!(matches!(
        &requests[0],
        Request::SetRoutingEnabled { id, enabled: false } if id == "u2"
    ));
    assert_eq!(state.subscription_expiry_target, Some(("u9".to_string(), String::new())));
}

#[test]
fn accounts_are_named_in_a_dialog() {
    let mut state = loaded();
    let mut clicks = no_clicks();
    clicks.rename = Some("u1".to_string());
    state.apply_clicks(clicks);
    assert!(state.on_rename("Wor".to_string(), false, true).is_none());
    assert_eq!(state.rename_target, Some(("u1".to_string(), "Wor".to_string())));
    match state.on_rename("New".to_string(), true, true) {
        Some(Request::Rename { id, label }) => assert_eq!((id.as_str(), label.as_str()), ("u1", "New")),
        _ => panic!("the name is given"),
    }
    assert_eq!(state.rename_target, None);
    assert_eq!(state.status, "正在重命名…");
    state.rename_target = Some(("u1".to_string(), "x".to_string()));
    assert!(state.on_rename("x".to_string(), false, false).is_none());
    assert_eq!(state.rename_target, None);
}

#[test]
fn days_are_noted_in_a_dialog() {
    let mut state = loaded();
    state.subscription_expiry_target = Some(("u2".to_string(), String::new()));
    assert!(state.on_expiry("2026-13-01".to_string(), true, false, true).is_none());
    assert_eq!(state.status, "日期格式无效，请使用 YYYY-MM-DD，例如 2026-09-30");
    assert_eq!(state.status_tone, Tone::Bad);
    assert!(state.subscription_expiry_target.is_some());
    match state.on_expiry("2026-12-01".to_string(), true, false, true) {
        Some(Request::SetSubscriptionExpiry { id, expires_on }) => {
            assert_eq!((id.as_str(), expires_on.as_str()), ("u2", "2026-12-01"));
        },
        _ => panic!("the day is noted"),
    }
    assert_eq!(state.subscription_expiry_target, None);
    state.subscription_expiry_target = Some(("u2".to_string(), String::new()));
    assert!(state.on_expiry("x".to_string(), false, true, true).is_none());
    assert_eq!(state.subscription_expiry_target, None);
}

#[test]
fn removal_is_confirmed_in_a_dialog() {
    let mut state = loaded();
    assert!(state.on_delete(true, false, true).is_none());
    state.pending_delete = Some("u1".to_string());
    assert!(state.on_delete(false, false, true).is_none());
    assert!(state.pending_delete.is_some());
    assert!(matches!(state.on_delete(true, false, true), Some(Request::Remove(id)) if id == "u1"));
    assert_eq!(state.status, "正在删除 u1…");
    assert_eq!(state.pending_delete, None);
    state.pending_delete = Some("u1".to_string());
    assert!(state.on_delete(false, true, true).is_none());
    assert_eq!(state.pending_delete, None);
}

#[test]
fn tray_shows_and_ends() {
    assert_eq!(tray_action("show-window"), Some(TrayAction::Show));
    assert_eq!(tray_action("exit-app"), Some(TrayAction::Exit));
    assert_eq!(tray_action("other"), None);
    assert!(touch_shows_window(TrayTouch::Click { left: true, released: true }));
    assert!(!touch_shows_window(TrayTouch::Click { left: true, released: false }));
    assert!(!touch_shows_window(TrayTouch::DoubleClick { left: false }));
    assert!(!touch_shows_window(TrayTouch::Other));
    let mut state = loaded();
    assert_eq!(state.on_tray(TrayAction::Show), [
        WindowCommand::Visible(true),
        WindowCommand::Minimized(false),
        WindowCommand::Focus,
    ]);
    assert_eq!(state.exit_command(), None);
    assert!(state.on_tray(TrayAction::Exit).is_empty());
    assert!(state.exit_requested);
    assert_eq!(state.exit_command(), Some(WindowCommand::Close));
    assert_eq!(keep_in_tray(true, false), [
        WindowCommand::CancelClose,
        WindowCommand::Visible(false),
    ]);
    assert_eq!(keep_in_tray(false, true), [
        WindowCommand::Minimized(false),
        WindowCommand::Visible(false),
    ]);
    assert!(keep_in_tray(false, false).is_empty());
}

#[test]
fn work_is_told() {
    let good = |words: &str| Some((words.to_string(), Tone::Good));
    let bad = |words: &str| Some((words.to_string(), Tone::Bad));
    let err = || Err("x".to_string());
    assert_eq!(worker_message(WorkDone::Refreshed), None);
    assert_eq!(worker_message(WorkDone::Imported(Ok("m".to_string()))), good("m"));
    assert_eq!(worker_message(WorkDone::Swapped(err())), bad("x"));
    let removed = WorkDone::Removed { id: "u1".to_string(), result: Ok(()) };
    assert_eq!(worker_message(removed), good("已删除 u1"));
    let kept = WorkDone::Removed { id: "u1".to_string(), result: Err("x".to_string()) };
    assert_eq!(worker_message(kept), bad("删除失败: x"));
    assert_eq!(worker_message(WorkDone::Renamed(err())), bad("重命名失败: x"));
    assert_eq!(worker_message(WorkDone::ExpirySet(err())), bad("保存订阅到期日失败: x"));
    assert_eq!(worker_message(WorkDone::RoutingSet(err())), bad("更新路由状态失败: x"));
    assert_eq!(worker_message(WorkDone::Authorized(err())), bad("x"));
    assert_eq!(swap_result("u1", Ok(())), Ok("已切换到 u1".to_string()));
    assert_eq!(swap_result("u1", Err("x".to_string())), Err("切换到 u1 失败: x".to_string()));
    assert_eq!(import_result(Ok("u1".to_string())), Ok("已导入账号 u1".to_string()));
    assert_eq!(
        import_result(err()),
        Err("导入失败：请先在 Kimi Code 里登录账号: x".to_string())
    );
    let cause = || "x".to_string();
    assert_eq!(device_auth_result(AuthOutcome::NoLink(cause())), Err("获取授权链接失败: x".to_string()));
    assert_eq!(device_auth_result(AuthOutcome::NotAuthorized(cause())), Err("x".to_string()));
    assert_eq!(
        device_auth_result(AuthOutcome::NotSaved(cause())),
        Err("授权成功但入库失败: x".to_string())
    );
    assert_eq!(
        device_auth_result(AuthOutcome::Saved { account_id: "u1".to_string() }),
        Ok("授权成功，已添加账号 u1".to_string())
    );
    assert_eq!(auth_link(Some("full".to_string()), "plain".to_string()), "full");
    assert_eq!(auth_link(None, "plain".to_string()), "plain");
}

#[test]
fn picture_has_arrows_on_a_rounded_square() {
    let rgba = app_icon();
    assert_eq!(rgba.len(), 4096);
    let at = |x: usize, y: usize| {
        let i = (y * 32 + x) * 4;
        [rgba[i], rgba[i + 1], rgba[i + 2], rgba[i + 3]]
    };
    assert_eq!(at(0, 0), [0, 0, 0, 0]);
    assert_eq!(at(16, 0), [88, 166, 255, 255]);
    assert_eq!(at(16, 12), [255, 255, 255, 255]);
    assert_eq!(at(24, 12), [255, 255, 255, 255]);
    assert_eq!(at(8, 20), [255, 255, 255, 255]);
    assert_eq!(at(16, 16), [88, 166, 255, 255]);
    assert_eq!(icon_pixel(31, 31).alpha, 0);
    for y in 0..32 {
        for x in 0..32 {
            let px = x as f32 + 0.5 - 16.0;
            let py = y as f32 + 0.5 - 16.0;
            let qx = px.abs() - 8.0;
            let qy = py.abs() - 8.0;
            let far = qx.max(qy).min(0.0) + f32::max(qx, 0.0).hypot(f32::max(qy, 0.0)) - 8.0;
            assert_eq!(icon_pixel(x, y).alpha == 255, far < 0.0);
        }
    }
}
