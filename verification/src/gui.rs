//! What the window shows, and what the user's clicks come to.
//!
//! A [`GuiState`] draws nothing. Whoever draws the window reads the state, tells it what the user
//! did and what the worker answered, and hands the requests that come of it to the worker.

use vstd::prelude::*;

use crate::accounts;
use crate::accounts::{AccountRow, RowView, Tone};
use crate::text;

verus! {

// ---------------------------------------------------------------------------
// Requests and responses
// ---------------------------------------------------------------------------

/// What the worker is asked to do.
pub enum Request {
    /// Query the quotas again and list the accounts.
    Refresh,
    /// Add an account by letting the user log in with a browser; the flag stops that.
    StartDeviceAuth(u64),
    /// Import the account that is logged in on this machine.
    Import,
    /// Switch to an account.
    Swap(String),
    /// Remove an account.
    Remove(String),
    /// Give an account a name.
    Rename { id: String, label: String },
    /// Note the day on which the subscription of an account ends; blank takes the note away.
    SetSubscriptionExpiry { id: String, expires_on: String },
    /// Let an account take part in routing, or not.
    SetRoutingEnabled { id: String, enabled: bool },
}

/// What a request says.
pub enum RequestView {
    Refresh,
    StartDeviceAuth(u64),
    Import,
    Swap(Seq<char>),
    Remove(Seq<char>),
    Rename { id: Seq<char>, label: Seq<char> },
    SetSubscriptionExpiry { id: Seq<char>, expires_on: Seq<char> },
    SetRoutingEnabled { id: Seq<char>, enabled: bool },
}

impl Request {
    pub open spec fn view(&self) -> RequestView {
        match self {
            Request::Refresh => RequestView::Refresh,
            Request::StartDeviceAuth(flag) => RequestView::StartDeviceAuth(*flag),
            Request::Import => RequestView::Import,
            Request::Swap(id) => RequestView::Swap(id@),
            Request::Remove(id) => RequestView::Remove(id@),
            Request::Rename { id, label } => RequestView::Rename { id: id@, label: label@ },
            Request::SetSubscriptionExpiry {
                id,
                expires_on,
            } => RequestView::SetSubscriptionExpiry { id: id@, expires_on: expires_on@ },
            Request::SetRoutingEnabled { id, enabled } => RequestView::SetRoutingEnabled {
                id: id@,
                enabled: *enabled,
            },
        }
    }
}

/// What an optional request says.
pub open spec fn request_view(request: Option<Request>) -> Option<RequestView> {
    match request {
        Some(request) => Some(request@),
        None => None,
    }
}

/// What requests say, one by one.
pub open spec fn requests_view(requests: Seq<Request>) -> Seq<RequestView> {
    requests.map_values(|request: Request| request@)
}

/// What the worker answers.
pub enum Response {
    /// Something is done: the accounts, and a message if there is one.
    List { rows: Vec<AccountRow>, message: Option<(String, Tone)> },
    /// Where the user can log in, and with which code.
    AuthLink { url: String, user_code: String },
    /// The worker cannot work.
    Fatal(String),
}

/// What a message says.
pub open spec fn message_view(message: Option<(String, Tone)>) -> Option<(Seq<char>, Tone)> {
    match message {
        Some((words, tone)) => Some((words@, tone)),
        None => None,
    }
}

// ---------------------------------------------------------------------------
// What the worker tells of its work
// ---------------------------------------------------------------------------

/// What came of a request, with the words of the message or the error.
pub enum WorkDone {
    Refreshed,
    Imported(Result<String, String>),
    Swapped(Result<String, String>),
    Removed { id: String, result: Result<(), String> },
    Renamed(Result<String, String>),
    ExpirySet(Result<String, String>),
    RoutingSet(Result<String, String>),
    Authorized(Result<String, String>),
}

/// A message that something was done, or an error with words before it.
pub open spec fn told(result: Result<String, String>, before: Seq<char>) -> (Seq<char>, Tone) {
    match result {
        Ok(words) => (words@, Tone::Good),
        Err(words) => (before + words@, Tone::Bad),
    }
}

/// The message for what came of a request.
pub open spec fn work_message(done: WorkDone) -> Option<(Seq<char>, Tone)> {
    match done {
        WorkDone::Refreshed => None,
        WorkDone::Imported(result) => Some(told(result, Seq::empty())),
        WorkDone::Swapped(result) => Some(told(result, Seq::empty())),
        WorkDone::Removed { id, result } => Some(
            match result {
                Ok(_) => ("已删除 "@ + id@, Tone::Good),
                Err(words) => ("删除失败: "@ + words@, Tone::Bad),
            },
        ),
        WorkDone::Renamed(result) => Some(told(result, "重命名失败: "@)),
        WorkDone::ExpirySet(result) => Some(told(result, "保存订阅到期日失败: "@)),
        WorkDone::RoutingSet(result) => Some(told(result, "更新路由状态失败: "@)),
        WorkDone::Authorized(result) => Some(told(result, Seq::empty())),
    }
}

fn tell(result: Result<String, String>, before: &str) -> (message: (String, Tone))
    ensures
        (message.0@, message.1) == told(result, before@),
{
    match result {
        Ok(words) => (words, Tone::Good),
        Err(words) => (text::join(before, words.as_str()), Tone::Bad),
    }
}

/// The message for what came of a request.
pub fn worker_message(done: WorkDone) -> (message: Option<(String, Tone)>)
    ensures
        message_view(message) == work_message(done),
{
    proof {
        reveal_strlit("");
        assert(""@ =~= Seq::empty());
    }
    match done {
        WorkDone::Refreshed => None,
        WorkDone::Imported(result) => Some(tell(result, "")),
        WorkDone::Swapped(result) => Some(tell(result, "")),
        WorkDone::Removed { id, result } => match result {
            Ok(_) => Some((text::join("已删除 ", id.as_str()), Tone::Good)),
            Err(words) => Some((text::join("删除失败: ", words.as_str()), Tone::Bad)),
        },
        WorkDone::Renamed(result) => Some(tell(result, "重命名失败: ")),
        WorkDone::ExpirySet(result) => Some(tell(result, "保存订阅到期日失败: ")),
        WorkDone::RoutingSet(result) => Some(tell(result, "更新路由状态失败: ")),
        WorkDone::Authorized(result) => Some(tell(result, "")),
    }
}

/// What came of the steps of an account that is added by logging in.
pub enum AuthOutcome {
    /// There was no link to log in at.
    NoLink(String),
    /// The user did not log in.
    NotAuthorized(String),
    /// The user logged in, but the account was not saved.
    NotSaved(String),
    /// The account was saved.
    Saved { account_id: String },
}

/// The words for what came of adding an account.
pub fn device_auth_result(outcome: AuthOutcome) -> (result: Result<String, String>)
    ensures
        match outcome {
            AuthOutcome::NoLink(cause) => result matches Err(words) && words@
                == "获取授权链接失败: "@ + cause@,
            AuthOutcome::NotAuthorized(cause) => result matches Err(words) && words@ == cause@,
            AuthOutcome::NotSaved(cause) => result matches Err(words) && words@
                == "授权成功但入库失败: "@ + cause@,
            AuthOutcome::Saved { account_id } => result matches Ok(words) && words@
                == "授权成功，已添加账号 "@ + account_id@,
        },
{
    match outcome {
        AuthOutcome::NoLink(cause) => Err(text::join("获取授权链接失败: ", cause.as_str())),
        AuthOutcome::NotAuthorized(cause) => Err(cause),
        AuthOutcome::NotSaved(cause) => Err(
            text::join("授权成功但入库失败: ", cause.as_str()),
        ),
        AuthOutcome::Saved { account_id } => Ok(
            text::join("授权成功，已添加账号 ", account_id.as_str()),
        ),
    }
}

/// The words for what came of switching to an account.
pub fn swap_result(id: &str, activated: Result<(), String>) -> (result: Result<String, String>)
    ensures
        match activated {
            Ok(_) => result matches Ok(words) && words@ == "已切换到 "@ + id@,
            Err(cause) => result matches Err(words) && words@ == "切换到 "@ + id@ + " 失败: "@
                + cause@,
        },
{
    match activated {
        Ok(_) => Ok(text::join("已切换到 ", id)),
        Err(cause) => {
            let mut words = text::join3("切换到 ", id, " 失败: ");
            words.append(cause.as_str());
            Err(words)
        },
    }
}

/// The words for what came of importing the account that is logged in.
pub fn import_result(imported: Result<String, String>) -> (result: Result<String, String>)
    ensures
        match imported {
            Ok(account_id) => result matches Ok(words) && words@ == "已导入账号 "@ + account_id@,
            Err(cause) => result matches Err(words) && words@
                == "导入失败：请先在 Kimi Code 里登录账号: "@ + cause@,
        },
{
    match imported {
        Ok(account_id) => Ok(text::join("已导入账号 ", account_id.as_str())),
        Err(cause) => Err(
            text::join("导入失败：请先在 Kimi Code 里登录账号: ", cause.as_str()),
        ),
    }
}

/// The link at which the user logs in: the one with the code in it, if there is one.
pub fn auth_link(complete: Option<String>, plain: String) -> (url: String)
    ensures
        url@ == (match complete {
            Some(link) => link@,
            None => plain@,
        }),
{
    match complete {
        Some(link) => link,
        None => plain,
    }
}

// ---------------------------------------------------------------------------
// The state
// ---------------------------------------------------------------------------

/// The dialog in which an account is added by logging in; the link is empty until it is known.
pub struct AuthDialog {
    pub url: String,
    pub user_code: String,
    /// The flag that stops the worker's waiting.
    pub cancel: u64,
}

/// What a dialog says.
pub struct AuthView {
    pub url: Seq<char>,
    pub user_code: Seq<char>,
    pub cancel: u64,
}

impl AuthDialog {
    pub open spec fn view(&self) -> AuthView {
        AuthView { url: self.url@, user_code: self.user_code@, cancel: self.cancel }
    }
}

/// All that decides what the window shows.
pub struct GuiState {
    pub rows: Vec<AccountRow>,
    /// Whether the worker is at work.
    pub busy: bool,
    /// Whether the worker has answered yet.
    pub loaded: bool,
    pub status: String,
    pub status_tone: Tone,
    /// The account that the user may want to remove.
    pub pending_delete: Option<String>,
    /// The account that is given a name, and the name so far.
    pub rename_target: Option<(String, String)>,
    /// The account of which a day is noted, and the day so far.
    pub subscription_expiry_target: Option<(String, String)>,
    pub auth_dialog: Option<AuthDialog>,
    pub dark_mode: bool,
    /// Whether the user wants the program to end.
    pub exit_requested: bool,
    /// How many flags were made.
    pub flags: u64,
}

/// What the state says.
#[verifier::ext_equal]
pub struct GuiView {
    pub rows: Seq<RowView>,
    pub busy: bool,
    pub loaded: bool,
    pub status: Seq<char>,
    pub status_tone: Tone,
    pub pending_delete: Option<Seq<char>>,
    pub rename_target: Option<(Seq<char>, Seq<char>)>,
    pub subscription_expiry_target: Option<(Seq<char>, Seq<char>)>,
    pub auth_dialog: Option<AuthView>,
    pub dark_mode: bool,
    pub exit_requested: bool,
    pub flags: u64,
}

/// What an account with an edited text says.
pub open spec fn target_view(target: Option<(String, String)>) -> Option<(Seq<char>, Seq<char>)> {
    match target {
        Some((id, edited)) => Some((id@, edited@)),
        None => None,
    }
}

impl GuiState {
    pub open spec fn view(&self) -> GuiView {
        GuiView {
            rows: accounts::rows_view(self.rows@),
            busy: self.busy,
            loaded: self.loaded,
            status: self.status@,
            status_tone: self.status_tone,
            pending_delete: accounts::option_text(self.pending_delete),
            rename_target: target_view(self.rename_target),
            subscription_expiry_target: target_view(self.subscription_expiry_target),
            auth_dialog: match self.auth_dialog {
                Some(dialog) => Some(dialog@),
                None => None,
            },
            dark_mode: self.dark_mode,
            exit_requested: self.exit_requested,
            flags: self.flags,
        }
    }
}

/// The state before the worker has answered.
pub open spec fn fresh_view(dark_mode: bool) -> GuiView {
    GuiView {
        rows: Seq::empty(),
        busy: true,
        loaded: false,
        status: "加载中…"@,
        status_tone: Tone::Info,
        pending_delete: None,
        rename_target: None,
        subscription_expiry_target: None,
        auth_dialog: None,
        dark_mode,
        exit_requested: false,
        flags: 0,
    }
}

impl GuiView {
    /// The state while the worker is at work on a request.
    pub open spec fn sending(self, status: Seq<char>) -> GuiView {
        GuiView { busy: true, status, status_tone: Tone::Info, ..self }
    }

    /// The number of the next flag.
    pub open spec fn next_flag(self) -> u64 {
        if self.flags == u64::MAX {
            0
        } else {
            (self.flags + 1) as u64
        }
    }
}

impl GuiState {
    /// The state before the worker has answered.
    pub fn new(dark_mode: bool) -> (state: GuiState)
        ensures
            state@ == fresh_view(dark_mode),
    {
        let state = GuiState {
            rows: Vec::new(),
            busy: true,
            loaded: false,
            status: "加载中…".to_owned(),
            status_tone: Tone::Info,
            pending_delete: None,
            rename_target: None,
            subscription_expiry_target: None,
            auth_dialog: None,
            dark_mode,
            exit_requested: false,
            flags: 0,
        };
        proof {
            assert(state@ =~= fresh_view(dark_mode));
        }
        state
    }

    /// Takes note that a request goes to the worker.
    fn send(&mut self, status: String)
        ensures
            final(self)@ == old(self)@.sending(status@),
    {
        self.busy = true;
        self.status = status;
        self.status_tone = Tone::Info;
    }

    /// Takes note that the worker is gone.
    pub fn worker_gone(&mut self)
        ensures
            final(self)@ == (GuiView {
                busy: false,
                status: "后台线程已退出，请重启程序"@,
                status_tone: Tone::Bad,
                ..old(self)@
            }),
    {
        self.busy = false;
        self.status = "后台线程已退出，请重启程序".to_owned();
        self.status_tone = Tone::Bad;
    }
}

// ---------------------------------------------------------------------------
// Time and the worker
// ---------------------------------------------------------------------------

/// How long the quotas stay as they are before they are queried again, in seconds.
pub const REFRESH_SECONDS: u64 = 300;

impl GuiState {
    /// Asks for the quotas again where the worker is idle and they are old, given the seconds since
    /// they were last asked for or told.
    pub fn auto_refresh(&mut self, elapsed_seconds: u64) -> (request: Option<Request>)
        ensures
            !old(self)@.busy && elapsed_seconds >= REFRESH_SECONDS ==> request_view(request)
                == Some(RequestView::Refresh) && final(self)@ == old(self)@.sending(
                "正在自动刷新额度…"@,
            ),
            old(self)@.busy || elapsed_seconds < REFRESH_SECONDS ==> request is None
                && final(self)@ == old(self)@,
    {
        if self.busy || elapsed_seconds < REFRESH_SECONDS {
            return None;
        }
        self.send("正在自动刷新额度…".to_owned());
        Some(Request::Refresh)
    }

    /// Whether the window is to be drawn again soon, though nothing happens.
    pub fn wants_repaint(&self) -> (wants: bool)
        ensures
            wants == (self@.busy || self@.auth_dialog is Some),
    {
        self.busy || self.auth_dialog.is_some()
    }
}

/// The state after the worker answered.
pub open spec fn responded(gui: GuiView, response: Response) -> GuiView {
    match response {
        Response::List { rows, message } => {
            let listed = GuiView {
                rows: accounts::rows_view(rows@),
                busy: false,
                loaded: true,
                auth_dialog: None,
                ..gui
            };
            match message {
                Some((words, tone)) => GuiView { status: words@, status_tone: tone, ..listed },
                None => GuiView { status: Seq::empty(), ..listed },
            }
        },
        Response::AuthLink { url, user_code } => match gui.auth_dialog {
            Some(dialog) => GuiView {
                auth_dialog: Some(
                    AuthView { url: url@, user_code: user_code@, cancel: dialog.cancel },
                ),
                ..gui
            },
            None => GuiView {
                auth_dialog: Some(
                    AuthView { url: url@, user_code: user_code@, cancel: gui.next_flag() },
                ),
                flags: gui.next_flag(),
                ..gui
            },
        },
        Response::Fatal(words) => GuiView {
            busy: false,
            loaded: true,
            status: words@,
            status_tone: Tone::Bad,
            ..gui
        },
    }
}

impl GuiState {
    /// Takes an answer of the worker. A list ends the logging in, however that went.
    pub fn on_response(&mut self, response: Response)
        ensures
            final(self)@ == responded(old(self)@, response),
    {
        let ghost expected = responded(self@, response);
        match response {
            Response::List { rows, message } => {
                self.rows = rows;
                self.busy = false;
                self.loaded = true;
                self.auth_dialog = None;
                match message {
                    Some((words, tone)) => {
                        self.status = words;
                        self.status_tone = tone;
                    },
                    None => {
                        self.status = String::new();
                        proof {
                            assert(self.status@ =~= Seq::empty());
                        }
                    },
                }
            },
            Response::AuthLink { url, user_code } => {
                let cancel = match &self.auth_dialog {
                    Some(dialog) => dialog.cancel,
                    None => {
                        self.flags = self.flags.wrapping_add(1);
                        self.flags
                    },
                };
                self.auth_dialog = Some(AuthDialog { url, user_code, cancel });
            },
            Response::Fatal(words) => {
                self.busy = false;
                self.loaded = true;
                self.status = words;
                self.status_tone = Tone::Bad;
            },
        }
        proof {
            assert(self@ =~= expected);
        }
    }
}

// ---------------------------------------------------------------------------
// The tray and the window
// ---------------------------------------------------------------------------

/// What the user asks for in the tray.
#[derive(Debug, Clone, Copy, PartialEq, Eq, Structural)]
pub enum TrayAction {
    Show,
    Exit,
}

/// What is done with the window.
#[derive(Debug, Clone, Copy, PartialEq, Eq, Structural)]
pub enum WindowCommand {
    Visible(bool),
    Minimized(bool),
    Focus,
    Close,
    CancelClose,
}

/// The entry of the tray's menu that shows the window.
pub open spec fn show_entry() -> Seq<char> {
    "show-window"@
}

/// The entry of the tray's menu that ends the program.
pub open spec fn exit_entry() -> Seq<char> {
    "exit-app"@
}

/// What an entry of the tray's menu asks for.
pub fn tray_action(entry: &str) -> (action: Option<TrayAction>)
    ensures
        action == if entry@ == show_entry() {
            Some(TrayAction::Show)
        } else if entry@ == exit_entry() {
            Some(TrayAction::Exit)
        } else {
            None
        },
{
    if text::same_text(entry, "show-window") {
        Some(TrayAction::Show)
    } else if text::same_text(entry, "exit-app") {
        Some(TrayAction::Exit)
    } else {
        None
    }
}

/// How the tray's mark was touched.
#[derive(Debug, Clone, Copy, PartialEq, Eq, Structural)]
pub enum TrayTouch {
    Click { left: bool, released: bool },
    DoubleClick { left: bool },
    Other,
}

/// Whether a touch of the tray's mark shows the window: a double click with the left button, or the
/// end of a click with it.
pub fn touch_shows_window(touch: TrayTouch) -> (shows: bool)
    ensures
        shows == (match touch {
            TrayTouch::Click { left, released } => left && released,
            TrayTouch::DoubleClick { left } => left,
            TrayTouch::Other => false,
        }),
{
    match touch {
        TrayTouch::Click { left, released } => left && released,
        TrayTouch::DoubleClick { left } => left,
        TrayTouch::Other => false,
    }
}

impl GuiState {
    /// Takes what the user asks for in the tray, and says what is done with the window.
    pub fn on_tray(&mut self, action: TrayAction) -> (commands: Vec<WindowCommand>)
        ensures
            action == TrayAction::Show ==> final(self)@ == old(self)@ && commands@ == seq![
                WindowCommand::Visible(true),
                WindowCommand::Minimized(false),
                WindowCommand::Focus,
            ],
            action == TrayAction::Exit ==> final(self)@ == (GuiView {
                exit_requested: true,
                ..old(self)@
            }) && commands@ == Seq::<WindowCommand>::empty(),
    {
        let mut commands: Vec<WindowCommand> = Vec::new();
        match action {
            TrayAction::Show => {
                commands.push(WindowCommand::Visible(true));
                commands.push(WindowCommand::Minimized(false));
                commands.push(WindowCommand::Focus);
            },
            TrayAction::Exit => {
                self.exit_requested = true;
            },
        }
        commands
    }
}

impl GuiState {
    /// What is done with the window where the user wants the program to end.
    pub fn exit_command(&self) -> (command: Option<WindowCommand>)
        ensures
            command == if self@.exit_requested {
                Some(WindowCommand::Close)
            } else {
                None
            },
    {
        if self.exit_requested {
            Some(WindowCommand::Close)
        } else {
            None
        }
    }
}

/// What is done with the window where there is a tray: it hides instead of closing or going small.
pub fn keep_in_tray(close_requested: bool, minimized: bool) -> (commands: Vec<WindowCommand>)
    ensures
        commands@ == (if close_requested {
            seq![WindowCommand::CancelClose, WindowCommand::Visible(false)]
        } else {
            Seq::empty()
        }) + (if minimized {
            seq![WindowCommand::Minimized(false), WindowCommand::Visible(false)]
        } else {
            Seq::empty()
        }),
{
    let mut commands: Vec<WindowCommand> = Vec::new();
    if close_requested {
        commands.push(WindowCommand::CancelClose);
        commands.push(WindowCommand::Visible(false));
    }
    if minimized {
        commands.push(WindowCommand::Minimized(false));
        commands.push(WindowCommand::Visible(false));
    }
    commands
}

// ---------------------------------------------------------------------------
// The buttons above the rows
// ---------------------------------------------------------------------------

/// A button above the rows that gives the worker something to do.
#[derive(Debug, Clone, Copy, PartialEq, Eq, Structural)]
pub enum TopButton {
    Refresh,
    Import,
    AddAccount,
}

/// The state after a button above the rows was pressed, and the request that comes of it. A button
/// does nothing while the worker is at work.
pub open spec fn pressed(gui: GuiView, button: TopButton) -> (GuiView, Option<RequestView>) {
    if gui.busy {
        (gui, None)
    } else {
        match button {
            TopButton::Refresh => (gui.sending("正在刷新额度…"@), Some(RequestView::Refresh)),
            TopButton::Import => (gui.sending("正在导入…"@), Some(RequestView::Import)),
            TopButton::AddAccount => {
                let flag = gui.next_flag();
                let asked = GuiView {
                    auth_dialog: Some(
                        AuthView { url: Seq::empty(), user_code: Seq::empty(), cancel: flag },
                    ),
                    flags: flag,
                    ..gui
                };
                (asked.sending("正在获取授权链接…"@), Some(RequestView::StartDeviceAuth(flag)))
            },
        }
    }
}

impl GuiState {
    /// Takes a press of a button above the rows.
    pub fn press(&mut self, button: TopButton) -> (request: Option<Request>)
        ensures
            (final(self)@, request_view(request)) == pressed(old(self)@, button),
    {
        let ghost before = self@;
        if self.busy {
            return None;
        }
        match button {
            TopButton::Refresh => {
                self.send("正在刷新额度…".to_owned());
                Some(Request::Refresh)
            },
            TopButton::Import => {
                self.send("正在导入…".to_owned());
                Some(Request::Import)
            },
            TopButton::AddAccount => {
                self.flags = self.flags.wrapping_add(1);
                let flag = self.flags;
                self.auth_dialog = Some(
                    AuthDialog { url: String::new(), user_code: String::new(), cancel: flag },
                );
                self.send("正在获取授权链接…".to_owned());
                proof {
                    assert(self.auth_dialog->0.url@ =~= Seq::empty());
                    assert(self.auth_dialog->0.user_code@ =~= Seq::empty());
                    assert(self@ =~= pressed(before, button).0);
                }
                Some(Request::StartDeviceAuth(flag))
            },
        }
    }

    /// Changes between the dark look and the bright one.
    pub fn toggle_theme(&mut self)
        ensures
            final(self)@ == (GuiView { dark_mode: !old(self)@.dark_mode, ..old(self)@ }),
    {
        self.dark_mode = !self.dark_mode;
    }
}

// ---------------------------------------------------------------------------
// The rows
// ---------------------------------------------------------------------------

/// What the user clicked in the rows; each is the id of the account whose row it was.
pub struct RowClicks {
    pub swap: Option<String>,
    pub delete: Option<String>,
    pub rename: Option<String>,
    pub expiry: Option<String>,
    pub routing: Option<(String, bool)>,
}

/// What clicks say.
pub struct ClicksView {
    pub swap: Option<Seq<char>>,
    pub delete: Option<Seq<char>>,
    pub rename: Option<Seq<char>>,
    pub expiry: Option<Seq<char>>,
    pub routing: Option<(Seq<char>, bool)>,
}

impl RowClicks {
    pub open spec fn view(&self) -> ClicksView {
        ClicksView {
            swap: accounts::option_text(self.swap),
            delete: accounts::option_text(self.delete),
            rename: accounts::option_text(self.rename),
            expiry: accounts::option_text(self.expiry),
            routing: match self.routing {
                Some((id, enabled)) => Some((id@, enabled)),
                None => None,
            },
        }
    }
}

/// The first row of an account.
pub open spec fn row_with(rows: Seq<RowView>, id: Seq<char>) -> Option<RowView>
    decreases rows.len(),
{
    if rows.len() == 0 {
        None
    } else if rows[0].id == id {
        Some(rows[0])
    } else {
        row_with(rows.drop_first(), id)
    }
}

/// The text with which the naming of an account begins.
pub open spec fn label_to_edit(rows: Seq<RowView>, id: Seq<char>) -> Seq<char> {
    match row_with(rows, id) {
        Some(row) => row.label,
        None => Seq::empty(),
    }
}

/// The text with which the noting of a day begins.
pub open spec fn expiry_to_edit(rows: Seq<RowView>, id: Seq<char>) -> Seq<char> {
    match row_with(rows, id) {
        Some(row) => match row.subscription_expires_on {
            Some(day) => day,
            None => Seq::empty(),
        },
        None => Seq::empty(),
    }
}

/// The state after clicks in the rows.
pub open spec fn clicked(gui: GuiView, clicks: ClicksView) -> GuiView {
    let swapped = match clicks.swap {
        Some(id) => gui.sending("正在切换到 "@ + id + "…"@),
        None => gui,
    };
    let opened = GuiView {
        pending_delete: match clicks.delete {
            Some(id) => Some(id),
            None => gui.pending_delete,
        },
        rename_target: match clicks.rename {
            Some(id) => Some((id, label_to_edit(gui.rows, id))),
            None => gui.rename_target,
        },
        subscription_expiry_target: match clicks.expiry {
            Some(id) => Some((id, expiry_to_edit(gui.rows, id))),
            None => gui.subscription_expiry_target,
        },
        ..swapped
    };
    match clicks.routing {
        Some(_) => opened.sending("正在更新路由状态…"@),
        None => opened,
    }
}

/// The requests that come of clicks in the rows.
pub open spec fn click_requests(clicks: ClicksView) -> Seq<RequestView> {
    (match clicks.swap {
        Some(id) => seq![RequestView::Swap(id)],
        None => Seq::empty(),
    }) + (match clicks.routing {
        Some((id, enabled)) => seq![RequestView::SetRoutingEnabled { id, enabled }],
        None => Seq::empty(),
    })
}

fn find_row(rows: &Vec<AccountRow>, id: &str) -> (at: Option<usize>)
    ensures
        at is Some == row_with(accounts::rows_view(rows@), id@) is Some,
        at matches Some(i) ==> i < rows@.len() && row_with(accounts::rows_view(rows@), id@)
            == Some(rows@[i as int]@),
{
    let ghost all = accounts::rows_view(rows@);
    let mut at: usize = 0;
    proof {
        assert(all.skip(0) =~= all);
    }
    while at < rows.len()
        invariant
            at <= rows@.len(),
            all == accounts::rows_view(rows@),
            row_with(all, id@) == row_with(all.skip(at as int), id@),
        decreases rows@.len() - at,
    {
        proof {
            assert(all.skip(at as int)[0] == rows@[at as int]@);
            assert(all.skip(at as int).drop_first() =~= all.skip(at + 1));
        }
        if text::same_text(rows[at].id.as_str(), id) {
            return Some(at);
        }
        at += 1;
    }
    None
}

impl GuiState {
    /// Takes the clicks in the rows.
    pub fn apply_clicks(&mut self, clicks: RowClicks) -> (requests: Vec<Request>)
        ensures
            final(self)@ == clicked(old(self)@, clicks@),
            requests_view(requests@) == click_requests(clicks@),
    {
        let ghost expected = clicked(self@, clicks@);
        let ghost given = clicks@;
        let mut requests: Vec<Request> = Vec::new();
        match clicks.swap {
            Some(id) => {
                self.send(text::join3("正在切换到 ", id.as_str(), "…"));
                requests.push(Request::Swap(id));
            },
            None => {},
        }
        match clicks.delete {
            Some(id) => {
                self.pending_delete = Some(id);
            },
            None => {},
        }
        match clicks.rename {
            Some(id) => {
                let current = match find_row(&self.rows, id.as_str()) {
                    Some(at) => self.rows[at].label.clone(),
                    None => String::new(),
                };
                proof {
                    assert(current@ =~= label_to_edit(self@.rows, id@));
                }
                self.rename_target = Some((id, current));
            },
            None => {},
        }
        match clicks.expiry {
            Some(id) => {
                let current = match find_row(&self.rows, id.as_str()) {
                    Some(at) => match &self.rows[at].subscription_expires_on {
                        Some(day) => day.clone(),
                        None => String::new(),
                    },
                    None => String::new(),
                };
                proof {
                    assert(current@ =~= expiry_to_edit(self@.rows, id@));
                }
                self.subscription_expiry_target = Some((id, current));
            },
            None => {},
        }
        match clicks.routing {
            Some((id, enabled)) => {
                self.send("正在更新路由状态…".to_owned());
                requests.push(Request::SetRoutingEnabled { id, enabled });
            },
            None => {},
        }
        proof {
            assert(self@ =~= expected);
            assert(requests_view(requests@) =~= click_requests(given));
        }
        requests
    }
}

// ---------------------------------------------------------------------------
// The dialogs
// ---------------------------------------------------------------------------

impl GuiState {
    /// Takes the press that ends the adding of an account, and gives the flag that is to be raised.
    pub fn cancel_auth(&mut self) -> (flag: Option<u64>)
        ensures
            flag == (match old(self)@.auth_dialog {
                Some(dialog) => Some(dialog.cancel),
                None => None,
            }),
            old(self)@.auth_dialog is Some ==> final(self)@ == (GuiView {
                auth_dialog: None,
                status: "已取消添加账号"@,
                status_tone: Tone::Info,
                ..old(self)@
            }),
            old(self)@.auth_dialog is None ==> final(self)@ == old(self)@,
    {
        match self.auth_dialog.take() {
            Some(dialog) => {
                self.status = "已取消添加账号".to_owned();
                self.status_tone = Tone::Info;
                Some(dialog.cancel)
            },
            None => None,
        }
    }

    /// Takes the closing of the dialog in which an account is added, and gives the flag that is to
    /// be raised.
    pub fn close_auth(&mut self) -> (flag: Option<u64>)
        ensures
            flag == (match old(self)@.auth_dialog {
                Some(dialog) => Some(dialog.cancel),
                None => None,
            }),
            final(self)@ == (GuiView { auth_dialog: None, ..old(self)@ }),
    {
        match self.auth_dialog.take() {
            Some(dialog) => Some(dialog.cancel),
            None => None,
        }
    }
}

/// The state after the dialog in which an account is named was shown, and the request that comes of
/// it. A name that is not confirmed is edited on as long as the dialog is open.
pub open spec fn rename_edited(
    gui: GuiView,
    label: Seq<char>,
    confirmed: bool,
    open: bool,
) -> (GuiView, Option<RequestView>) {
    match gui.rename_target {
        None => (gui, None),
        Some((id, _)) => if confirmed {
            (
                GuiView { rename_target: None, ..gui.sending("正在重命名…"@) },
                Some(RequestView::Rename { id, label }),
            )
        } else if !open {
            (GuiView { rename_target: None, ..gui }, None)
        } else {
            (GuiView { rename_target: Some((id, label)), ..gui }, None)
        },
    }
}

/// The state after the dialog in which a day is noted was shown, and the request that comes of it.
/// What is confirmed but no day is told to the user and edited on.
pub open spec fn expiry_edited(
    gui: GuiView,
    expires_on: Seq<char>,
    confirmed: bool,
    cancelled: bool,
    open: bool,
) -> (GuiView, Option<RequestView>) {
    match gui.subscription_expiry_target {
        None => (gui, None),
        Some((id, _)) => {
            let going_on = GuiView { subscription_expiry_target: Some((id, expires_on)), ..gui };
            let over = GuiView { subscription_expiry_target: None, ..gui };
            if confirmed {
                if accounts::expiry_in(expires_on) is Some {
                    (
                        over.sending("正在保存订阅到期日…"@),
                        Some(RequestView::SetSubscriptionExpiry { id, expires_on }),
                    )
                } else {
                    (
                        GuiView {
                            status: accounts::bad_date(),
                            status_tone: Tone::Bad,
                            ..going_on
                        },
                        None,
                    )
                }
            } else if !open || cancelled {
                (over, None)
            } else {
                (going_on, None)
            }
        },
    }
}

/// The state after the dialog in which an account is removed was shown, and the request that comes
/// of it.
pub open spec fn delete_answered(
    gui: GuiView,
    confirmed: bool,
    cancelled: bool,
    open: bool,
) -> (GuiView, Option<RequestView>) {
    match gui.pending_delete {
        None => (gui, None),
        Some(id) => {
            let over = GuiView { pending_delete: None, ..gui };
            if confirmed {
                (over.sending("正在删除 "@ + id + "…"@), Some(RequestView::Remove(id)))
            } else if cancelled || !open {
                (over, None)
            } else {
                (gui, None)
            }
        },
    }
}

impl GuiState {
    /// Takes what the user did in the dialog in which an account is named.
    pub fn on_rename(&mut self, label: String, confirmed: bool, open: bool) -> (request: Option<
        Request,
    >)
        ensures
            (final(self)@, request_view(request)) == rename_edited(
                old(self)@,
                label@,
                confirmed,
                open,
            ),
    {
        let ghost expected = rename_edited(self@, label@, confirmed, open);
        match self.rename_target.take() {
            None => {
                proof {
                    assert(self@ =~= expected.0);
                }
                None
            },
            Some((id, _)) => {
                if confirmed {
                    self.send("正在重命名…".to_owned());
                    proof {
                        assert(self@ =~= expected.0);
                    }
                    Some(Request::Rename { id, label })
                } else {
                    if open {
                        self.rename_target = Some((id, label));
                    }
                    proof {
                        assert(self@ =~= expected.0);
                    }
                    None
                }
            },
        }
    }

    /// Takes what the user did in the dialog in which a day is noted.
    pub fn on_expiry(
        &mut self,
        expires_on: String,
        confirmed: bool,
        cancelled: bool,
        open: bool,
    ) -> (request: Option<Request>)
        ensures
            (final(self)@, request_view(request)) == expiry_edited(
                old(self)@,
                expires_on@,
                confirmed,
                cancelled,
                open,
            ),
    {
        let ghost expected = expiry_edited(self@, expires_on@, confirmed, cancelled, open);
        match self.subscription_expiry_target.take() {
            None => {
                proof {
                    assert(self@ =~= expected.0);
                }
                None
            },
            Some((id, _)) => {
                if confirmed {
                    match accounts::normalize_subscription_expiry(expires_on.as_str()) {
                        Ok(_) => {
                            self.send("正在保存订阅到期日…".to_owned());
                            proof {
                                assert(self@ =~= expected.0);
                            }
                            Some(Request::SetSubscriptionExpiry { id, expires_on })
                        },
                        Err(words) => {
                            self.status = words;
                            self.status_tone = Tone::Bad;
                            self.subscription_expiry_target = Some((id, expires_on));
                            proof {
                                assert(self@ =~= expected.0);
                            }
                            None
                        },
                    }
                } else {
                    if open && !cancelled {
                        self.subscription_expiry_target = Some((id, expires_on));
                    }
                    proof {
                        assert(self@ =~= expected.0);
                    }
                    None
                }
            },
        }
    }

    /// Takes what the user did in the dialog in which an account is removed.
    pub fn on_delete(&mut self, confirmed: bool, cancelled: bool, open: bool) -> (request: Option<
        Request,
    >)
        ensures
            (final(self)@, request_view(request)) == delete_answered(
                old(self)@,
                confirmed,
                cancelled,
                open,
            ),
    {
        let ghost expected = delete_answered(self@, confirmed, cancelled, open);
        match self.pending_delete.take() {
            None => {
                proof {
                    assert(self@ =~= expected.0);
                }
                None
            },
            Some(id) => {
                if confirmed {
                    self.send(text::join3("正在删除 ", id.as_str(), "…"));
                    proof {
                        assert(self@ =~= expected.0);
                    }
                    Some(Request::Remove(id))
                } else {
                    if open && !cancelled {
                        self.pending_delete = Some(id);
                    }
                    proof {
                        assert(self@ =~= expected.0);
                    }
                    None
                }
            },
        }
    }
}

// ---------------------------------------------------------------------------
// Laws
// ---------------------------------------------------------------------------

/// A button above the rows gives the worker something to do only while it is idle, and from then on
/// it is at work.
pub proof fn buttons_wait_for_the_worker(gui: GuiView, button: TopButton)
    ensures
        pressed(gui, button).1 is Some == !gui.busy,
        pressed(gui, button).0.busy,
{
}

/// Every list of the worker ends its work and the logging in, and is what the rows then show.
pub proof fn a_list_ends_the_work(
    gui: GuiView,
    rows: Vec<AccountRow>,
    message: Option<(String, Tone)>,
)
    ensures
        !responded(gui, Response::List { rows, message }).busy,
        responded(gui, Response::List { rows, message }).loaded,
        responded(gui, Response::List { rows, message }).auth_dialog is None,
        responded(gui, Response::List { rows, message }).rows == accounts::rows_view(rows@),
{
}

/// The worker is asked to note only what is a day or blank.
pub proof fn only_days_are_noted(
    gui: GuiView,
    expires_on: Seq<char>,
    confirmed: bool,
    cancelled: bool,
    open: bool,
)
    ensures
        expiry_edited(gui, expires_on, confirmed, cancelled, open).1 matches Some(request)
            ==> confirmed && accounts::expiry_in(expires_on) is Some,
        confirmed && gui.subscription_expiry_target is Some && accounts::expiry_in(
            expires_on,
        ) is None ==> expiry_edited(
            gui,
            expires_on,
            confirmed,
            cancelled,
            open,
        ).0.subscription_expiry_target is Some,
{
}

/// An account is removed only after the user clicked that in its row and then confirmed it.
pub proof fn removal_is_confirmed(gui: GuiView, clicks: ClicksView, id: Seq<char>)
    requires
        gui.pending_delete is None,
    ensures
        forall|i: int|
            0 <= i < click_requests(clicks).len() ==> !(#[trigger] click_requests(
                clicks,
            )[i] is Remove),
        forall|confirmed: bool, cancelled: bool, open: bool|
            (#[trigger] delete_answered(clicked(gui, clicks), confirmed, cancelled, open)).1
                == Some(RequestView::Remove(id)) ==> confirmed && clicks.delete == Some(id),
{
}

}
