//! The router: one client before, one child for each account behind.
//!
//! A [`Router`] takes events and gives back [`Turn`]s. It reads and writes nothing itself: whoever
//! holds it performs the effects of a turn in their order, stops where one of them fails, and then
//! answers its question, if there is one, before the next event.

use vstd::prelude::*;

use crate::clock::Timestamp;
use crate::json;
use crate::json::{Json, JsonView};
use crate::laws;
use crate::model;
use crate::model::{
    EffectView, FailoverView, InitView, PendingView, PurposeView, QuestionView, ResumeView,
    RouterView, TurnView,
};
use crate::protocol;
use crate::protocol::SessionContext;
use crate::state;
use crate::state::{RouterState, StateView};
use crate::table;
use crate::table::Table;
use crate::text;

verus! {

// ---------------------------------------------------------------------------
// What the router holds
// ---------------------------------------------------------------------------

/// A request that a child has yet to answer.
pub struct PendingRequest {
    pub account_id: String,
    pub method: String,
    pub original: Json,
    pub session_id: Option<String>,
}

impl PendingRequest {
    pub open spec fn view(&self) -> PendingView {
        PendingView {
            account_id: self.account_id@,
            method: self.method@,
            original: self.original@,
            session_id: protocol::option_text(self.session_id),
        }
    }
}

/// An `initialize` that some children have yet to answer.
pub struct InitState {
    pub request_id: Json,
    pub waiting: Table<()>,
    pub primary: String,
    pub primary_response: Option<Json>,
}

impl InitState {
    pub open spec fn view(&self) -> InitView {
        InitView {
            request_id: self.request_id@,
            waiting: self.waiting@.dom(),
            primary: self.primary@,
            primary_response: json::option_view(self.primary_response),
        }
    }
}

/// A session on its way to another account, and the prompt that waits for it.
pub struct ResumeAction {
    pub account_id: String,
    pub session_id: String,
    pub original_request: Json,
    pub client_id_key: String,
}

impl ResumeAction {
    pub open spec fn view(&self) -> ResumeView {
        ResumeView {
            account_id: self.account_id@,
            session_id: self.session_id@,
            original_request: self.original_request@,
            client_id_key: self.client_id_key@,
        }
    }
}

/// The step of a failover whose answer is awaited.
pub enum FailoverAction {
    /// The old owner closes the session; the new one is then asked to resume it.
    CloseThenResume { action: ResumeAction, resume_request: Json },
    /// The new owner resumes the session; the prompt is then sent to it.
    Resume(ResumeAction),
}

impl FailoverAction {
    pub open spec fn view(&self) -> FailoverView {
        match self {
            FailoverAction::CloseThenResume {
                action,
                resume_request,
            } => FailoverView::CloseThenResume {
                action: action@,
                resume_request: resume_request@,
            },
            FailoverAction::Resume(action) => FailoverView::Resume(action@),
        }
    }
}

/// What texts say, one by one.
pub open spec fn names(texts: Seq<String>) -> Seq<Seq<char>> {
    texts.map_values(|string: String| string@)
}

/// What contexts say.
pub open spec fn contexts_view(contexts: Map<Seq<char>, SessionContext>) -> Map<
    Seq<char>,
    Map<Seq<char>, JsonView>,
> {
    contexts.map_values(|context: SessionContext| context@)
}

/// What waiting requests of the client say.
pub open spec fn pending_view(pending: Map<Seq<char>, PendingRequest>) -> Map<
    Seq<char>,
    PendingView,
> {
    pending.map_values(|request: PendingRequest| request@)
}

/// What waiting requests of children say.
pub open spec fn reverse_view(requests: Map<Seq<char>, (String, Json)>) -> Map<
    Seq<char>,
    (Seq<char>, JsonView),
> {
    requests.map_values(|request: (String, Json)| (request.0@, request.1@))
}

/// What failovers say.
pub open spec fn failovers_view(failovers: Map<Seq<char>, FailoverAction>) -> Map<
    Seq<char>,
    FailoverView,
> {
    failovers.map_values(|step: FailoverAction| step@)
}

/// The router.
pub struct Router {
    peers: Table<()>,
    accounts: Vec<String>,
    state: RouterState,
    contexts: Table<SessionContext>,
    pending: Table<PendingRequest>,
    reverse_requests: Table<(String, Json)>,
    failovers: Table<FailoverAction>,
    init: Option<InitState>,
    sequence: u64,
}

impl Router {
    /// All that the router knows.
    pub closed spec fn view(&self) -> RouterView {
        RouterView {
            peers: self.peers@.dom(),
            accounts: names(self.accounts@),
            state: self.state@,
            contexts: contexts_view(self.contexts@),
            pending: pending_view(self.pending@),
            reverse_requests: reverse_view(self.reverse_requests@),
            failovers: failovers_view(self.failovers@),
            init: match self.init {
                Some(init) => Some(init@),
                None => None,
            },
            sequence: self.sequence,
        }
    }

    /// Every table is in order, and every moment can be written.
    pub closed spec fn wf(self) -> bool {
        &&& self.peers.wf()
        &&& self.state.wf()
        &&& self.contexts.wf()
        &&& self.pending.wf()
        &&& self.reverse_requests.wf()
        &&& self.failovers.wf()
        &&& self.init matches Some(init) ==> init.waiting.wf()
    }

    /// What a router knows is finite.
    pub proof fn knows_finitely(self)
        requires
            self.wf(),
        ensures
            self@.peers.finite(),
            self@.state.sessions.dom().finite(),
            self@.contexts.dom().finite(),
            self@.pending.dom().finite(),
            self@.reverse_requests.dom().finite(),
            self@.failovers.dom().finite(),
            self@.init matches Some(init) ==> init.waiting.finite(),
    {
        self.peers.positions();
        self.state.sessions.positions();
        self.contexts.positions();
        self.pending.positions();
        self.reverse_requests.positions();
        self.failovers.positions();
        assert(self@.state.sessions.dom() =~= self.state.sessions@.dom());
        assert(self@.contexts.dom() =~= self.contexts@.dom());
        assert(self@.pending.dom() =~= self.pending@.dom());
        assert(self@.reverse_requests.dom() =~= self.reverse_requests@.dom());
        assert(self@.failovers.dom() =~= self.failovers@.dom());
        if let Some(init) = self.init {
            init.waiting.positions();
        }
    }
}

// ---------------------------------------------------------------------------
// Turns
// ---------------------------------------------------------------------------

/// What the router does in the world.
pub enum Effect {
    /// Write a message to the client.
    Write(Json),
    /// Send a message to the child of an account.
    Send { account_id: String, message: Json },
    /// Keep the document of the state.
    Save(String),
    /// Note that an account has no capacity left.
    MarkExhausted(String),
    /// Give up: a message is due to an account that has no child.
    Unavailable(String),
}

impl Effect {
    pub open spec fn view(&self) -> EffectView {
        match self {
            Effect::Write(message) => EffectView::Write(message@),
            Effect::Send { account_id, message } => EffectView::Send {
                account_id: account_id@,
                message: message@,
            },
            Effect::Save(document) => EffectView::Save(document@),
            Effect::MarkExhausted(account_id) => EffectView::MarkExhausted(account_id@),
            Effect::Unavailable(account_id) => EffectView::Unavailable(account_id@),
        }
    }
}

/// What a chosen account is for.
pub enum Purpose {
    /// To serve a request of the client.
    Serve { method: String, session: Option<String>, message: Json },
    /// To take over a session from its owner, for a prompt.
    Failover { session_id: String, owner: String, message: Json, context: SessionContext },
}

impl Purpose {
    pub open spec fn view(&self) -> PurposeView {
        match self {
            Purpose::Serve { method, session, message } => PurposeView::Serve {
                method: method@,
                session: protocol::option_text(*session),
                message: message@,
            },
            Purpose::Failover {
                session_id,
                owner,
                message,
                context,
            } => PurposeView::Failover {
                session_id: session_id@,
                owner: owner@,
                message: message@,
                context: context@,
            },
        }
    }
}

/// What the router has to ask before it can go on.
pub enum Question {
    /// Which account to choose, but for those excluded; answered by [`Router::on_selected`].
    Select { excluded: Vec<String>, purpose: Purpose },
    /// Whether an account has capacity for a prompt; answered by [`Router::on_capacity`].
    Capacity { account_id: String, session_id: String, message: Json },
}

impl Question {
    pub open spec fn view(&self) -> QuestionView {
        match self {
            Question::Select { excluded, purpose } => QuestionView::Select {
                excluded: names(excluded@),
                purpose: purpose@,
            },
            Question::Capacity { account_id, session_id, message } => QuestionView::Capacity {
                account_id: account_id@,
                session_id: session_id@,
                message: message@,
            },
        }
    }
}

/// What came of a step: what to do, in order, and what to ask then.
pub struct Turn {
    pub effects: Vec<Effect>,
    pub question: Option<Question>,
}

/// What effects say, one by one.
pub open spec fn effects_view(effects: Seq<Effect>) -> Seq<EffectView> {
    effects.map_values(|effect: Effect| effect@)
}

impl Turn {
    /// The step that led to a router and this turn.
    pub open spec fn of(self, router: RouterView) -> TurnView {
        TurnView {
            router,
            effects: effects_view(self.effects@),
            question: match self.question {
                Some(question) => Some(question@),
                None => None,
            },
        }
    }
}

fn quiet_turn() -> (turn: Turn)
    ensures
        effects_view(turn.effects@) == Seq::<EffectView>::empty(),
        turn.question is None,
{
    let turn = Turn { effects: Vec::new(), question: None };
    proof {
        assert(effects_view(turn.effects@) =~= Seq::empty());
    }
    turn
}

fn effect_turn(effect: Effect) -> (turn: Turn)
    ensures
        effects_view(turn.effects@) == seq![effect@],
        turn.question is None,
{
    let mut effects: Vec<Effect> = Vec::new();
    effects.push(effect);
    proof {
        assert(effects_view(effects@) =~= seq![effect@]);
    }
    Turn { effects, question: None }
}

fn write_turn(message: Json) -> (turn: Turn)
    ensures
        effects_view(turn.effects@) == seq![EffectView::Write(message@)],
        turn.question is None,
{
    effect_turn(Effect::Write(message))
}

fn refuse_turn(id: Option<Json>, code: i64, message: &str, data: Option<Json>) -> (turn: Turn)
    ensures
        effects_view(turn.effects@) == seq![
            EffectView::Write(
                protocol::error_reply(
                    json::or_null(json::option_view(id)),
                    code as int,
                    message@,
                    json::option_view(data),
                ),
            ),
        ],
        turn.question is None,
{
    write_turn(protocol::error_response(protocol::or_null(id), code, message, data))
}

fn question_turn(question: Question) -> (turn: Turn)
    ensures
        effects_view(turn.effects@) == Seq::<EffectView>::empty(),
        turn.question == Some(question),
{
    let turn = Turn { effects: Vec::new(), question: Some(question) };
    proof {
        assert(effects_view(turn.effects@) =~= Seq::empty());
    }
    turn
}

/// The turn, after something else was done.
fn turn_after(effect: Effect, turn: Turn) -> (whole: Turn)
    ensures
        effects_view(whole.effects@) == seq![effect@] + effects_view(turn.effects@),
        whole.question == turn.question,
{
    let ghost rest = turn.effects@;
    let mut effects: Vec<Effect> = turn.effects;
    effects.insert(0, effect);
    proof {
        assert(effects_view(effects@) =~= seq![effect@] + effects_view(rest));
    }
    Turn { effects, question: turn.question }
}

// ---------------------------------------------------------------------------
// Starting
// ---------------------------------------------------------------------------

/// Why a router does not start.
#[derive(Debug, Clone, Copy, PartialEq, Eq, Structural)]
pub enum StartError {
    /// No account is configured.
    NoAccounts,
    /// No account has a child that could be started.
    NoChildren,
}

impl StartError {
    /// What the user is told.
    pub fn message(&self) -> (message: &'static str)
        ensures
            message@ == (match *self {
                StartError::NoAccounts =>
                    "no Kimi accounts; add an account in Kimi Subscription Router first"@,
                StartError::NoChildren => "no Kimi account could start an ACP child"@,
            }),
    {
        match self {
            StartError::NoAccounts => {
                "no Kimi accounts; add an account in Kimi Subscription Router first"
            },
            StartError::NoChildren => "no Kimi account could start an ACP child",
        }
    }
}

/// Whether there is an account to start a child for.
pub fn check_configured(accounts: usize) -> (checked: Result<(), StartError>)
    ensures
        checked == if accounts == 0 {
            Err::<(), StartError>(StartError::NoAccounts)
        } else {
            Ok::<(), StartError>(())
        },
{
    if accounts == 0 {
        Err(StartError::NoAccounts)
    } else {
        Ok(())
    }
}

impl Router {
    /// A router over the accounts whose child was started, in the order in which they are preferred.
    pub fn start(accounts: Vec<String>, state: RouterState) -> (router: Result<Router, StartError>)
        requires
            state.wf(),
        ensures
            router is Ok == (accounts@.len() > 0),
            router matches Ok(r) ==> r.wf() && r@ == model::started(names(accounts@), state@),
            router matches Err(error) ==> error == StartError::NoChildren,
    {
        if accounts.len() == 0 {
            return Err(StartError::NoChildren);
        }
        let ghost listed = names(accounts@);
        let mut peers: Table<()> = Table::new();
        let mut at: usize = 0;
        proof {
            assert(listed.take(0).to_set() =~= peers@.dom());
        }
        while at < accounts.len()
            invariant
                at <= accounts@.len(),
                listed == names(accounts@),
                peers.wf(),
                peers@.dom() == listed.take(at as int).to_set(),
            decreases accounts@.len() - at,
        {
            let ghost before = peers@.dom();
            peers.insert(accounts[at].clone(), ());
            at += 1;
            proof {
                let shorter = listed.take(at - 1);
                let longer = listed.take(at as int);
                assert(longer =~= shorter.push(listed[at - 1]));
                assert(longer.to_set() =~= shorter.to_set().insert(listed[at - 1])) by {
                    assert forall|id: Seq<char>| shorter.to_set().insert(
                        listed[at - 1],
                    ).contains(id) implies longer.to_set().contains(id) by {
                        if id == listed[at - 1] {
                            assert(longer[at - 1] == id);
                        } else {
                            let i = shorter.index_of(id);
                            assert(longer[i] == id);
                        }
                    }
                }
                assert(peers@.dom() =~= before.insert(listed[at - 1]));
            }
        }
        proof {
            assert(listed.take(listed.len() as int) =~= listed);
        }
        let router = Router {
            peers,
            accounts,
            state,
            contexts: Table::new(),
            pending: Table::new(),
            reverse_requests: Table::new(),
            failovers: Table::new(),
            init: None,
            sequence: 0,
        };
        proof {
            let first = model::started(listed, state@);
            assert(router@.contexts =~= first.contexts);
            assert(router@.pending =~= first.pending);
            assert(router@.reverse_requests =~= first.reverse_requests);
            assert(router@.failovers =~= first.failovers);
        }
        Ok(router)
    }
}

// ---------------------------------------------------------------------------
// Choosing accounts
// ---------------------------------------------------------------------------

impl Router {
    /// The owners of the sessions.
    pub fn state(&self) -> (state: &RouterState)
        requires
            self.wf(),
        ensures
            state.wf(),
            state@ == self@.state,
    {
        &self.state
    }

    /// Whether an account has a running child.
    pub fn has_peer(&self, account_id: &str) -> (running: bool)
        requires
            self.wf(),
        ensures
            running == self@.peers.contains(account_id@),
    {
        self.peers.contains(account_id)
    }

    /// Whether an `initialize` is under way.
    pub fn initializing(&self) -> (under_way: bool)
        ensures
            under_way == self@.init is Some,
    {
        self.init.is_some()
    }

    /// The account that serves what belongs to no session: the first that has a child.
    pub fn primary_account(&self) -> (account_id: Option<String>)
        requires
            self.wf(),
        ensures
            protocol::option_text(account_id) == self@.primary(),
    {
        let ghost listed = names(self.accounts@);
        let mut at: usize = 0;
        proof {
            assert(listed.skip(0) =~= listed);
        }
        while at < self.accounts.len()
            invariant
                self.wf(),
                at <= self.accounts@.len(),
                listed == names(self.accounts@),
                self@.primary() == model::primary_of(listed.skip(at as int), self@.peers),
            decreases self.accounts@.len() - at,
        {
            proof {
                assert(listed.skip(at as int)[0] == self.accounts@[at as int]@);
                assert(listed.skip(at as int).drop_first() =~= listed.skip(at + 1));
            }
            if self.peers.contains(self.accounts[at].as_str()) {
                return Some(self.accounts[at].clone());
            }
            at += 1;
        }
        None
    }

    /// The accounts that may not be chosen: those named, and those without a child.
    fn excluded_accounts(&self, named: Vec<String>) -> (excluded: Vec<String>)
        requires
            self.wf(),
        ensures
            names(excluded@) == self@.excluded(names(named@)),
    {
        let ghost listed = names(self.accounts@);
        let ghost first = names(named@);
        let mut excluded: Vec<String> = named;
        let mut at: usize = 0;
        proof {
            assert(names(excluded@) =~= first + model::childless(listed.take(0), self@.peers));
        }
        while at < self.accounts.len()
            invariant
                self.wf(),
                at <= self.accounts@.len(),
                listed == names(self.accounts@),
                names(excluded@) == first + model::childless(listed.take(at as int), self@.peers),
            decreases self.accounts@.len() - at,
        {
            let ghost before = excluded@;
            proof {
                assert(listed.take(at + 1).drop_last() =~= listed.take(at as int));
                assert(listed.take(at + 1).last() == self.accounts@[at as int]@);
            }
            if !self.peers.contains(self.accounts[at].as_str()) {
                excluded.push(self.accounts[at].clone());
                proof {
                    assert(names(excluded@) =~= names(before).push(self.accounts@[at as int]@));
                    assert(names(excluded@) =~= first + model::childless(
                        listed.take(at + 1),
                        self@.peers,
                    ));
                }
            }
            at += 1;
        }
        proof {
            assert(listed.take(listed.len() as int) =~= listed);
        }
        excluded
    }

    /// Asks for an account that has a child and is none of those named.
    fn select_account(&self, named: Vec<String>, purpose: Purpose) -> (turn: Turn)
        requires
            self.wf(),
        ensures
            turn.of(self@) == model::ask_account(self@, names(named@), purpose@),
    {
        let excluded = self.excluded_accounts(named);
        question_turn(Question::Select { excluded, purpose })
    }

    /// Those of the listed accounts that have a child: among them is chosen from now on.
    pub fn reload_routing_accounts(&self, listed: &Vec<String>) -> (available: Vec<String>)
        requires
            self.wf(),
        ensures
            names(available@) == model::with_child(names(listed@), self@.peers),
    {
        let ghost all = names(listed@);
        let mut available: Vec<String> = Vec::new();
        let mut at: usize = 0;
        proof {
            assert(names(available@) =~= model::with_child(all.take(0), self@.peers));
        }
        while at < listed.len()
            invariant
                self.wf(),
                at <= listed@.len(),
                all == names(listed@),
                names(available@) == model::with_child(all.take(at as int), self@.peers),
            decreases listed@.len() - at,
        {
            let ghost before = available@;
            proof {
                assert(all.take(at + 1).drop_last() =~= all.take(at as int));
                assert(all.take(at + 1).last() == listed@[at as int]@);
            }
            if self.peers.contains(listed[at].as_str()) {
                available.push(listed[at].clone());
                proof {
                    assert(names(available@) =~= names(before).push(listed@[at as int]@));
                }
            }
            at += 1;
        }
        proof {
            assert(all.take(all.len() as int) =~= all);
        }
        available
    }

    /// Takes note of the accounts among which is chosen, the first before the others.
    pub fn note_accounts(&mut self, accounts: Vec<String>)
        requires
            old(self).wf(),
        ensures
            final(self).wf(),
            final(self)@ == model::with_accounts(old(self)@, names(accounts@)),
    {
        self.accounts = accounts;
    }

    /// Sends a message to the child of an account, if it has one.
    fn send_to(&self, account_id: &str, message: Json) -> (turn: Turn)
        requires
            self.wf(),
        ensures
            turn.of(self@) == model::sent(self@, account_id@, message@),
    {
        if self.peers.contains(account_id) {
            effect_turn(Effect::Send { account_id: account_id.to_owned(), message })
        } else {
            effect_turn(Effect::Unavailable(account_id.to_owned()))
        }
    }
}

// ---------------------------------------------------------------------------
// Requests of the client
// ---------------------------------------------------------------------------

impl Router {
    /// A line of the client. A blank line is passed over, and a line that is no JSON text is
    /// answered with an error. `None`, and nothing has changed, where the line asks to `initialize`
    /// and there are children, but none of an account among which is chosen.
    pub fn on_line(&mut self, line: &str) -> (turn: Option<Turn>)
        requires
            old(self).wf(),
        ensures
            final(self).wf(),
            turn is Some == model::line_turn(old(self)@, line@) is Some,
            turn matches Some(t) ==> model::line_turn(old(self)@, line@) == Some(
                t.of(final(self)@),
            ),
            turn is None ==> final(self)@ == old(self)@,
    {
        let short = text::trim(line);
        if short.as_str().is_empty() {
            return Some(quiet_turn());
        }
        match Json::parse(line) {
            Ok(message) => {
                if self.takes(&message) {
                    Some(self.handle_client(message))
                } else {
                    None
                }
            },
            Err(words) => Some(write_turn(protocol::parse_error_response(words.as_str()))),
        }
    }

    /// Whether the router can take a message of the client.
    pub fn takes(&self, message: &Json) -> (can: bool)
        requires
            self.wf(),
        ensures
            can == model::can_take(self@, message@),
    {
        if message.field("method").is_none() {
            return true;
        }
        let method = protocol::request_method(message);
        if !text::same_text(method.as_str(), "initialize") {
            return true;
        }
        self.no_peers() || self.primary_account().is_some()
    }

    fn no_peers(&self) -> (none: bool)
        requires
            self.wf(),
        ensures
            none == self@.peers.is_empty(),
    {
        proof {
            self.peers.positions();
            if self.peers.keys().len() > 0 {
                assert(self@.peers.contains(self.peers.keys()[0]));
            } else {
                assert(self.peers.keys() =~= Seq::empty());
                assert(self@.peers =~= Set::empty());
            }
        }
        self.peers.len() == 0
    }

    /// A message of the client.
    pub fn handle_client(&mut self, message: Json) -> (turn: Turn)
        requires
            old(self).wf(),
            model::can_take(old(self)@, message@),
        ensures
            final(self).wf(),
            turn.of(final(self)@) == model::client_turn(old(self)@, message@),
    {
        if message.field("method").is_none() {
            return self.handle_client_response(message);
        }
        let method = protocol::request_method(&message);
        if text::same_text(method.as_str(), "initialize") {
            return self.initialize_children(message);
        }
        if self.init.is_some() {
            return refuse_turn(
                message.field_copy("id"),
                -32001,
                "Router initialization is still in progress.",
                None,
            );
        }
        if text::same_text(method.as_str(), "logout") {
            return refuse_turn(
                message.field_copy("id"),
                -32601,
                "Logout is managed by Kimi Subscription Router.",
                None,
            );
        }
        let session_id = protocol::request_session_id(&message);
        self.route_request(method, session_id, message)
    }

    /// A request that an account has to serve.
    fn route_request(&mut self, method: String, session_id: Option<String>, message: Json) -> (turn:
        Turn)
        requires
            old(self).wf(),
        ensures
            final(self).wf(),
            turn.of(final(self)@) == model::request_turn(
                old(self)@,
                method@,
                protocol::option_text(session_id),
                message@,
            ),
    {
        let none: Vec<String> = Vec::new();
        proof {
            assert(names(none@) =~= Seq::<Seq<char>>::empty());
        }
        if text::same_text(method.as_str(), "session/new") {
            return self.select_account(none, Purpose::Serve { method, session: session_id, message });
        }
        if text::same_text(method.as_str(), "session/list") || text::same_text(
            method.as_str(),
            "authenticate",
        ) || !text::starts_with(method.as_str(), "session/") {
            return match self.primary_account() {
                Some(account_id) => self.serve(account_id, method, session_id, message),
                None => write_turn(protocol::respond_no_accounts(message.field_copy("id"))),
            };
        }
        let owner = match &session_id {
            None => {
                return refuse_turn(message.field_copy("id"), -32602, "Missing sessionId.", None);
            },
            Some(id) => match self.state.owner(id.as_str()) {
                Some(owner) => if self.peers.contains(owner) {
                    Some(owner.to_owned())
                } else {
                    None
                },
                None => None,
            },
        };
        match owner {
            Some(owner) => self.serve(owner, method, session_id, message),
            None => self.select_account(none, Purpose::Serve { method, session: session_id, message }),
        }
    }

    /// A request goes to an account; before a prompt, it is asked whether the account has capacity.
    fn serve(
        &mut self,
        account_id: String,
        method: String,
        session_id: Option<String>,
        message: Json,
    ) -> (turn: Turn)
        requires
            old(self).wf(),
        ensures
            final(self).wf(),
            turn.of(final(self)@) == model::serve_turn(
                old(self)@,
                account_id@,
                method@,
                protocol::option_text(session_id),
                message@,
            ),
    {
        let ghost before = self@;
        match &session_id {
            Some(id) => {
                if text::same_text(method.as_str(), "session/prompt") {
                    let session_id = id.clone();
                    return question_turn(Question::Capacity { account_id, session_id, message });
                }
                if text::same_text(method.as_str(), "session/load") || text::same_text(
                    method.as_str(),
                    "session/resume",
                ) {
                    let context = SessionContext::from_request(&message, id.as_str());
                    self.contexts.insert(id.clone(), context);
                    proof {
                        let known = before.contexts.insert(id@, context@);
                        assert(self@.contexts =~= known);
                        assert(self@ =~= (RouterView { contexts: known, ..before }));
                    }
                }
            },
            None => {},
        }
        self.forward_request(account_id, method, session_id, message)
    }

    /// Hands a request to the child of an account, and awaits its answer if it has an id.
    fn forward_request(
        &mut self,
        account_id: String,
        method: String,
        session_id: Option<String>,
        message: Json,
    ) -> (turn: Turn)
        requires
            old(self).wf(),
        ensures
            final(self).wf(),
            turn.of(final(self)@) == model::forward_turn(
                old(self)@,
                account_id@,
                method@,
                protocol::option_text(session_id),
                message@,
            ),
    {
        let ghost before = self@;
        match message.field("id") {
            Some(id) => {
                let request = PendingRequest {
                    account_id: account_id.clone(),
                    method,
                    original: message.duplicate(),
                    session_id,
                };
                self.pending.insert(protocol::id_key(id), request);
                proof {
                    let waiting = before.pending.insert(json::compact_text(id@), request@);
                    assert(self@.pending =~= waiting);
                    assert(self@ =~= (RouterView { pending: waiting, ..before }));
                }
            },
            None => {},
        }
        self.send_to(account_id.as_str(), message)
    }

    /// Goes on with a prompt once it is known whether the account has capacity for it.
    pub fn on_capacity(
        &mut self,
        account_id: String,
        session_id: String,
        message: Json,
        has_capacity: bool,
    ) -> (turn: Turn)
        requires
            old(self).wf(),
        ensures
            final(self).wf(),
            turn.of(final(self)@) == model::capacity_turn(
                old(self)@,
                account_id@,
                session_id@,
                message@,
                has_capacity,
            ),
    {
        if has_capacity {
            self.forward_request(account_id, "session/prompt".to_owned(), Some(session_id), message)
        } else {
            let turn = self.begin_failover(session_id.as_str(), account_id.as_str(), message);
            turn_after(Effect::MarkExhausted(account_id), turn)
        }
    }

    /// Goes on once an account was chosen, or all turned out to be depleted.
    pub fn on_selected(
        &mut self,
        purpose: Purpose,
        answer: Result<String, Option<Timestamp>>,
    ) -> (turn: Turn)
        requires
            old(self).wf(),
            answer matches Err(Some(next_reset)) ==> next_reset.valid(),
        ensures
            final(self).wf(),
            turn.of(final(self)@) == model::selected_turn(
                old(self)@,
                purpose@,
                answer_view(answer),
            ),
            laws::numbered(old(self)@) && old(self)@.sequence <= u64::MAX - 2 ==> laws::numbered(
                final(self)@,
            ),
    {
        match answer {
            Ok(account_id) => match purpose {
                Purpose::Serve { method, session, message } => {
                    self.serve(account_id, method, session, message)
                },
                Purpose::Failover { session_id, owner, message, context } => {
                    self.replace_owner(session_id, owner, message, context, account_id)
                },
            },
            Err(next_reset) => {
                let message = match purpose {
                    Purpose::Serve { message, .. } => message,
                    Purpose::Failover { message, .. } => message,
                };
                write_turn(protocol::respond_pool_exhausted(message.field_copy("id"), next_reset))
            },
        }
    }

    /// The client answers a request of a child: the child gets the answer under its own id.
    fn handle_client_response(&mut self, message: Json) -> (turn: Turn)
        requires
            old(self).wf(),
        ensures
            final(self).wf(),
            turn.of(final(self)@) == model::client_response_turn(old(self)@, message@),
    {
        let ghost before = self@;
        let key = match message.field("id") {
            None => {
                return quiet_turn();
            },
            Some(id) => protocol::id_key(id),
        };
        let found = self.reverse_requests.remove(key.as_str());
        match found {
            None => {
                proof {
                    assert(self@.reverse_requests =~= before.reverse_requests);
                    assert(self@ =~= before);
                }
                quiet_turn()
            },
            Some((account_id, original_id)) => {
                proof {
                    let left = before.reverse_requests.remove(key@);
                    assert(self@.reverse_requests =~= left);
                    assert(self@ =~= (RouterView { reverse_requests: left, ..before }));
                }
                let mut message = message;
                message.set_field("id", original_id);
                self.send_to(account_id.as_str(), message)
            },
        }
    }

    /// Tells every child to initialize.
    fn initialize_children(&mut self, message: Json) -> (turn: Turn)
        requires
            old(self).wf(),
            old(self)@.peers.is_empty() || old(self)@.primary() is Some,
        ensures
            final(self).wf(),
            turn.of(final(self)@) == model::initialize_turn(old(self)@, message@),
    {
        let ghost before = self@;
        if self.no_peers() {
            return write_turn(protocol::respond_no_accounts(message.field_copy("id")));
        }
        let primary = match self.primary_account() {
            Some(primary) => primary,
            None => String::new(),
        };
        let request_id = protocol::or_null(message.field_copy("id"));
        let mut waiting: Table<()> = Table::new();
        let mut effects: Vec<Effect> = Vec::new();
        let mut at: usize = 0;
        let total = self.peers.len();
        let ghost keys = self.peers.keys();
        let ghost told = keys.map_values(
            |account_id: Seq<char>| EffectView::Send { account_id, message: message@ },
        );
        proof {
            self.peers.positions();
            assert(effects_view(effects@) =~= told.take(0));
            assert(waiting@.dom() =~= keys.take(0).to_set());
        }
        while at < total
            invariant
                self.wf(),
                self@ == before,
                keys == self.peers.keys(),
                total == keys.len(),
                told == keys.map_values(
                    |account_id: Seq<char>| EffectView::Send { account_id, message: message@ },
                ),
                at <= total,
                waiting.wf(),
                waiting@.dom() == keys.take(at as int).to_set(),
                effects_view(effects@) == told.take(at as int),
            decreases total - at,
        {
            let ghost earlier = waiting@.dom();
            let ghost done = effects@;
            let account_id = self.peers.key_at(at).clone();
            waiting.insert(account_id.clone(), ());
            effects.push(Effect::Send { account_id, message: message.duplicate() });
            at += 1;
            proof {
                let shorter = keys.take(at - 1);
                let longer = keys.take(at as int);
                let id = keys[at - 1];
                assert(longer =~= shorter.push(id));
                assert(waiting@.dom() =~= earlier.insert(id));
                assert forall|k: Seq<char>| longer.to_set().contains(k) == earlier.insert(
                    id,
                ).contains(k) by {
                    if earlier.contains(k) {
                        assert(longer[shorter.index_of(k)] == k);
                    }
                    if k == id {
                        assert(longer[at - 1] == k);
                    }
                }
                assert(longer.to_set() =~= earlier.insert(id));
                assert(effects_view(effects@) =~= effects_view(done).push(told[at - 1]));
                assert(told.take(at as int) =~= told.take(at - 1).push(told[at - 1]));
            }
        }
        proof {
            assert(keys.take(keys.len() as int) =~= keys);
            assert(told.take(told.len() as int) =~= told);
            assert(table::in_order(before.peers) == keys);
        }
        self.init = Some(InitState { request_id, waiting, primary, primary_response: None });
        proof {
            assert(waiting@.dom() =~= before.peers);
            let expected = model::initialize_turn(before, message@);
            assert(told =~= expected.effects);
            assert(self@ =~= expected.router);
        }
        Turn { effects, question: None }
    }
}

/// Where who owns a session has changed, the document of the new state is loaded as that state.
pub open spec fn keeps_state(before: RouterView, after: RouterView) -> bool {
    after.state != before.state ==> state::loaded_text(state::document_text(after.state)) == Some(
        after.state,
    )
}

/// Every document that is to be kept is loaded as the given state.
pub open spec fn saves_are_loaded(effects: Seq<EffectView>, state: StateView) -> bool {
    forall|i: int|
        0 <= i < effects.len() ==> (#[trigger] effects[i] matches EffectView::Save(document)
            ==> state::loaded_text(document) == Some(state))
}

/// What an answer to the question for an account says.
pub open spec fn answer_view(answer: Result<String, Option<Timestamp>>) -> Result<
    Seq<char>,
    Option<Timestamp>,
> {
    match answer {
        Ok(account_id) => Ok(account_id@),
        Err(next_reset) => Err(next_reset),
    }
}

// ---------------------------------------------------------------------------
// Failover
// ---------------------------------------------------------------------------

impl Router {
    /// The next number for an id, and the id of it.
    fn make_id(&mut self, prefix: &str) -> (id: String)
        requires
            old(self).wf(),
        ensures
            final(self).wf(),
            final(self)@ == (RouterView { sequence: old(self)@.next_sequence(), ..old(self)@ }),
            id@ == model::made_id(prefix@, final(self)@.sequence),
    {
        self.sequence = self.sequence.wrapping_add(1);
        let number = text::decimal_text(self.sequence);
        text::join(prefix, number.as_str())
    }

    /// A session has to leave its owner.
    fn begin_failover(&mut self, session_id: &str, exhausted_owner: &str, original_request: Json) -> (
    turn: Turn)
        requires
            old(self).wf(),
        ensures
            final(self)@ == old(self)@,
            final(self).wf(),
            turn.of(final(self)@) == model::failover_turn(
                old(self)@,
                session_id@,
                exhausted_owner@,
                original_request@,
            ),
    {
        let context = match self.contexts.get(session_id) {
            Some(context) => context.duplicate(),
            None => {
                return refuse_turn(
                    original_request.field_copy("id"),
                    -32043,
                    "Cannot move this session because its resume context is unavailable. Load the session and retry.",
                    None,
                );
            },
        };
        let mut excluded: Vec<String> = Vec::new();
        excluded.push(exhausted_owner.to_owned());
        proof {
            assert(names(excluded@) =~= seq![exhausted_owner@]);
        }
        let purpose = Purpose::Failover {
            session_id: session_id.to_owned(),
            owner: exhausted_owner.to_owned(),
            message: original_request,
            context,
        };
        self.select_account(excluded, purpose)
    }

    /// The account that takes over a session is known: the owner is told to close the session.
    fn replace_owner(
        &mut self,
        session_id: String,
        owner: String,
        message: Json,
        context: SessionContext,
        replacement: String,
    ) -> (turn: Turn)
        requires
            old(self).wf(),
        ensures
            final(self).wf(),
            turn.of(final(self)@) == model::replace_turn(
                old(self)@,
                session_id@,
                owner@,
                message@,
                context@,
                replacement@,
            ),
            laws::numbered(old(self)@) && old(self)@.sequence <= u64::MAX - 2 ==> laws::numbered(
                final(self)@,
            ),
    {
        let ghost first = self@;
        let client_id_key = match message.field("id") {
            None => {
                return quiet_turn();
            },
            Some(id) => protocol::id_key(id),
        };
        let resume_id = self.make_id("router-resume-");
        let resume_request = protocol::build_request(
            resume_id.as_str(),
            "session/resume",
            context.resume_params,
        );
        let close_id = self.make_id("router-close-");
        let ghost before = self@;
        let close = protocol::build_request(
            close_id.as_str(),
            "session/close",
            protocol::build_session_params(session_id.as_str()),
        );
        let key = protocol::id_key(&Json::Text(close_id));
        let action = ResumeAction {
            account_id: replacement,
            session_id,
            original_request: message,
            client_id_key,
        };
        let step = FailoverAction::CloseThenResume { action, resume_request };
        self.failovers.insert(key, step);
        proof {
            let steps = before.failovers.insert(key@, step@);
            assert(self@.failovers =~= steps);
            assert(self@ =~= (RouterView { failovers: steps, ..before }));
            if laws::numbered(first) && first.sequence <= u64::MAX - 2 {
                let number = first.next_sequence();
                laws::own_request_reads_back(
                    model::made_id("router-resume-"@, number),
                    "session/resume"@,
                    context@,
                );
                assert(number <= self@.sequence && resume_request@.field("id"@) == Some(
                    JsonView::Text(model::made_id("router-resume-"@, number)),
                ));
                assert(laws::labelled(key@, "router-close-"@, self@.sequence));
                laws::failover_keeps_numbering(first, self@, key@, step@);
            }
        }
        self.send_to(owner.as_str(), close)
    }

    /// The awaited answer of a failover came.
    fn finish_failover_step(&mut self, step: FailoverAction, response: Json, now: Timestamp) -> (turn:
        Turn)
        requires
            old(self).wf(),
            now.valid(),
        ensures
            final(self).wf(),
            turn.of(final(self)@) == model::failover_step_turn(
                old(self)@,
                step@,
                response@,
                now,
            ),
            laws::numbered(old(self)@) && laws::follow_up_is_numbered(
                step@,
                old(self)@.sequence,
            ) ==> laws::numbered(final(self)@),
            keeps_state(old(self)@, final(self)@),
            saves_are_loaded(turn.of(final(self)@).effects, final(self)@.state),
    {
        let ghost before = self@;
        let ghost given = step@;
        match step {
            FailoverAction::CloseThenResume { action, resume_request } => {
                match response.field_copy("error") {
                    Some(error) => refuse_turn(
                        action.original_request.field_copy("id"),
                        -32044,
                        "Kimi session failover could not close the previous owner.",
                        Some(error),
                    ),
                    None => {
                        let id = protocol::or_null(resume_request.field_copy("id"));
                        let key = protocol::id_key(&id);
                        let account_id = action.account_id.clone();
                        let step = FailoverAction::Resume(action);
                        self.failovers.insert(key, step);
                        proof {
                            let steps = before.failovers.insert(key@, step@);
                            assert(self@.failovers =~= steps);
                            assert(self@ =~= (RouterView { failovers: steps, ..before }));
                            if laws::numbered(before) && laws::follow_up_is_numbered(
                                given,
                                before.sequence,
                            ) {
                                let n = choose|n: u64|
                                    n <= before.sequence && resume_request@.field("id"@) == Some(
                                        JsonView::Text(
                                            #[trigger] model::made_id("router-resume-"@, n),
                                        ),
                                    );
                                assert(laws::labelled(key@, "router-resume-"@, n));
                                laws::failover_keeps_numbering(before, self@, key@, step@);
                            }
                        }
                        self.send_to(account_id.as_str(), resume_request)
                    },
                }
            },
            FailoverAction::Resume(action) => self.finish_resume(action, response, now),
        }
    }

    /// The new owner answered the request to resume.
    fn finish_resume(&mut self, action: ResumeAction, response: Json, now: Timestamp) -> (turn: Turn)
        requires
            old(self).wf(),
            now.valid(),
        ensures
            final(self).wf(),
            turn.of(final(self)@) == model::resumed_turn(old(self)@, action@, response@, now),
            laws::numbered(old(self)@) ==> laws::numbered(final(self)@),
            keeps_state(old(self)@, final(self)@),
            saves_are_loaded(turn.of(final(self)@).effects, final(self)@.state),
    {
        let ghost before = self@;
        match response.field_copy("error") {
            Some(error) => {
                return refuse_turn(
                    action.original_request.field_copy("id"),
                    -32044,
                    "Kimi session failover could not resume the conversation.",
                    Some(error),
                );
            },
            None => {},
        }
        self.state.assign_at(action.session_id.as_str(), action.account_id.as_str(), now);
        let document = self.state.document();
        let request = PendingRequest {
            account_id: action.account_id.clone(),
            method: "session/prompt".to_owned(),
            original: action.original_request.duplicate(),
            session_id: Some(action.session_id),
        };
        self.pending.insert(action.client_id_key, request);
        proof {
            let moved = before.state.assigned(action.session_id@, action.account_id@, now);
            let waiting = before.pending.insert(action.client_id_key@, request@);
            assert(self@.pending =~= waiting);
            assert(self@ =~= (RouterView { state: moved, pending: waiting, ..before }));
        }
        let turn = self.send_to(action.account_id.as_str(), action.original_request);
        turn_after(Effect::Save(document), turn)
    }
}

// ---------------------------------------------------------------------------
// Messages of children
// ---------------------------------------------------------------------------

impl Router {
    /// A message of the child of an account, now.
    pub fn on_child_message(&mut self, account_id: &str, message: Json) -> (turn: Turn)
        requires
            old(self).wf(),
        ensures
            final(self).wf(),
            exists|now: Timestamp|
                now.valid() && turn.of(final(self)@) == #[trigger] model::child_turn(
                    old(self)@,
                    account_id@,
                    message@,
                    now,
                ),
            laws::numbered(old(self)@) && old(self)@.sequence <= u64::MAX - 2 ==> laws::numbered(
                final(self)@,
            ),
            keeps_state(old(self)@, final(self)@),
            saves_are_loaded(turn.of(final(self)@).effects, final(self)@.state),
    {
        let now = Timestamp::now();
        self.handle_child(account_id, message, now)
    }

    /// A message of the child of an account at a given moment.
    pub fn handle_child(&mut self, account_id: &str, message: Json, now: Timestamp) -> (turn: Turn)
        requires
            old(self).wf(),
            now.valid(),
        ensures
            final(self).wf(),
            turn.of(final(self)@) == model::child_turn(old(self)@, account_id@, message@, now),
            laws::numbered(old(self)@) && old(self)@.sequence <= u64::MAX - 2 ==> laws::numbered(
                final(self)@,
            ),
            keeps_state(old(self)@, final(self)@),
            saves_are_loaded(turn.of(final(self)@).effects, final(self)@.state),
    {
        let ghost before = self@;
        if self.answers_initialize(account_id, &message) {
            return self.handle_initialize_response(account_id, message);
        }
        if message.field("method").is_some() {
            return self.handle_child_request(account_id, message);
        }
        let key = match message.field("id") {
            None => {
                return write_turn(message);
            },
            Some(id) => protocol::id_key(id),
        };
        let step = self.failovers.remove(key.as_str());
        match step {
            Some(step) => {
                proof {
                    let left = before.failovers.remove(key@);
                    assert(self@.failovers =~= left);
                    assert(self@ =~= (RouterView { failovers: left, ..before }));
                    if laws::numbered(before) {
                        assert(before.failovers.contains_key(key@));
                        laws::numbering_survives(before, self@);
                    }
                }
                return self.finish_failover_step(step, message, now);
            },
            None => {
                proof {
                    assert(self@.failovers =~= before.failovers);
                    assert(self@ =~= before);
                }
            },
        }
        let pending = self.pending.remove(key.as_str());
        match pending {
            Some(pending) => {
                proof {
                    let left = before.pending.remove(key@);
                    assert(self@.pending =~= left);
                    assert(self@ =~= (RouterView { pending: left, ..before }));
                }
                self.handle_answer(pending, message, now)
            },
            None => {
                proof {
                    assert(self@.pending =~= before.pending);
                    assert(self@ =~= before);
                }
                write_turn(message)
            },
        }
    }

    /// Whether a message of a child is its answer to the `initialize` under way.
    fn answers_initialize(&self, account_id: &str, message: &Json) -> (answers: bool)
        requires
            self.wf(),
        ensures
            answers == model::answers_initialize(self@, account_id@, message@),
    {
        match &self.init {
            Some(init) => match message.field("id") {
                Some(id) => id.equals(&init.request_id) && init.waiting.contains(account_id),
                None => false,
            },
            None => false,
        }
    }

    /// A child answers `initialize`; the last of them lets the client know what the primary said.
    fn handle_initialize_response(&mut self, account_id: &str, message: Json) -> (turn: Turn)
        requires
            old(self).wf(),
            old(self)@.init is Some,
        ensures
            final(self).wf(),
            turn.of(final(self)@) == model::initialized_turn(
                old(self)@,
                old(self)@.init->0,
                account_id@,
                message@,
            ),
    {
        let ghost before = self@;
        let ghost init_before = self@.init->0;
        match self.init.take() {
            None => quiet_turn(),
            Some(init) => {
                let mut waiting = init.waiting;
                let _ = waiting.remove(account_id);
                let ghost left = init_before.waiting.remove(account_id@);
                proof {
                    assert(waiting@.dom() =~= left);
                    waiting.positions();
                    if waiting.keys().len() > 0 {
                        assert(left.contains(waiting.keys()[0]));
                    } else {
                        assert(waiting.keys() =~= Seq::empty());
                        assert(left =~= Set::empty());
                    }
                }
                let primary_response = if text::same_text(account_id, init.primary.as_str()) {
                    let mut response = message;
                    protocol::normalize_initialize_response(&mut response);
                    Some(response)
                } else {
                    init.primary_response
                };
                if waiting.len() == 0 {
                    proof {
                        assert(self@ =~= (RouterView { init: None, ..before }));
                    }
                    match primary_response {
                        Some(response) => write_turn(response),
                        None => write_turn(
                            protocol::error_response(
                                init.request_id,
                                -32001,
                                "Kimi ACP initialization failed.",
                                None,
                            ),
                        ),
                    }
                } else {
                    self.init = Some(
                        InitState {
                            request_id: init.request_id,
                            waiting,
                            primary: init.primary,
                            primary_response,
                        },
                    );
                    proof {
                        let next = InitView {
                            waiting: left,
                            primary_response: json::option_view(primary_response),
                            ..init_before
                        };
                        assert(self@.init->0 =~= next);
                        assert(self@ =~= (RouterView { init: Some(next), ..before }));
                    }
                    quiet_turn()
                }
            },
        }
    }

    /// A child asks or tells the client something.
    fn handle_child_request(&mut self, account_id: &str, message: Json) -> (turn: Turn)
        requires
            old(self).wf(),
        ensures
            final(self).wf(),
            turn.of(final(self)@) == model::child_request_turn(old(self)@, account_id@, message@),
            laws::numbered(old(self)@) && old(self)@.sequence <= u64::MAX - 2 ==> laws::numbered(
                final(self)@,
            ),
    {
        let ghost first = self@;
        match message.field_copy("id") {
            None => write_turn(message),
            Some(original_id) => {
                let routed_id = Json::Text(self.make_id("router-reverse-"));
                let ghost before = self@;
                let key = protocol::id_key(&routed_id);
                let request = (account_id.to_owned(), original_id);
                self.reverse_requests.insert(key, request);
                proof {
                    let waiting = before.reverse_requests.insert(
                        key@,
                        (request.0@, request.1@),
                    );
                    assert(self@.reverse_requests =~= waiting);
                    assert(self@ =~= (RouterView { reverse_requests: waiting, ..before }));
                    if laws::numbered(first) && first.sequence <= u64::MAX - 2 {
                        assert(laws::labelled(key@, "router-reverse-"@, self@.sequence));
                        laws::reverse_request_is_numbered(first, self@, key@);
                    }
                }
                let mut message = message;
                message.set_field("id", routed_id);
                write_turn(message)
            },
        }
    }

    /// A child answers a request of the client.
    fn handle_answer(&mut self, pending: PendingRequest, response: Json, now: Timestamp) -> (turn:
        Turn)
        requires
            old(self).wf(),
            now.valid(),
        ensures
            final(self).wf(),
            turn.of(final(self)@) == model::answered_turn(old(self)@, pending@, response@, now),
            keeps_state(old(self)@, final(self)@),
            saves_are_loaded(turn.of(final(self)@).effects, final(self)@.state),
    {
        if text::same_text(pending.method.as_str(), "session/prompt")
            && protocol::response_is_quota_exhausted(&response) {
            let session_id = match pending.session_id {
                Some(id) => id,
                None => String::new(),
            };
            let turn = self.begin_failover(
                session_id.as_str(),
                pending.account_id.as_str(),
                pending.original,
            );
            return turn_after(Effect::MarkExhausted(pending.account_id), turn);
        }
        let mut effects = self.commit_response_side_effects(&pending, &response, now);
        let ghost done = effects@;
        effects.push(Effect::Write(response));
        proof {
            assert(effects_view(effects@) =~= effects_view(done) + seq![
                EffectView::Write(response@),
            ]);
        }
        Turn { effects, question: None }
    }

    /// What is done to keep what the router learned.
    fn keep(&self) -> (effects: Vec<Effect>)
        requires
            self.wf(),
        ensures
            effects_view(effects@) == model::kept(
                self@,
                self@.state,
                self@.contexts,
            ).effects,
            state::loaded_text(state::document_text(self@.state)) == Some(self@.state),
            saves_are_loaded(effects_view(effects@), self@.state),
    {
        let mut effects: Vec<Effect> = Vec::new();
        effects.push(Effect::Save(self.state.document()));
        proof {
            assert(effects_view(effects@) =~= model::kept(
                self@,
                self@.state,
                self@.contexts,
            ).effects);
        }
        effects
    }

    /// Learns from the answer to a request who owns a session, or that it is gone.
    fn commit_response_side_effects(
        &mut self,
        pending: &PendingRequest,
        response: &Json,
        now: Timestamp,
    ) -> (effects: Vec<Effect>)
        requires
            old(self).wf(),
            now.valid(),
        ensures
            final(self).wf(),
            (TurnView {
                router: final(self)@,
                effects: effects_view(effects@),
                question: None,
            }) == model::committed(old(self)@, pending@, response@, now),
            keeps_state(old(self)@, final(self)@),
            saves_are_loaded(effects_view(effects@), final(self)@.state),
    {
        let ghost before = self@;
        let nothing: Vec<Effect> = Vec::new();
        proof {
            assert(effects_view(nothing@) =~= Seq::empty());
        }
        if response.field("error").is_some() {
            return nothing;
        }
        let method = pending.method.as_str();
        let account_id = pending.account_id.as_str();
        if text::same_text(method, "session/new") {
            match protocol::result_session_id(response) {
                Some(id) => {
                    self.state.assign_at(id.as_str(), account_id, now);
                    let context = SessionContext::from_request(&pending.original, id.as_str());
                    self.contexts.insert(id, context);
                    proof {
                        let known = before.contexts.insert(id@, context@);
                        assert(self@.contexts =~= known);
                        assert(self@ =~= (RouterView {
                            state: before.state.assigned(id@, account_id@, now),
                            contexts: known,
                            ..before
                        }));
                    }
                    self.keep()
                },
                None => nothing,
            }
        } else if text::same_text(method, "session/load") || text::same_text(
            method,
            "session/resume",
        ) {
            match &pending.session_id {
                Some(id) => {
                    self.state.assign_at(id.as_str(), account_id, now);
                    proof {
                        assert(self@ =~= (RouterView {
                            state: before.state.assigned(id@, account_id@, now),
                            ..before
                        }));
                    }
                    self.keep()
                },
                None => nothing,
            }
        } else if text::same_text(method, "session/fork") {
            match protocol::result_session_id(response) {
                Some(id) => {
                    self.state.assign_at(id.as_str(), account_id, now);
                    self.copy_context(&pending.session_id, id.as_str());
                    self.keep()
                },
                None => nothing,
            }
        } else if text::same_text(method, "session/delete") {
            match &pending.session_id {
                Some(id) => {
                    self.state.remove(id.as_str());
                    let _ = self.contexts.remove(id.as_str());
                    proof {
                        let known = before.contexts.remove(id@);
                        assert(self@.contexts =~= known);
                        assert(self@ =~= (RouterView {
                            state: before.state.without(id@),
                            contexts: known,
                            ..before
                        }));
                    }
                    self.keep()
                },
                None => nothing,
            }
        } else {
            nothing
        }
    }

    /// A session made from another is resumed as the other is.
    fn copy_context(&mut self, source: &Option<String>, session_id: &str)
        requires
            old(self).wf(),
        ensures
            final(self).wf(),
            final(self)@ == (RouterView {
                contexts: match protocol::option_text(*source) {
                    Some(source) => if old(self)@.contexts.contains_key(source) {
                        old(self)@.contexts.insert(session_id@, old(self)@.contexts[source])
                    } else {
                        old(self)@.contexts
                    },
                    None => old(self)@.contexts,
                },
                ..old(self)@
            }),
    {
        let ghost before = self@;
        let context = match source {
            Some(source) => match self.contexts.get(source.as_str()) {
                Some(context) => context.duplicate(),
                None => {
                    return;
                },
            },
            None => {
                return;
            },
        };
        self.contexts.insert(session_id.to_owned(), context);
        proof {
            let known = before.contexts.insert(session_id@, context@);
            assert(self@.contexts =~= known);
            assert(self@ =~= (RouterView { contexts: known, ..before }));
        }
    }
}

// ---------------------------------------------------------------------------
// The end of a child
// ---------------------------------------------------------------------------

impl Router {
    /// The requests that the child of an account has yet to answer, and the replies to them.
    fn orphans(&self, account_id: &str) -> (found: (Vec<String>, Vec<Effect>))
        requires
            self.wf(),
        ensures
            names(found.0@) == table::in_order(model::owed_by(self@.pending, account_id@)),
            names(found.0@).to_set() == model::owed_by(self@.pending, account_id@),
            effects_view(found.1@) == table::in_order(
                model::owed_by(self@.pending, account_id@),
            ).map_values(
                |key: Seq<char>| EffectView::Write(model::orphan_reply(self@.pending[key])),
            ),
    {
        let ghost owed = model::owed_by(self@.pending, account_id@);
        let ghost all = self.pending.keys();
        let mut keys: Vec<String> = Vec::new();
        let mut effects: Vec<Effect> = Vec::new();
        let mut at: usize = 0;
        let total = self.pending.len();
        proof {
            self.pending.positions();
        }
        while at < total
            invariant
                self.wf(),
                owed == model::owed_by(self@.pending, account_id@),
                all == self.pending.keys(),
                total == all.len(),
                at <= total,
                keys@.len() == effects@.len(),
                table::ascending(names(keys@)),
                forall|i: int|
                    0 <= i < keys@.len() ==> {
                        &&& owed.contains(#[trigger] keys@[i]@)
                        &&& exists|j: int| 0 <= j < at && all[j] == keys@[i]@
                    },
                forall|j: int|
                    0 <= j < at && owed.contains(#[trigger] all[j]) ==> names(keys@).contains(
                        all[j],
                    ),
                forall|i: int|
                    0 <= i < keys@.len() ==> (#[trigger] effects@[i])@ == EffectView::Write(
                        model::orphan_reply(self@.pending[keys@[i]@]),
                    ),
            decreases total - at,
        {
            let request = self.pending.value_at(at);
            let ghost key = all[at as int];
            let ghost before = keys@;
            proof {
                self.pending.positions();
                assert(self@.pending[key] == request@);
            }
            if text::same_text(request.account_id.as_str(), account_id) {
                let id = protocol::or_null(request.original.field_copy("id"));
                let reply = protocol::error_response(
                    id,
                    -32045,
                    "The assigned Kimi ACP child exited before completing the request.",
                    None,
                );
                effects.push(Effect::Write(reply));
                keys.push(self.pending.key_at(at).clone());
                proof {
                    assert(owed.contains(key));
                    let longer = names(keys@);
                    let shorter = names(before);
                    assert(longer =~= shorter.push(key));
                    assert forall|i: int, j: int| 0 <= i < j < longer.len() implies
                        #[trigger] text::text_less(longer[i], longer[j]) by {
                        if j < shorter.len() {
                            assert(text::text_less(shorter[i], shorter[j]));
                        } else {
                            let p = choose|p: int| 0 <= p < at && all[p] == before[i]@;
                            assert(text::text_less(all[p], all[at as int]));
                        }
                    }
                    assert(longer[shorter.len() as int] == key);
                    assert forall|j: int| 0 <= j < at && owed.contains(
                        #[trigger] all[j],
                    ) implies longer.contains(all[j]) by {
                        assert(shorter.contains(all[j]));
                        let p = shorter.index_of(all[j]);
                        assert(longer[p] == all[j]);
                    }
                }
            }
            at += 1;
        }
        proof {
            let listed = names(keys@);
            assert forall|key: Seq<char>| owed.contains(key) implies listed.to_set().contains(
                key,
            ) by {
                assert(self.pending@.contains_key(key));
                assert(all.contains(key));
                let j = all.index_of(key);
                assert(owed.contains(all[j]));
            }
            assert forall|key: Seq<char>| listed.to_set().contains(key) implies owed.contains(
                key,
            ) by {
                let i = listed.index_of(key);
                assert(owed.contains(keys@[i]@));
            }
            assert(listed.to_set() =~= owed);
            table::ascending_is_in_order(listed);
            assert(effects_view(effects@) =~= listed.map_values(
                |key: Seq<char>| EffectView::Write(model::orphan_reply(self@.pending[key])),
            ));
        }
        (keys, effects)
    }

    /// Forgets requests that wait for an answer.
    fn forget_pending(&mut self, keys: &Vec<String>)
        requires
            old(self).wf(),
        ensures
            final(self).wf(),
            final(self)@ == (RouterView {
                pending: old(self)@.pending.remove_keys(names(keys@).to_set()),
                ..old(self)@
            }),
    {
        let ghost before = self@;
        let ghost listed = names(keys@);
        let mut at: usize = 0;
        proof {
            assert(listed.take(0).to_set() =~= Set::empty());
            assert(self@.pending =~= before.pending.remove_keys(listed.take(0).to_set()));
        }
        while at < keys.len()
            invariant
                self.wf(),
                listed == names(keys@),
                at <= keys@.len(),
                self@ == (RouterView {
                    pending: before.pending.remove_keys(listed.take(at as int).to_set()),
                    ..before
                }),
            decreases keys@.len() - at,
        {
            let ghost earlier = self@;
            let _ = self.pending.remove(keys[at].as_str());
            at += 1;
            proof {
                let shorter = listed.take(at - 1);
                let longer = listed.take(at as int);
                let key = listed[at - 1];
                assert(longer =~= shorter.push(key));
                assert forall|k: Seq<char>| longer.to_set().contains(k)
                    == shorter.to_set().insert(key).contains(k) by {
                    if shorter.contains(k) {
                        assert(longer[shorter.index_of(k)] == k);
                    }
                    if k == key {
                        assert(longer[at - 1] == k);
                    }
                }
                assert(longer.to_set() =~= shorter.to_set().insert(key));
                assert(self@.pending =~= earlier.pending.remove(key));
                assert(self@.pending =~= before.pending.remove_keys(longer.to_set()));
                assert(self@ =~= (RouterView { pending: self@.pending, ..before }));
            }
        }
        proof {
            assert(listed.take(listed.len() as int) =~= listed);
        }
    }

    /// The child of an account is gone: what it owed is answered with an error, and `initialize` no
    /// longer waits for it.
    pub fn handle_child_closed(&mut self, account_id: &str) -> (turn: Turn)
        requires
            old(self).wf(),
        ensures
            final(self).wf(),
            turn.of(final(self)@) == model::closed_turn(old(self)@, account_id@),
    {
        let ghost first = self@;
        let _ = self.peers.remove(account_id);
        proof {
            assert(self@.peers =~= first.peers.remove(account_id@));
            assert(self@ =~= (RouterView { peers: first.peers.remove(account_id@), ..first }));
        }
        let (keys, replies) = self.orphans(account_id);
        self.forget_pending(&keys);
        let mut effects: Vec<Effect> = replies;
        let ghost done = effects@;
        let ghost expected = model::closed_turn(first, account_id@);
        let ghost rest = self@;
        proof {
            assert(effects_view(done) =~= table::in_order(
                model::owed_by(first.pending, account_id@),
            ).map_values(
                |key: Seq<char>| EffectView::Write(model::orphan_reply(first.pending[key])),
            ));
        }
        match self.init.take() {
            None => {
                proof {
                    assert(self@ =~= expected.router);
                    assert(effects_view(effects@) =~= expected.effects);
                }
            },
            Some(init) => {
                let ghost init_before = first.init->0;
                let ghost left = model::init_without(init_before, account_id@);
                let mut waiting = init.waiting;
                let gone = waiting.remove(account_id).is_some();
                proof {
                    assert(waiting@.dom() =~= left.waiting);
                    waiting.positions();
                    if waiting.keys().len() > 0 {
                        assert(left.waiting.contains(waiting.keys()[0]));
                    } else {
                        assert(waiting.keys() =~= Seq::empty());
                        assert(left.waiting =~= Set::empty());
                    }
                }
                let primary_response = if gone && text::same_text(
                    account_id,
                    init.primary.as_str(),
                ) {
                    Some(
                        protocol::error_response(
                            init.request_id.duplicate(),
                            -32001,
                            "Primary Kimi ACP child exited during initialization.",
                            None,
                        ),
                    )
                } else {
                    init.primary_response
                };
                let over = waiting.len() == 0;
                match primary_response {
                    Some(response) if over => {
                        effects.push(Effect::Write(response));
                        proof {
                            assert(self@ =~= expected.router);
                            assert(effects_view(effects@) =~= expected.effects);
                        }
                    },
                    primary_response => {
                        self.init = Some(
                            InitState {
                                request_id: init.request_id,
                                waiting,
                                primary: init.primary,
                                primary_response,
                            },
                        );
                        proof {
                            assert(self@.init->0 =~= left);
                            assert(self@ =~= expected.router);
                            assert(effects_view(effects@) =~= expected.effects);
                        }
                    },
                }
            },
        }
        Turn { effects, question: None }
    }
}

}
