//! What the router does, step by step, as functions on what it knows.
//!
//! A step takes a [`RouterView`] and an event to a [`TurnView`]: what the router knows afterwards,
//! what it does in the world, in order, and the one thing that it has to ask before it can go on.

use vstd::prelude::*;

use crate::clock::Timestamp;
use crate::json;
use crate::json::JsonView;
use crate::protocol;
use crate::state;
use crate::state::StateView;
use crate::table;
use crate::text;

verus! {

// ---------------------------------------------------------------------------
// What the router knows
// ---------------------------------------------------------------------------

/// A request that a child has yet to answer.
pub struct PendingView {
    pub account_id: Seq<char>,
    pub method: Seq<char>,
    pub original: JsonView,
    pub session_id: Option<Seq<char>>,
}

/// An `initialize` that some children have yet to answer.
#[verifier::ext_equal]
pub struct InitView {
    pub request_id: JsonView,
    pub waiting: Set<Seq<char>>,
    pub primary: Seq<char>,
    pub primary_response: Option<JsonView>,
}

/// A session on its way to another account, and the prompt that waits for it.
pub struct ResumeView {
    pub account_id: Seq<char>,
    pub session_id: Seq<char>,
    pub original_request: JsonView,
    pub client_id_key: Seq<char>,
}

/// The step of a failover whose answer is awaited.
pub enum FailoverView {
    /// The old owner closes the session; the new one is then asked to resume it.
    CloseThenResume { action: ResumeView, resume_request: JsonView },
    /// The new owner resumes the session; the prompt is then sent to it.
    Resume(ResumeView),
}

/// All that the router knows.
#[verifier::ext_equal]
pub struct RouterView {
    /// The accounts that have a running child.
    pub peers: Set<Seq<char>>,
    /// The accounts among which is chosen, the first before the others.
    pub accounts: Seq<Seq<char>>,
    /// The owners of the sessions.
    pub state: StateView,
    /// The parameters by which each known session can be resumed.
    pub contexts: Map<Seq<char>, Map<Seq<char>, JsonView>>,
    /// Requests of the client that children have yet to answer, by the text of their id.
    pub pending: Map<Seq<char>, PendingView>,
    /// Requests of children that the client has yet to answer, by the text of the id that they were
    /// given: the account of the child, and the id that the child had given.
    pub reverse_requests: Map<Seq<char>, (Seq<char>, JsonView)>,
    /// Failovers under way, by the text of the id of the request that is awaited.
    pub failovers: Map<Seq<char>, FailoverView>,
    /// The `initialize` under way, if there is one.
    pub init: Option<InitView>,
    /// The number of the last id that the router made.
    pub sequence: u64,
}

/// What the router does in the world.
pub enum EffectView {
    /// Write a message to the client.
    Write(JsonView),
    /// Send a message to the child of an account.
    Send { account_id: Seq<char>, message: JsonView },
    /// Keep the document of the state.
    Save(Seq<char>),
    /// Note that an account has no capacity left.
    MarkExhausted(Seq<char>),
    /// Give up: a message is due to an account that has no child.
    Unavailable(Seq<char>),
}

/// What a chosen account is for.
pub enum PurposeView {
    /// To serve a request of the client.
    Serve { method: Seq<char>, session: Option<Seq<char>>, message: JsonView },
    /// To take over a session from its owner, for a prompt.
    Failover {
        session_id: Seq<char>,
        owner: Seq<char>,
        message: JsonView,
        context: Map<Seq<char>, JsonView>,
    },
}

/// What the router has to ask before it can go on.
pub enum QuestionView {
    /// Which account to choose, but for those excluded.
    Select { excluded: Seq<Seq<char>>, purpose: PurposeView },
    /// Whether an account has capacity for a prompt.
    Capacity { account_id: Seq<char>, session_id: Seq<char>, message: JsonView },
}

/// What came of a step.
#[verifier::ext_equal]
pub struct TurnView {
    pub router: RouterView,
    pub effects: Seq<EffectView>,
    pub question: Option<QuestionView>,
}

/// A router that has just started.
pub open spec fn started(accounts: Seq<Seq<char>>, state: StateView) -> RouterView {
    RouterView {
        peers: accounts.to_set(),
        accounts,
        state,
        contexts: Map::empty(),
        pending: Map::empty(),
        reverse_requests: Map::empty(),
        failovers: Map::empty(),
        init: None,
        sequence: 0,
    }
}

// ---------------------------------------------------------------------------
// Parts of a step
// ---------------------------------------------------------------------------

/// Nothing is done.
pub open spec fn quiet(router: RouterView) -> TurnView {
    TurnView { router, effects: Seq::empty(), question: None }
}

/// A message is written to the client.
pub open spec fn written(router: RouterView, message: JsonView) -> TurnView {
    TurnView { router, effects: seq![EffectView::Write(message)], question: None }
}

/// A message is sent to the child of an account, if it has one.
pub open spec fn sent(router: RouterView, account_id: Seq<char>, message: JsonView) -> TurnView {
    TurnView {
        router,
        effects: seq![
            if router.peers.contains(account_id) {
                EffectView::Send { account_id, message }
            } else {
                EffectView::Unavailable(account_id)
            },
        ],
        question: None,
    }
}

/// The step, after something else was done.
pub open spec fn after(effect: EffectView, turn: TurnView) -> TurnView {
    TurnView { effects: seq![effect] + turn.effects, ..turn }
}

/// An error is reported to the client.
pub open spec fn refused(
    router: RouterView,
    id: Option<JsonView>,
    code: int,
    message: Seq<char>,
    data: Option<JsonView>,
) -> TurnView {
    written(router, protocol::error_reply(json::or_null(id), code, message, data))
}

/// The first of the accounts that has a child.
pub open spec fn primary_of(accounts: Seq<Seq<char>>, peers: Set<Seq<char>>) -> Option<Seq<char>>
    decreases accounts.len(),
{
    if accounts.len() == 0 {
        None
    } else if peers.contains(accounts[0]) {
        Some(accounts[0])
    } else {
        primary_of(accounts.drop_first(), peers)
    }
}

/// Those of the accounts that have no child.
pub open spec fn childless(accounts: Seq<Seq<char>>, peers: Set<Seq<char>>) -> Seq<Seq<char>>
    decreases accounts.len(),
{
    if accounts.len() == 0 {
        Seq::empty()
    } else {
        let front = childless(accounts.drop_last(), peers);
        if peers.contains(accounts.last()) {
            front
        } else {
            front.push(accounts.last())
        }
    }
}

/// Those of the accounts that have a child.
pub open spec fn with_child(accounts: Seq<Seq<char>>, peers: Set<Seq<char>>) -> Seq<Seq<char>>
    decreases accounts.len(),
{
    if accounts.len() == 0 {
        Seq::empty()
    } else {
        let front = with_child(accounts.drop_last(), peers);
        if peers.contains(accounts.last()) {
            front.push(accounts.last())
        } else {
            front
        }
    }
}

impl RouterView {
    /// The account that serves what belongs to no session.
    pub open spec fn primary(self) -> Option<Seq<char>> {
        primary_of(self.accounts, self.peers)
    }

    /// The accounts that may not be chosen: those named, and those without a child.
    pub open spec fn excluded(self, named: Seq<Seq<char>>) -> Seq<Seq<char>> {
        named + childless(self.accounts, self.peers)
    }

    /// The number of the next id that the router makes.
    pub open spec fn next_sequence(self) -> u64 {
        if self.sequence == u64::MAX {
            0
        } else {
            (self.sequence + 1) as u64
        }
    }
}

/// An account has to be chosen.
pub open spec fn ask_account(
    router: RouterView,
    named: Seq<Seq<char>>,
    purpose: PurposeView,
) -> TurnView {
    TurnView {
        router,
        effects: Seq::empty(),
        question: Some(QuestionView::Select { excluded: router.excluded(named), purpose }),
    }
}

// ---------------------------------------------------------------------------
// Requests of the client
// ---------------------------------------------------------------------------

/// Whether a message is a request to `initialize`.
pub open spec fn is_initialize(message: JsonView) -> bool {
    message.field("method"@) is Some && protocol::method_in(message) == "initialize"@
}

/// Whether the router can take a message of the client. To `initialize`, one of the running
/// children has to belong to an account among which is chosen.
pub open spec fn can_take(router: RouterView, message: JsonView) -> bool {
    is_initialize(message) ==> router.peers.is_empty() || router.primary() is Some
}

/// A line of the client. A blank line is passed over, and one that is no JSON text is answered with
/// an error; there is no turn for a message that the router cannot take.
pub open spec fn line_turn(router: RouterView, line: Seq<char>) -> Option<TurnView> {
    if text::trimmed(line).len() == 0 {
        Some(quiet(router))
    } else {
        match json::parsed_json(line) {
            Ok(message) => if can_take(router, message) {
                Some(client_turn(router, message))
            } else {
                None
            },
            Err(words) => Some(written(router, protocol::parse_error_reply(words))),
        }
    }
}

/// A message of the client.
pub open spec fn client_turn(router: RouterView, message: JsonView) -> TurnView {
    let id = message.field("id"@);
    let method = protocol::method_in(message);
    if message.field("method"@) is None {
        client_response_turn(router, message)
    } else if method == "initialize"@ {
        initialize_turn(router, message)
    } else if router.init is Some {
        refused(router, id, -32001, "Router initialization is still in progress."@, None)
    } else if method == "logout"@ {
        refused(router, id, -32601, "Logout is managed by Kimi Subscription Router."@, None)
    } else {
        request_turn(router, method, protocol::session_in(message), message)
    }
}

/// A request that an account has to serve.
pub open spec fn request_turn(
    router: RouterView,
    method: Seq<char>,
    session_id: Option<Seq<char>>,
    message: JsonView,
) -> TurnView {
    let choose_one = ask_account(
        router,
        Seq::empty(),
        PurposeView::Serve { method, session: session_id, message },
    );
    if method == "session/new"@ {
        choose_one
    } else if method == "session/list"@ || method == "authenticate"@ || !text::begins_with(
        method,
        "session/"@,
    ) {
        match router.primary() {
            Some(account_id) => serve_turn(router, account_id, method, session_id, message),
            None => written(router, protocol::no_accounts_reply(message.field("id"@))),
        }
    } else {
        match session_id {
            None => refused(router, message.field("id"@), -32602, "Missing sessionId."@, None),
            Some(id) => match router.state.owner(id) {
                Some(owner) => if router.peers.contains(owner) {
                    serve_turn(router, owner, method, session_id, message)
                } else {
                    choose_one
                },
                None => choose_one,
            },
        }
    }
}

/// A request goes to an account; before a prompt, it is asked whether the account has capacity.
pub open spec fn serve_turn(
    router: RouterView,
    account_id: Seq<char>,
    method: Seq<char>,
    session_id: Option<Seq<char>>,
    message: JsonView,
) -> TurnView {
    if method == "session/prompt"@ && session_id is Some {
        TurnView {
            router,
            effects: Seq::empty(),
            question: Some(
                QuestionView::Capacity { account_id, session_id: session_id->0, message },
            ),
        }
    } else {
        forward_turn(
            RouterView {
                contexts: if (method == "session/load"@ || method == "session/resume"@)
                    && session_id is Some {
                    router.contexts.insert(
                        session_id->0,
                        protocol::resume_params_of(message, session_id->0),
                    )
                } else {
                    router.contexts
                },
                ..router
            },
            account_id,
            method,
            session_id,
            message,
        )
    }
}

/// A request is handed to the child of an account, and its answer is awaited if it has an id.
pub open spec fn forward_turn(
    router: RouterView,
    account_id: Seq<char>,
    method: Seq<char>,
    session_id: Option<Seq<char>>,
    message: JsonView,
) -> TurnView {
    sent(
        RouterView {
            pending: match message.field("id"@) {
                Some(id) => router.pending.insert(
                    json::compact_text(id),
                    PendingView { account_id, method, original: message, session_id },
                ),
                None => router.pending,
            },
            ..router
        },
        account_id,
        message,
    )
}

/// Whether an account has capacity for a prompt was answered.
pub open spec fn capacity_turn(
    router: RouterView,
    account_id: Seq<char>,
    session_id: Seq<char>,
    message: JsonView,
    has_capacity: bool,
) -> TurnView {
    if has_capacity {
        forward_turn(router, account_id, "session/prompt"@, Some(session_id), message)
    } else {
        after(
            EffectView::MarkExhausted(account_id),
            failover_turn(router, session_id, account_id, message),
        )
    }
}

/// An account was chosen, or all are depleted.
pub open spec fn selected_turn(
    router: RouterView,
    purpose: PurposeView,
    answer: Result<Seq<char>, Option<Timestamp>>,
) -> TurnView {
    match (answer, purpose) {
        (Ok(account_id), PurposeView::Serve { method, session, message }) => serve_turn(
            router,
            account_id,
            method,
            session,
            message,
        ),
        (
            Ok(account_id),
            PurposeView::Failover { session_id, owner, message, context },
        ) => replace_turn(router, session_id, owner, message, context, account_id),
        (Err(next_reset), PurposeView::Serve { message, .. }) => written(
            router,
            protocol::pool_exhausted_reply(message.field("id"@), next_reset),
        ),
        (Err(next_reset), PurposeView::Failover { message, .. }) => written(
            router,
            protocol::pool_exhausted_reply(message.field("id"@), next_reset),
        ),
    }
}

/// The client answers a request of a child.
pub open spec fn client_response_turn(router: RouterView, message: JsonView) -> TurnView {
    match message.field("id"@) {
        None => quiet(router),
        Some(id) => {
            let key = json::compact_text(id);
            if router.reverse_requests.contains_key(key) {
                let (account_id, original_id) = router.reverse_requests[key];
                sent(
                    RouterView {
                        reverse_requests: router.reverse_requests.remove(key),
                        ..router
                    },
                    account_id,
                    message.with_field("id"@, original_id),
                )
            } else {
                quiet(router)
            }
        },
    }
}

/// Every child is told to initialize.
pub open spec fn initialize_turn(router: RouterView, message: JsonView) -> TurnView {
    if router.peers.is_empty() {
        written(router, protocol::no_accounts_reply(message.field("id"@)))
    } else {
        TurnView {
            router: RouterView {
                init: Some(
                    InitView {
                        request_id: json::or_null(message.field("id"@)),
                        waiting: router.peers,
                        primary: router.primary()->0,
                        primary_response: None,
                    },
                ),
                ..router
            },
            effects: table::in_order(router.peers).map_values(
                |account_id: Seq<char>| EffectView::Send { account_id, message },
            ),
            question: None,
        }
    }
}

// ---------------------------------------------------------------------------
// Failover
// ---------------------------------------------------------------------------

/// The text of an id that the router makes.
pub open spec fn made_id(prefix: Seq<char>, number: u64) -> Seq<char> {
    prefix + text::decimal(number as nat)
}

/// A session has to leave its owner.
pub open spec fn failover_turn(
    router: RouterView,
    session_id: Seq<char>,
    owner: Seq<char>,
    message: JsonView,
) -> TurnView {
    if router.contexts.contains_key(session_id) {
        ask_account(
            router,
            seq![owner],
            PurposeView::Failover {
                session_id,
                owner,
                message,
                context: router.contexts[session_id],
            },
        )
    } else {
        refused(
            router,
            message.field("id"@),
            -32043,
            "Cannot move this session because its resume context is unavailable. Load the session and retry."@,
            None,
        )
    }
}

/// The account that takes over a session is known: the owner is told to close the session.
pub open spec fn replace_turn(
    router: RouterView,
    session_id: Seq<char>,
    owner: Seq<char>,
    message: JsonView,
    context: Map<Seq<char>, JsonView>,
    replacement: Seq<char>,
) -> TurnView {
    match message.field("id"@) {
        None => quiet(router),
        Some(client_id) => {
            let first = RouterView { sequence: router.next_sequence(), ..router };
            let second = RouterView { sequence: first.next_sequence(), ..first };
            let close_id = made_id("router-close-"@, second.sequence);
            sent(
                RouterView {
                    failovers: second.failovers.insert(
                        json::compact_text(JsonView::Text(close_id)),
                        FailoverView::CloseThenResume {
                            action: ResumeView {
                                account_id: replacement,
                                session_id,
                                original_request: message,
                                client_id_key: json::compact_text(client_id),
                            },
                            resume_request: protocol::own_request(
                                made_id("router-resume-"@, first.sequence),
                                "session/resume"@,
                                context,
                            ),
                        },
                    ),
                    ..second
                },
                owner,
                protocol::own_request(
                    close_id,
                    "session/close"@,
                    protocol::session_params(session_id),
                ),
            )
        },
    }
}

/// The awaited answer of a failover came.
pub open spec fn failover_step_turn(
    router: RouterView,
    step: FailoverView,
    response: JsonView,
    now: Timestamp,
) -> TurnView {
    match step {
        FailoverView::CloseThenResume { action, resume_request } => match response.field(
            "error"@,
        ) {
            Some(error) => refused(
                router,
                action.original_request.field("id"@),
                -32044,
                "Kimi session failover could not close the previous owner."@,
                Some(error),
            ),
            None => sent(
                RouterView {
                    failovers: router.failovers.insert(
                        json::compact_text(json::or_null(resume_request.field("id"@))),
                        FailoverView::Resume(action),
                    ),
                    ..router
                },
                action.account_id,
                resume_request,
            ),
        },
        FailoverView::Resume(action) => resumed_turn(router, action, response, now),
    }
}

/// The new owner answered the request to resume.
pub open spec fn resumed_turn(
    router: RouterView,
    action: ResumeView,
    response: JsonView,
    now: Timestamp,
) -> TurnView {
    match response.field("error"@) {
        Some(error) => refused(
            router,
            action.original_request.field("id"@),
            -32044,
            "Kimi session failover could not resume the conversation."@,
            Some(error),
        ),
        None => {
            let moved = router.state.assigned(action.session_id, action.account_id, now);
            after(
                EffectView::Save(state::document_text(moved)),
                sent(
                    RouterView {
                        state: moved,
                        pending: router.pending.insert(
                            action.client_id_key,
                            PendingView {
                                account_id: action.account_id,
                                method: "session/prompt"@,
                                original: action.original_request,
                                session_id: Some(action.session_id),
                            },
                        ),
                        ..router
                    },
                    action.account_id,
                    action.original_request,
                ),
            )
        },
    }
}

// ---------------------------------------------------------------------------
// Messages of children
// ---------------------------------------------------------------------------

/// Whether a message of a child is its answer to the `initialize` under way.
pub open spec fn answers_initialize(
    router: RouterView,
    account_id: Seq<char>,
    message: JsonView,
) -> bool {
    match (router.init, message.field("id"@)) {
        (Some(init), Some(id)) => json::same_tree(id, init.request_id) && init.waiting.contains(
            account_id,
        ),
        _ => false,
    }
}

/// A message of the child of an account.
pub open spec fn child_turn(
    router: RouterView,
    account_id: Seq<char>,
    message: JsonView,
    now: Timestamp,
) -> TurnView {
    if answers_initialize(router, account_id, message) {
        initialized_turn(router, router.init->0, account_id, message)
    } else if message.field("method"@) is Some {
        child_request_turn(router, account_id, message)
    } else {
        match message.field("id"@) {
            None => written(router, message),
            Some(id) => {
                let key = json::compact_text(id);
                if router.failovers.contains_key(key) {
                    failover_step_turn(
                        RouterView { failovers: router.failovers.remove(key), ..router },
                        router.failovers[key],
                        message,
                        now,
                    )
                } else if router.pending.contains_key(key) {
                    answered_turn(
                        RouterView { pending: router.pending.remove(key), ..router },
                        router.pending[key],
                        message,
                        now,
                    )
                } else {
                    written(router, message)
                }
            },
        }
    }
}

/// A child answers `initialize`; the last of them lets the client know what the primary said.
pub open spec fn initialized_turn(
    router: RouterView,
    init: InitView,
    account_id: Seq<char>,
    message: JsonView,
) -> TurnView {
    let waiting = init.waiting.remove(account_id);
    let response = if account_id == init.primary {
        Some(protocol::normalized(message))
    } else {
        init.primary_response
    };
    if waiting.is_empty() {
        written(
            RouterView { init: None, ..router },
            match response {
                Some(response) => response,
                None => protocol::error_reply(
                    init.request_id,
                    -32001,
                    "Kimi ACP initialization failed."@,
                    None,
                ),
            },
        )
    } else {
        quiet(
            RouterView {
                init: Some(InitView { waiting, primary_response: response, ..init }),
                ..router
            },
        )
    }
}

/// A child asks or tells the client something. A request gets an id of the router's own, so that
/// the answer finds its way back.
pub open spec fn child_request_turn(
    router: RouterView,
    account_id: Seq<char>,
    message: JsonView,
) -> TurnView {
    match message.field("id"@) {
        None => written(router, message),
        Some(original_id) => {
            let routed = JsonView::Text(made_id("router-reverse-"@, router.next_sequence()));
            written(
                RouterView {
                    sequence: router.next_sequence(),
                    reverse_requests: router.reverse_requests.insert(
                        json::compact_text(routed),
                        (account_id, original_id),
                    ),
                    ..router
                },
                message.with_field("id"@, routed),
            )
        },
    }
}

/// A child answers a request of the client.
pub open spec fn answered_turn(
    router: RouterView,
    pending: PendingView,
    response: JsonView,
    now: Timestamp,
) -> TurnView {
    if pending.method == "session/prompt"@ && protocol::is_quota_error(response) {
        after(
            EffectView::MarkExhausted(pending.account_id),
            failover_turn(
                router,
                match pending.session_id {
                    Some(id) => id,
                    None => Seq::empty(),
                },
                pending.account_id,
                pending.original,
            ),
        )
    } else {
        let committed = committed(router, pending, response, now);
        TurnView {
            effects: committed.effects + seq![EffectView::Write(response)],
            ..committed
        }
    }
}

/// The router learned who owns a session, or that it is gone, and keeps that.
pub open spec fn kept(
    router: RouterView,
    state: StateView,
    contexts: Map<Seq<char>, Map<Seq<char>, JsonView>>,
) -> TurnView {
    TurnView {
        router: RouterView { state, contexts, ..router },
        effects: seq![EffectView::Save(state::document_text(state))],
        question: None,
    }
}

/// What the router learns from the answer to a request.
pub open spec fn committed(
    router: RouterView,
    pending: PendingView,
    response: JsonView,
    now: Timestamp,
) -> TurnView {
    let made = protocol::result_session_in(response);
    if response.field("error"@) is Some {
        quiet(router)
    } else if pending.method == "session/new"@ {
        match made {
            Some(id) => kept(
                router,
                router.state.assigned(id, pending.account_id, now),
                router.contexts.insert(id, protocol::resume_params_of(pending.original, id)),
            ),
            None => quiet(router),
        }
    } else if pending.method == "session/load"@ || pending.method == "session/resume"@ {
        match pending.session_id {
            Some(id) => kept(
                router,
                router.state.assigned(id, pending.account_id, now),
                router.contexts,
            ),
            None => quiet(router),
        }
    } else if pending.method == "session/fork"@ {
        match made {
            Some(id) => kept(
                router,
                router.state.assigned(id, pending.account_id, now),
                match pending.session_id {
                    Some(source) => if router.contexts.contains_key(source) {
                        router.contexts.insert(id, router.contexts[source])
                    } else {
                        router.contexts
                    },
                    None => router.contexts,
                },
            ),
            None => quiet(router),
        }
    } else if pending.method == "session/delete"@ {
        match pending.session_id {
            Some(id) => kept(router, router.state.without(id), router.contexts.remove(id)),
            None => quiet(router),
        }
    } else {
        quiet(router)
    }
}

// ---------------------------------------------------------------------------
// The end of a child
// ---------------------------------------------------------------------------

/// The requests that the child of an account has yet to answer.
pub open spec fn owed_by(pending: Map<Seq<char>, PendingView>, account_id: Seq<char>) -> Set<
    Seq<char>,
> {
    pending.dom().filter(|key: Seq<char>| pending[key].account_id == account_id)
}

/// The reply to a request whose child is gone.
pub open spec fn orphan_reply(pending: PendingView) -> JsonView {
    protocol::error_reply(
        json::or_null(pending.original.field("id"@)),
        -32045,
        "The assigned Kimi ACP child exited before completing the request."@,
        None,
    )
}

/// An `initialize` under way after the child of an account is gone.
pub open spec fn init_without(init: InitView, account_id: Seq<char>) -> InitView {
    InitView {
        waiting: init.waiting.remove(account_id),
        primary_response: if init.waiting.contains(account_id) && account_id == init.primary {
            Some(
                protocol::error_reply(
                    init.request_id,
                    -32001,
                    "Primary Kimi ACP child exited during initialization."@,
                    None,
                ),
            )
        } else {
            init.primary_response
        },
        ..init
    }
}

/// The child of an account is gone: what it owed is answered with an error, and `initialize` no
/// longer waits for it.
pub open spec fn closed_turn(router: RouterView, account_id: Seq<char>) -> TurnView {
    let owed = owed_by(router.pending, account_id);
    let replies = table::in_order(owed).map_values(
        |key: Seq<char>| EffectView::Write(orphan_reply(router.pending[key])),
    );
    let rest = RouterView {
        peers: router.peers.remove(account_id),
        pending: router.pending.remove_keys(owed),
        ..router
    };
    match router.init {
        None => TurnView { router: rest, effects: replies, question: None },
        Some(init) => {
            let left = init_without(init, account_id);
            if left.waiting.is_empty() && left.primary_response is Some {
                TurnView {
                    router: RouterView { init: None, ..rest },
                    effects: replies + seq![EffectView::Write(left.primary_response->0)],
                    question: None,
                }
            } else {
                TurnView {
                    router: RouterView { init: Some(left), ..rest },
                    effects: replies,
                    question: None,
                }
            }
        },
    }
}

/// The accounts among which is chosen were listed anew.
pub open spec fn with_accounts(router: RouterView, accounts: Seq<Seq<char>>) -> RouterView {
    RouterView { accounts, ..router }
}

}
