//! What holds of the router as a whole, over several steps and in every state.

use vstd::prelude::*;

use crate::clock::Timestamp;
use crate::json;
use crate::json::JsonView;
use crate::model;
use crate::model::{
    EffectView, FailoverView, PendingView, PurposeView, QuestionView, RouterView, TurnView,
};
use crate::protocol;
use crate::state;
use crate::table;
use crate::text;

verus! {

// ---------------------------------------------------------------------------
// Sessions stay with their owner
// ---------------------------------------------------------------------------

/// Whether a message is a request that goes to the owner of a session.
pub open spec fn belongs_to(message: JsonView, session_id: Seq<char>) -> bool {
    let method = protocol::method_in(message);
    &&& message.field("method"@) is Some
    &&& text::begins_with(method, "session/"@)
    &&& method != "session/new"@
    &&& method != "session/list"@
    &&& protocol::session_in(message) == Some(session_id)
}

/// A request for a session goes, as it is, to the account that owns the session, as long as that
/// account has a child. A prompt goes there once the account is known to have capacity.
pub proof fn owner_serves_its_session(
    router: RouterView,
    message: JsonView,
    session_id: Seq<char>,
    owner: Seq<char>,
)
    requires
        router.init is None,
        belongs_to(message, session_id),
        router.state.owner(session_id) == Some(owner),
        router.peers.contains(owner),
    ensures
        protocol::method_in(message) != "session/prompt"@ ==> {
            &&& model::client_turn(router, message).effects == seq![
                EffectView::Send { account_id: owner, message },
            ]
            &&& model::client_turn(router, message).question is None
        },
        protocol::method_in(message) == "session/prompt"@ ==> {
            &&& model::client_turn(router, message) == (TurnView {
                router,
                effects: Seq::empty(),
                question: Some(QuestionView::Capacity { account_id: owner, session_id, message }),
            })
            &&& model::capacity_turn(router, owner, session_id, message, true).effects == seq![
                EffectView::Send { account_id: owner, message },
            ]
        },
        model::client_turn(router, message).router.state == router.state,
{
    reveal_strlit("initialize");
    reveal_strlit("logout");
    reveal_strlit("session/");
    reveal_strlit("authenticate");
    let method = protocol::method_in(message);
    let prefix = "session/"@;
    assert(prefix[0] == 's');
    assert(method.take(8)[0] == 's');
    assert(method[0] == 's');
    assert("initialize"@[0] == 'i');
    assert("logout"@[0] == 'l');
    assert("authenticate"@[0] == 'a');
}

/// A session that an account made is that account's from then on, and can be resumed elsewhere.
pub proof fn new_session_belongs_to_its_maker(
    router: RouterView,
    pending: PendingView,
    response: JsonView,
    now: Timestamp,
    session_id: Seq<char>,
)
    requires
        pending.method == "session/new"@,
        response.field("error"@) is None,
        protocol::result_session_in(response) == Some(session_id),
    ensures
        model::answered_turn(router, pending, response, now).router.state.owner(session_id)
            == Some(pending.account_id),
        model::answered_turn(router, pending, response, now).router.contexts.contains_key(
            session_id,
        ),
{
    reveal_strlit("session/new");
    reveal_strlit("session/prompt");
    assert("session/new"@.len() != "session/prompt"@.len());
}

/// A session that was deleted has no owner any more.
pub proof fn deleted_session_has_no_owner(
    router: RouterView,
    pending: PendingView,
    response: JsonView,
    now: Timestamp,
    session_id: Seq<char>,
)
    requires
        pending.method == "session/delete"@,
        response.field("error"@) is None,
        pending.session_id == Some(session_id),
    ensures
        model::answered_turn(router, pending, response, now).router.state.owner(
            session_id,
        ) is None,
        !model::answered_turn(router, pending, response, now).router.contexts.contains_key(
            session_id,
        ),
{
    reveal_strlit("session/new");
    reveal_strlit("session/load");
    reveal_strlit("session/resume");
    reveal_strlit("session/fork");
    reveal_strlit("session/delete");
    reveal_strlit("session/prompt");
    let method = "session/delete"@;
    assert(method[8] == 'd');
    assert("session/prompt"@[8] == 'p');
    assert("session/resume"@[8] == 'r');
    assert("session/load"@.len() != method.len());
    assert("session/fork"@.len() != method.len());
    assert("session/new"@.len() != method.len());
}

// ---------------------------------------------------------------------------
// The order of a failover
// ---------------------------------------------------------------------------

/// Whether a message is the answer to the request of an id, with or without an error.
pub open spec fn answers(message: JsonView, id: JsonView) -> bool {
    message.field("method"@) is None && message.field("id"@) == Some(id)
}

/// What becomes of a prompt whose session moves: the old owner closes the session; when it has
/// done so, the new owner is told to resume it with the parameters that are known; when it has
/// done so, the session is its own, which is kept, and then the prompt is sent to it as it was.
pub proof fn failover_closes_then_resumes_then_retries(
    router: RouterView,
    session_id: Seq<char>,
    owner: Seq<char>,
    prompt: JsonView,
    context: Map<Seq<char>, JsonView>,
    replacement: Seq<char>,
    closed: JsonView,
    resumed: JsonView,
    from: Seq<char>,
    then: Timestamp,
    now: Timestamp,
)
    requires
        !model::answers_initialize(router, owner, closed),
        !model::answers_initialize(router, from, resumed),
        router.peers.contains(owner),
        router.peers.contains(replacement),
        prompt.field("id"@) is Some,
        closed.field("error"@) is None,
        resumed.field("error"@) is None,
        ({
            let asked = model::replace_turn(
                router,
                session_id,
                owner,
                prompt,
                context,
                replacement,
            );
            &&& asked.effects[0] matches EffectView::Send { message, .. }
            &&& answers(closed, json::or_null(message.field("id"@)))
        }),
        ({
            let asked = model::replace_turn(
                router,
                session_id,
                owner,
                prompt,
                context,
                replacement,
            );
            let moved = model::child_turn(asked.router, owner, closed, then);
            &&& moved.effects[0] matches EffectView::Send { message, .. }
            &&& answers(resumed, json::or_null(message.field("id"@)))
        }),
    ensures
        ({
            let asked = model::replace_turn(
                router,
                session_id,
                owner,
                prompt,
                context,
                replacement,
            );
            let moved = model::child_turn(asked.router, owner, closed, then);
            let retried = model::child_turn(moved.router, from, resumed, now);
            let state = router.state.assigned(session_id, replacement, now);
            &&& asked.effects.len() == 1
            &&& asked.effects[0] matches EffectView::Send { account_id, message }
            &&& account_id == owner
            &&& protocol::method_in(message) == "session/close"@
            &&& protocol::session_in(message) == Some(session_id)
            &&& asked.router.state == router.state
            &&& moved.effects.len() == 1
            &&& moved.effects[0] matches EffectView::Send { account_id, message }
            &&& account_id == replacement
            &&& protocol::method_in(message) == "session/resume"@
            &&& message.field("params"@) == Some(JsonView::Object(context))
            &&& moved.router.state == router.state
            &&& retried.effects == seq![
                EffectView::Save(state::document_text(state)),
                EffectView::Send { account_id: replacement, message: prompt },
            ]
            &&& retried.router.state == state
            &&& retried.router.state.owner(session_id) == Some(replacement)
        }),
{
    own_request_reads_back(
        model::made_id(
            "router-close-"@,
            (RouterView { sequence: router.next_sequence(), ..router }).next_sequence(),
        ),
        "session/close"@,
        protocol::session_params(session_id),
    );
    own_request_reads_back(
        model::made_id("router-resume-"@, router.next_sequence()),
        "session/resume"@,
        context,
    );
    let asked = model::replace_turn(router, session_id, owner, prompt, context, replacement);
    let moved = model::child_turn(asked.router, owner, closed, then);
    let retried = model::child_turn(moved.router, from, resumed, now);
    let state = router.state.assigned(session_id, replacement, now);
    assert(retried.effects =~= seq![
        EffectView::Save(state::document_text(state)),
        EffectView::Send { account_id: replacement, message: prompt },
    ]);
}

/// A request of the router's own says what it was made of.
pub(crate) proof fn own_request_reads_back(
    id: Seq<char>,
    method: Seq<char>,
    params: Map<Seq<char>, JsonView>,
)
    ensures
        protocol::own_request(id, method, params).field("id"@) == Some(JsonView::Text(id)),
        protocol::method_in(protocol::own_request(id, method, params)) == method,
        protocol::own_request(id, method, params).field("params"@) == Some(
            JsonView::Object(params),
        ),
        protocol::session_in(protocol::own_request(id, method, params)) == json::text_in(
            JsonView::Object(params).field("sessionId"@),
        ),
{
    reveal_strlit("jsonrpc");
    reveal_strlit("id");
    reveal_strlit("method");
    reveal_strlit("params");
    assert("method"@[0] == 'm');
    assert("params"@[0] == 'p');
    assert("jsonrpc"@.len() == 7);
    assert("id"@.len() == 2);
}

/// Where the old owner does not close the session, or the new one does not resume it, the client is
/// told so under the id of its prompt, with the child's error; the session keeps its owner, and the
/// prompt is sent to no one.
pub proof fn failed_failover_changes_nothing(
    router: RouterView,
    step: FailoverView,
    response: JsonView,
    now: Timestamp,
)
    requires
        response.field("error"@) is Some,
    ensures
        ({
            let action = match step {
                FailoverView::CloseThenResume { action, .. } => action,
                FailoverView::Resume(action) => action,
            };
            let turn = model::failover_step_turn(router, step, response, now);
            &&& turn.router == router
            &&& turn.question is None
            &&& turn.effects.len() == 1
            &&& turn.effects[0] matches EffectView::Write(reply)
            &&& reply.field("id"@) == Some(json::or_null(action.original_request.field("id"@)))
            &&& reply.inner_field("error"@, "code"@) == Some(
                JsonView::Number(json::integer_number(-32044)),
            )
            &&& reply.inner_field("error"@, "data"@) == response.field("error"@)
        }),
{
    let action = match step {
        FailoverView::CloseThenResume { action, .. } => action,
        FailoverView::Resume(action) => action,
    };
    let id = json::or_null(action.original_request.field("id"@));
    error_reply_reads_back(
        id,
        -32044,
        "Kimi session failover could not close the previous owner."@,
        response.field("error"@),
    );
    error_reply_reads_back(
        id,
        -32044,
        "Kimi session failover could not resume the conversation."@,
        response.field("error"@),
    );
}

/// A reply says what it was made of.
proof fn error_reply_reads_back(
    id: JsonView,
    code: int,
    message: Seq<char>,
    data: Option<JsonView>,
)
    ensures
        protocol::error_reply(id, code, message, data).field("id"@) == Some(id),
        protocol::error_reply(id, code, message, data).inner_field("error"@, "code"@) == Some(
            JsonView::Number(json::integer_number(code)),
        ),
        protocol::error_reply(id, code, message, data).inner_field("error"@, "message"@) == Some(
            JsonView::Text(message),
        ),
        protocol::error_reply(id, code, message, data).inner_field("error"@, "data"@) == data,
{
    reveal_strlit("jsonrpc");
    reveal_strlit("id");
    reveal_strlit("error");
    reveal_strlit("code");
    reveal_strlit("message");
    reveal_strlit("data");
    assert("jsonrpc"@.len() == 7);
    assert("id"@.len() == 2);
    assert("error"@.len() == 5);
    assert("code"@[0] == 'c');
    assert("data"@[0] == 'd');
    assert("message"@.len() == 7);
}

/// Where all accounts are depleted, the client is told so under the id of its request, with the
/// next reset if one is known, and nothing else happens.
pub proof fn depleted_pool_is_reported(
    router: RouterView,
    purpose: PurposeView,
    next_reset: Option<Timestamp>,
)
    ensures
        ({
            let message = match purpose {
                PurposeView::Serve { message, .. } => message,
                PurposeView::Failover { message, .. } => message,
            };
            let turn = model::selected_turn(router, purpose, Err(next_reset));
            &&& turn.router == router
            &&& turn.question is None
            &&& turn.effects.len() == 1
            &&& turn.effects[0] matches EffectView::Write(reply)
            &&& reply.field("id"@) == Some(json::or_null(message.field("id"@)))
            &&& reply.inner_field("error"@, "code"@) == Some(
                JsonView::Number(json::integer_number(-32042)),
            )
            &&& reply.inner_field("error"@, "data"@) == Some(protocol::reset_data(next_reset))
        }),
{
    let message = match purpose {
        PurposeView::Serve { message, .. } => message,
        PurposeView::Failover { message, .. } => message,
    };
    error_reply_reads_back(
        json::or_null(message.field("id"@)),
        -32042,
        "All configured Kimi accounts are depleted."@,
        Some(protocol::reset_data(next_reset)),
    );
}

/// An answer sets off a failover only where it answers a prompt and is an error that tells of spent
/// quota. Any other answer is handed to the client as it is.
pub proof fn only_quota_errors_set_off_a_failover(
    router: RouterView,
    pending: PendingView,
    response: JsonView,
    now: Timestamp,
)
    requires
        pending.method != "session/prompt"@ || !protocol::is_quota_error(response),
    ensures
        model::answered_turn(router, pending, response, now).question is None,
        model::answered_turn(router, pending, response, now).effects.len() > 0,
        model::answered_turn(router, pending, response, now).effects.last() == EffectView::Write(
            response,
        ),
        response.field("error"@) is Some ==> model::answered_turn(
            router,
            pending,
            response,
            now,
        ).router == router,
{
}

/// The account that is asked for in a failover is neither the old owner nor one without a child.
pub proof fn failover_leaves_the_owner(
    router: RouterView,
    session_id: Seq<char>,
    owner: Seq<char>,
    message: JsonView,
    account_id: Seq<char>,
)
    requires
        router.contexts.contains_key(session_id),
        account_id == owner || (router.accounts.contains(account_id) && !router.peers.contains(
            account_id,
        )),
    ensures
        model::failover_turn(router, session_id, owner, message).question matches Some(
            QuestionView::Select { excluded, .. },
        ) && excluded.contains(account_id),
{
    let excluded = router.excluded(seq![owner]);
    if account_id == owner {
        assert(excluded[0] == owner);
    } else {
        childless_holds(router.accounts, router.peers, account_id);
        let rest = model::childless(router.accounts, router.peers);
        let i = rest.index_of(account_id);
        assert(excluded[i + 1] == account_id);
    }
}

proof fn childless_holds(accounts: Seq<Seq<char>>, peers: Set<Seq<char>>, account_id: Seq<char>)
    requires
        accounts.contains(account_id),
        !peers.contains(account_id),
    ensures
        model::childless(accounts, peers).contains(account_id),
    decreases accounts.len(),
{
    let front = model::childless(accounts.drop_last(), peers);
    if accounts.last() == account_id {
        assert(front.push(account_id)[front.len() as int] == account_id);
    } else {
        let i = accounts.index_of(account_id);
        assert(accounts.drop_last()[i] == account_id);
        childless_holds(accounts.drop_last(), peers, account_id);
        let j = front.index_of(account_id);
        assert(front.push(accounts.last())[j] == account_id);
    }
}

// ---------------------------------------------------------------------------
// Nothing is lost
// ---------------------------------------------------------------------------

/// Whether a turn replies to a message under its id.
pub open spec fn replies_to(turn: TurnView, message: JsonView) -> bool {
    &&& turn.question is None
    &&& turn.effects.len() > 0
    &&& turn.effects.last() matches EffectView::Write(reply) && reply.field("id"@)
        == message.field("id"@)
}

/// Whether a turn asks a question on account of a message.
pub open spec fn asks_for(turn: TurnView, message: JsonView) -> bool {
    match turn.question {
        Some(QuestionView::Select { purpose: PurposeView::Serve { message: asked, .. }, .. }) => asked
            == message,
        Some(
            QuestionView::Select { purpose: PurposeView::Failover { message: asked, .. }, .. },
        ) => asked == message,
        Some(QuestionView::Capacity { message: asked, .. }) => asked == message,
        None => false,
    }
}

/// Whether a turn hands a message to the child of an account, and awaits the answer.
pub open spec fn hands_on(turn: TurnView, message: JsonView) -> bool {
    let key = json::compact_text(json::or_null(message.field("id"@)));
    &&& turn.question is None
    &&& turn.effects.len() > 0
    &&& turn.router.pending.contains_key(key)
    &&& turn.router.pending[key].original == message
    &&& turn.effects.last() == (EffectView::Send {
        account_id: turn.router.pending[key].account_id,
        message,
    })
}

/// Whether a turn gives up because a child is gone.
pub open spec fn gives_up(turn: TurnView) -> bool {
    turn.effects.len() > 0 && turn.effects.last() is Unavailable
}

/// A request of the client that has an id is answered, handed to a child whose answer is awaited, or
/// the cause of a question; the router never passes over it. Only `initialize` goes to all children.
pub proof fn every_request_is_taken_up(router: RouterView, message: JsonView)
    requires
        message.field("method"@) is Some,
        message.field("id"@) is Some,
        !model::is_initialize(message),
    ensures
        ({
            let turn = model::client_turn(router, message);
            replies_to(turn, message) || asks_for(turn, message) || hands_on(turn, message)
                || gives_up(turn)
        }),
{
    let id = message.field("id"@)->0;
    error_reply_reads_back(id, -32001, "Router initialization is still in progress."@, None);
    error_reply_reads_back(id, -32601, "Logout is managed by Kimi Subscription Router."@, None);
    error_reply_reads_back(id, -32602, "Missing sessionId."@, None);
    error_reply_reads_back(id, -32000, "No routable Kimi accounts are configured."@, None);
}

/// The answer to a question goes on with the request that caused it: the request is answered, handed
/// to a child, the cause of another question, or a prompt that waits for its session to move.
pub proof fn every_answer_goes_on(
    router: RouterView,
    purpose: PurposeView,
    answer: Result<Seq<char>, Option<Timestamp>>,
)
    requires
        purpose matches PurposeView::Serve { message, .. } ==> message.field("id"@) is Some,
        purpose matches PurposeView::Failover { message, .. } ==> message.field("id"@) is Some,
    ensures
        ({
            let message = match purpose {
                PurposeView::Serve { message, .. } => message,
                PurposeView::Failover { message, .. } => message,
            };
            let turn = model::selected_turn(router, purpose, answer);
            replies_to(turn, message) || asks_for(turn, message) || hands_on(turn, message)
                || waits_to_move(turn, message) || gives_up(turn)
        }),
{
    let message = match purpose {
        PurposeView::Serve { message, .. } => message,
        PurposeView::Failover { message, .. } => message,
    };
    let id = message.field("id"@)->0;
    if let Err(next_reset) = answer {
        error_reply_reads_back(
            id,
            -32042,
            "All configured Kimi accounts are depleted."@,
            Some(protocol::reset_data(next_reset)),
        );
    } else if let PurposeView::Failover { session_id, owner, message, context } = purpose {
        let first = RouterView { sequence: router.next_sequence(), ..router };
        let close_id = model::made_id("router-close-"@, first.next_sequence());
        let key = json::compact_text(JsonView::Text(close_id));
        let turn = model::selected_turn(router, purpose, answer);
        assert(turn.router.failovers.contains_key(key));
        assert(moving(turn.router.failovers[key], message));
    }
}

/// Whether a failover is for a prompt.
pub open spec fn moving(step: FailoverView, message: JsonView) -> bool {
    match step {
        FailoverView::CloseThenResume { action, .. } => action.original_request == message,
        FailoverView::Resume(action) => action.original_request == message,
    }
}

/// Whether a prompt waits for its session to move.
pub open spec fn waits_to_move(turn: TurnView, message: JsonView) -> bool {
    exists|key: Seq<char>| #[trigger]
        turn.router.failovers.contains_key(key) && moving(turn.router.failovers[key], message)
}

/// A prompt whose session moves is not lost on the way: after each answer that the failover awaited,
/// the prompt still waits for its session to move, or it is handed to the new owner and its answer
/// awaited, or the client is told under its id that it failed.
pub proof fn moving_prompt_is_not_lost(
    router: RouterView,
    step: FailoverView,
    response: JsonView,
    now: Timestamp,
)
    ensures
        ({
            let action = match step {
                FailoverView::CloseThenResume { action, .. } => action,
                FailoverView::Resume(action) => action,
            };
            let turn = model::failover_step_turn(router, step, response, now);
            ||| waits_to_move(turn, action.original_request)
            ||| turn.router.pending.contains_key(action.client_id_key)
                && turn.router.pending[action.client_id_key].original == action.original_request
            ||| turn.effects.last() matches EffectView::Write(reply) && reply.field("id"@) == Some(
                json::or_null(action.original_request.field("id"@)),
            )
        }),
{
    let action = match step {
        FailoverView::CloseThenResume { action, .. } => action,
        FailoverView::Resume(action) => action,
    };
    let turn = model::failover_step_turn(router, step, response, now);
    if let Some(error) = response.field("error"@) {
        failed_failover_changes_nothing(router, step, response, now);
    } else if let FailoverView::CloseThenResume { action, resume_request } = step {
        let key = json::compact_text(json::or_null(resume_request.field("id"@)));
        assert(turn.router.failovers.contains_key(key));
        assert(moving(turn.router.failovers[key], action.original_request));
    }
}

/// The answer to a request that is awaited is handed to the client, or sets off a failover for the
/// request, or the request is refused under its id because its session cannot move.
pub proof fn every_response_comes_to_something(
    router: RouterView,
    pending: PendingView,
    response: JsonView,
    now: Timestamp,
)
    ensures
        ({
            let turn = model::answered_turn(router, pending, response, now);
            ||| turn.question is None && turn.effects.len() > 0 && turn.effects.last()
                == EffectView::Write(response)
            ||| asks_for(turn, pending.original)
            ||| turn.effects.last() matches EffectView::Write(reply) && reply.field("id"@) == Some(
                json::or_null(pending.original.field("id"@)),
            )
        }),
{
    error_reply_reads_back(
        json::or_null(pending.original.field("id"@)),
        -32043,
        "Cannot move this session because its resume context is unavailable. Load the session and retry."@,
        None,
    );
}

// ---------------------------------------------------------------------------
// Every step
// ---------------------------------------------------------------------------

/// Something that the router is told.
pub enum EventView {
    /// A message of the client.
    Client(JsonView),
    /// The answer to the question for an account.
    Selected { purpose: PurposeView, answer: Result<Seq<char>, Option<Timestamp>> },
    /// The answer to the question for capacity.
    Capacity { account_id: Seq<char>, session_id: Seq<char>, message: JsonView, enough: bool },
    /// A message of the child of an account.
    Child { account_id: Seq<char>, message: JsonView, now: Timestamp },
    /// The end of the child of an account.
    Closed(Seq<char>),
    /// A new list of the accounts among which is chosen.
    Accounts(Seq<Seq<char>>),
}

/// Whether the router can take an event.
pub open spec fn possible(router: RouterView, event: EventView) -> bool {
    match event {
        EventView::Client(message) => model::can_take(router, message),
        _ => true,
    }
}

/// What the router does when it is told something.
pub open spec fn step(router: RouterView, event: EventView) -> TurnView {
    match event {
        EventView::Client(message) => model::client_turn(router, message),
        EventView::Selected { purpose, answer } => model::selected_turn(router, purpose, answer),
        EventView::Capacity {
            account_id,
            session_id,
            message,
            enough,
        } => model::capacity_turn(router, account_id, session_id, message, enough),
        EventView::Child {
            account_id,
            message,
            now,
        } => model::child_turn(router, account_id, message, now),
        EventView::Closed(account_id) => model::closed_turn(router, account_id),
        EventView::Accounts(accounts) => model::quiet(model::with_accounts(router, accounts)),
    }
}

/// The primary account has a child.
proof fn primary_has_a_child(accounts: Seq<Seq<char>>, peers: Set<Seq<char>>)
    ensures
        model::primary_of(accounts, peers) matches Some(id) ==> peers.contains(id)
            && accounts.contains(id),
    decreases accounts.len(),
{
    if accounts.len() > 0 {
        if peers.contains(accounts[0]) {
            assert(accounts.contains(accounts[0]));
        } else {
            primary_has_a_child(accounts.drop_first(), peers);
            let found = model::primary_of(accounts.drop_first(), peers);
            if found is Some {
                let i = accounts.drop_first().index_of(found->0);
                assert(accounts[i + 1] == found->0);
            }
        }
    }
}

/// Messages are sent to running children only.
pub proof fn messages_go_to_running_children(router: RouterView, event: EventView, i: int)
    requires
        router.peers.finite(),
        possible(router, event),
        0 <= i < step(router, event).effects.len(),
    ensures
        step(router, event).effects[i] matches EffectView::Send { account_id, .. }
            ==> router.peers.contains(account_id),
{
    match event {
        EventView::Client(message) => {
            if model::is_initialize(message) && !router.peers.is_empty() {
                table::in_order_holds(router.peers);
                let ordered = table::in_order(router.peers);
                assert(ordered.to_set().contains(ordered[i]));
            }
        },
        _ => {},
    }
}

/// Whenever the owner of any session changes, that is kept before anything else is done.
pub proof fn ownership_is_kept_first(router: RouterView, event: EventView)
    ensures
        step(router, event).router.state != router.state ==> {
            &&& event is Child
            &&& step(router, event).effects.len() > 1
            &&& step(router, event).effects[0] == EffectView::Save(
                state::document_text(step(router, event).router.state),
            )
        },
{
}

/// Only the end of a child takes it from the running ones.
pub proof fn children_run_until_they_end(router: RouterView, event: EventView)
    ensures
        step(router, event).router.peers == (match event {
            EventView::Closed(account_id) => router.peers.remove(account_id),
            _ => router.peers,
        }),
{
}

// ---------------------------------------------------------------------------
// Initializing
// ---------------------------------------------------------------------------

/// An `initialize` under way waits for running children, of which there are some, and either for
/// the primary or with an answer in place of the primary's.
pub open spec fn init_is_sound(router: RouterView) -> bool {
    router.init matches Some(init) ==> {
        &&& !init.waiting.is_empty()
        &&& init.waiting.subset_of(router.peers)
        &&& init.waiting.contains(init.primary) || init.primary_response is Some
    }
}

/// An `initialize` that waits, waits for a running child, in every state that the router gets to.
pub proof fn init_stays_sound(router: RouterView, event: EventView)
    requires
        init_is_sound(router),
        possible(router, event),
    ensures
        init_is_sound(step(router, event).router),
{
    primary_has_a_child(router.accounts, router.peers);
    match event {
        EventView::Closed(account_id) => {
            if let Some(init) = router.init {
                let left = model::init_without(init, account_id);
                if left.waiting.is_empty() {
                    assert(!left.waiting.contains(init.primary));
                    assert(left.primary_response is Some) by {
                        if init.waiting.contains(init.primary) && account_id != init.primary {
                            assert(left.waiting.contains(init.primary));
                        }
                    }
                }
            }
        },
        EventView::Child { account_id, message, now } => {
            if model::answers_initialize(router, account_id, message) {
                let init = router.init->0;
                let waiting = init.waiting.remove(account_id);
                if account_id != init.primary && init.waiting.contains(init.primary) {
                    assert(waiting.contains(init.primary));
                }
            }
        },
        _ => {},
    }
}

/// The answer of a child to `initialize` is not handed on but for one: when no child is waited for
/// any more, the client gets what the primary said, or that the primary is gone, and nothing else;
/// `initialize` is then over.
pub proof fn initialize_is_answered_once(
    router: RouterView,
    account_id: Seq<char>,
    message: JsonView,
    now: Timestamp,
)
    requires
        init_is_sound(router),
        model::answers_initialize(router, account_id, message),
    ensures
        ({
            let init = router.init->0;
            let turn = model::child_turn(router, account_id, message, now);
            let last = init.waiting.remove(account_id).is_empty();
            &&& !last ==> turn.effects == Seq::<EffectView>::empty() && turn.router.init is Some
            &&& last ==> turn.router.init is None && turn.effects == seq![
                EffectView::Write(
                    if account_id == init.primary {
                        protocol::normalized(message)
                    } else {
                        init.primary_response->0
                    },
                ),
            ]
            &&& turn.question is None
        }),
{
    let init = router.init->0;
    if init.waiting.remove(account_id).is_empty() && account_id != init.primary {
        if init.waiting.contains(init.primary) {
            assert(init.waiting.remove(account_id).contains(init.primary));
        }
    }
}

/// While `initialize` is under way, every other request is refused and nothing changes.
pub proof fn requests_wait_for_initialize(router: RouterView, message: JsonView)
    requires
        router.init is Some,
        message.field("method"@) is Some,
        !model::is_initialize(message),
    ensures
        model::client_turn(router, message) == model::written(
            router,
            protocol::error_reply(
                json::or_null(message.field("id"@)),
                -32001,
                "Router initialization is still in progress."@,
                None,
            ),
        ),
{
}

// ---------------------------------------------------------------------------
// Requests of children
// ---------------------------------------------------------------------------

/// The client's answer to a request of a child comes to that child under the id that the child had
/// given, and is otherwise as the client gave it. A second answer comes to no one.
pub proof fn answers_find_their_child(
    router: RouterView,
    account_id: Seq<char>,
    request: JsonView,
    answer: JsonView,
    now: Timestamp,
)
    requires
        !model::answers_initialize(router, account_id, request),
        request.field("method"@) is Some,
        request.field("id"@) is Some,
        router.peers.contains(account_id),
        ({
            let asked = model::child_turn(router, account_id, request, now);
            &&& asked.effects[0] matches EffectView::Write(message)
            &&& answers(answer, json::or_null(message.field("id"@)))
        }),
    ensures
        ({
            let asked = model::child_turn(router, account_id, request, now);
            let told = model::client_turn(asked.router, answer);
            &&& asked.effects.len() == 1
            &&& asked.effects[0] == EffectView::Write(
                request.with_field("id"@, answer.field("id"@)->0),
            )
            &&& told.effects == seq![
                EffectView::Send {
                    account_id,
                    message: answer.with_field("id"@, request.field("id"@)->0),
                },
            ]
            &&& model::client_turn(told.router, answer) == model::quiet(told.router)
        }),
{
}

/// Whether a key reads as an id that the router made.
pub open spec fn labelled(key: Seq<char>, prefix: Seq<char>, number: u64) -> bool {
    json::reads_as(key, JsonView::Text(model::made_id(prefix, number)))
}

/// Every id of the router's own that is awaited was made of a number up to the last one.
pub open spec fn numbered(router: RouterView) -> bool {
    &&& forall|key: Seq<char>| #[trigger]
        router.reverse_requests.contains_key(key) ==> exists|n: u64|
            n <= router.sequence && #[trigger] labelled(key, "router-reverse-"@, n)
    &&& forall|key: Seq<char>| #[trigger]
        router.failovers.contains_key(key) ==> failover_is_numbered(
            key,
            router.failovers[key],
            router.sequence,
        )
}

/// The key of a failover was made of a number up to the last one, and so was the id of the request
/// that is to follow.
pub open spec fn failover_is_numbered(key: Seq<char>, step: FailoverView, last: u64) -> bool {
    &&& match step {
        FailoverView::CloseThenResume { .. } => exists|n: u64|
            n <= last && #[trigger] labelled(key, "router-close-"@, n),
        FailoverView::Resume(_) => exists|n: u64|
            n <= last && #[trigger] labelled(key, "router-resume-"@, n),
    }
    &&& follow_up_is_numbered(step, last)
}

/// The id of the request that is to follow a step was made of a number up to the last one.
pub open spec fn follow_up_is_numbered(step: FailoverView, last: u64) -> bool {
    match step {
        FailoverView::CloseThenResume { resume_request, .. } => exists|n: u64|
            n <= last && resume_request.field("id"@) == Some(
                JsonView::Text(#[trigger] model::made_id("router-resume-"@, n)),
            ),
        FailoverView::Resume(_) => true,
    }
}

/// What was numbered stays so where entries leave or numbers go on.
pub(crate) proof fn numbering_survives(before: RouterView, after: RouterView)
    requires
        numbered(before),
        after.reverse_requests.submap_of(before.reverse_requests),
        after.failovers.submap_of(before.failovers),
        before.sequence <= after.sequence,
    ensures
        numbered(after),
{
    assert forall|key: Seq<char>| #[trigger]
        after.reverse_requests.contains_key(key) implies exists|n: u64|
        n <= after.sequence && #[trigger] labelled(key, "router-reverse-"@, n) by {
        assert(before.reverse_requests.contains_key(key));
        let n = choose|n: u64|
            n <= before.sequence && #[trigger] labelled(key, "router-reverse-"@, n);
        assert(n <= after.sequence && labelled(key, "router-reverse-"@, n));
    }
    assert forall|key: Seq<char>| #[trigger]
        after.failovers.contains_key(key) implies failover_is_numbered(
        key,
        after.failovers[key],
        after.sequence,
    ) by {
        assert(before.failovers.contains_key(key));
        failover_stays_numbered(key, before.failovers[key], before.sequence, after.sequence);
    }
}

proof fn failover_stays_numbered(key: Seq<char>, step: FailoverView, last: u64, later: u64)
    requires
        failover_is_numbered(key, step, last),
        last <= later,
    ensures
        failover_is_numbered(key, step, later),
{
    match step {
        FailoverView::CloseThenResume { resume_request, .. } => {
            let n = choose|n: u64| n <= last && #[trigger] labelled(key, "router-close-"@, n);
            assert(n <= later && labelled(key, "router-close-"@, n));
            let m = choose|m: u64|
                m <= last && resume_request.field("id"@) == Some(
                    JsonView::Text(#[trigger] model::made_id("router-resume-"@, m)),
                );
            assert(m <= later && resume_request.field("id"@) == Some(
                JsonView::Text(model::made_id("router-resume-"@, m)),
            ));
        },
        FailoverView::Resume(_) => {
            let n = choose|n: u64| n <= last && #[trigger] labelled(key, "router-resume-"@, n);
            assert(n <= later && labelled(key, "router-resume-"@, n));
        },
    }
}

/// A request of a child that waits under the last number made is numbered like the others.
pub(crate) proof fn reverse_request_is_numbered(before: RouterView, after: RouterView, key: Seq<char>)
    requires
        numbered(before),
        before.sequence < after.sequence,
        labelled(key, "router-reverse-"@, after.sequence),
        after.failovers == before.failovers,
        after.reverse_requests.remove(key).submap_of(before.reverse_requests),
    ensures
        numbered(after),
{
    let rest = RouterView { reverse_requests: after.reverse_requests.remove(key), ..after };
    numbering_survives(before, rest);
    assert forall|k: Seq<char>| #[trigger]
        after.reverse_requests.contains_key(k) implies exists|n: u64|
        n <= after.sequence && #[trigger] labelled(k, "router-reverse-"@, n) by {
        if k == key {
            assert(after.sequence <= after.sequence && labelled(
                key,
                "router-reverse-"@,
                after.sequence,
            ));
        } else {
            assert(rest.reverse_requests.contains_key(k));
        }
    }
    assert forall|k: Seq<char>| #[trigger]
        after.failovers.contains_key(k) implies failover_is_numbered(
        k,
        after.failovers[k],
        after.sequence,
    ) by {
        assert(rest.failovers.contains_key(k));
    }
}

/// A failover that waits under a number that was made is numbered like the others.
pub(crate) proof fn failover_keeps_numbering(
    before: RouterView,
    after: RouterView,
    key: Seq<char>,
    step: FailoverView,
)
    requires
        numbered(before),
        before.sequence <= after.sequence,
        failover_is_numbered(key, step, after.sequence),
        after.reverse_requests == before.reverse_requests,
        after.failovers == before.failovers.insert(key, step),
    ensures
        numbered(after),
{
    let rest = RouterView { failovers: before.failovers.remove(key), ..after };
    numbering_survives(before, rest);
    assert forall|k: Seq<char>| #[trigger]
        after.failovers.contains_key(k) implies failover_is_numbered(
        k,
        after.failovers[k],
        after.sequence,
    ) by {
        if k != key {
            assert(rest.failovers.contains_key(k));
        }
    }
    assert forall|k: Seq<char>| #[trigger]
        after.reverse_requests.contains_key(k) implies exists|n: u64|
        n <= after.sequence && #[trigger] labelled(k, "router-reverse-"@, n) by {
        assert(rest.reverse_requests.contains_key(k));
    }
}

/// A message of the client, an answer about capacity, the end of a child or a new list of accounts
/// lets the router make no id, and what it awaits stays numbered.
pub proof fn events_keep_the_numbering(router: RouterView, event: EventView)
    requires
        numbered(router),
        event is Client || event is Capacity || event is Closed || event is Accounts,
    ensures
        numbered(step(router, event).router),
{
    numbering_survives(router, step(router, event).router);
}

/// A router that has just started awaits nothing.
pub proof fn started_router_is_sound(accounts: Seq<Seq<char>>, state: state::StateView)
    ensures
        numbered(model::started(accounts, state)),
        init_is_sound(model::started(accounts, state)),
{
}

/// Ids that the router makes of different numbers, or for different purposes, differ.
pub proof fn made_ids_differ(prefix: Seq<char>, number: u64, other: u64)
    requires
        number != other,
    ensures
        model::made_id(prefix, number) != model::made_id(prefix, other),
        model::made_id("router-close-"@, number) != model::made_id("router-resume-"@, other),
        model::made_id("router-close-"@, number) != model::made_id("router-resume-"@, number),
{
    let a = model::made_id(prefix, number);
    let b = model::made_id(prefix, other);
    if a == b {
        assert(a.skip(prefix.len() as int) =~= text::decimal(number as nat));
        assert(b.skip(prefix.len() as int) =~= text::decimal(other as nat));
        text::decimal_reads_back(number as nat);
        text::decimal_reads_back(other as nat);
    }
    reveal_strlit("router-close-");
    reveal_strlit("router-resume-");
    let close = model::made_id("router-close-"@, number);
    assert(close[7] == 'c');
    assert(model::made_id("router-resume-"@, other)[7] == 'r');
    assert(model::made_id("router-resume-"@, number)[7] == 'r');
}

/// The id that the router makes next is awaited by no one yet, as long as the numbers last.
pub proof fn next_id_is_free(router: RouterView, key: Seq<char>)
    requires
        numbered(router),
        router.sequence < u64::MAX,
    ensures
        labelled(key, "router-reverse-"@, router.next_sequence())
            ==> !router.reverse_requests.contains_key(key),
        labelled(key, "router-close-"@, router.next_sequence()) ==> !router.failovers.contains_key(
            key,
        ),
        labelled(key, "router-resume-"@, router.next_sequence())
            ==> !router.failovers.contains_key(key),
{
    let next = router.next_sequence();
    if router.reverse_requests.contains_key(key) {
        let n = choose|n: u64|
            n <= router.sequence && #[trigger] labelled(key, "router-reverse-"@, n);
        made_ids_differ("router-reverse-"@, n, next);
    }
    if router.failovers.contains_key(key) {
        assert(failover_is_numbered(key, router.failovers[key], router.sequence));
        match router.failovers[key] {
            FailoverView::CloseThenResume { .. } => {
                let n = choose|n: u64|
                    n <= router.sequence && #[trigger] labelled(key, "router-close-"@, n);
                made_ids_differ("router-close-"@, n, next);
            },
            FailoverView::Resume(_) => {
                let n = choose|n: u64|
                    n <= router.sequence && #[trigger] labelled(key, "router-resume-"@, n);
                made_ids_differ("router-resume-"@, n, next);
                made_ids_differ("router-resume-"@, next, n);
            },
        }
    }
}

// ---------------------------------------------------------------------------
// The end of a child
// ---------------------------------------------------------------------------

/// When a child ends, each request that it owed an answer to is answered with an error under its
/// own id, once, and no longer awaited; every other request is awaited as before.
pub proof fn ended_child_owes_nothing(router: RouterView, account_id: Seq<char>, key: Seq<char>)
    requires
        router.pending.dom().finite(),
        router.pending.contains_key(key),
    ensures
        ({
            let owed = model::owed_by(router.pending, account_id);
            let turn = model::closed_turn(router, account_id);
            let reply = EffectView::Write(model::orphan_reply(router.pending[key]));
            &&& router.pending[key].account_id == account_id ==> {
                &&& !turn.router.pending.contains_key(key)
                &&& turn.effects.contains(reply)
            }
            &&& router.pending[key].account_id != account_id ==> {
                &&& turn.router.pending.contains_key(key)
                &&& turn.router.pending[key] == router.pending[key]
            }
            &&& owed.len() <= turn.effects.len() <= owed.len() + 1
            &&& router.init is None ==> turn.effects.len() == owed.len()
        }),
{
    let owed = model::owed_by(router.pending, account_id);
    table::in_order_holds(owed);
    let ordered = table::in_order(owed);
    let turn = model::closed_turn(router, account_id);
    ordered.unique_seq_to_set();
    if router.pending[key].account_id == account_id {
        assert(owed.contains(key));
        assert(ordered.contains(key));
        let i = ordered.index_of(key);
        assert(turn.effects[i] == EffectView::Write(model::orphan_reply(router.pending[key])));
    }
}

}
