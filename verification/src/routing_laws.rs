//! What holds of each step of the router: where a message goes, what is remembered of it, and what
//! stays as it was.

use vstd::prelude::*;

use crate::clock;
use crate::clock::Timestamp;
use crate::json;
use crate::json::{Json, JsonView};
use crate::laws;
use crate::laws::EventView;
use crate::message_laws;
use crate::model;
use crate::model::{
    EffectView, FailoverView, InitView, PendingView, PurposeView, QuestionView, ResumeView,
    RouterView, TurnView,
};
use crate::protocol;
use crate::protocol::SessionContext;
use crate::router;
use crate::router::{
    Effect, FailoverAction, InitState, PendingRequest, Purpose, Question, ResumeAction, Turn,
};
use crate::state;
use crate::state::{OwnerView, StateView};
use crate::table;
use crate::text;
use crate::text_laws;

verus! {

// ---------------------------------------------------------------------------
// The words for methods
// ---------------------------------------------------------------------------

/// No two methods that the router treats on their own have the same name, and those of sessions
/// share a beginning.
proof fn methods_differ()
    ensures
        "initialize"@.len() == 10,
        "initialize"@[0] == 'i',
        "logout"@.len() == 6,
        "logout"@[0] == 'l',
        "authenticate"@.len() == 12,
        "authenticate"@[0] == 'a',
        "session/"@.len() == 8,
        "session/"@[0] == 's',
        "session/new"@.len() == 11,
        "session/list"@.len() == 12,
        "session/load"@.len() == 12,
        "session/fork"@.len() == 12,
        "session/resume"@.len() == 14,
        "session/delete"@.len() == 14,
        "session/prompt"@.len() == 14,
        "session/list"@[9] == 'i',
        "session/load"@[9] == 'o',
        "session/load"@[8] == 'l',
        "session/fork"@[8] == 'f',
        "session/list"@[8] == 'l',
        "session/resume"@[8] == 'r',
        "session/delete"@[8] == 'd',
        "session/prompt"@[8] == 'p',
        "session/new"@[0] == 's',
        "session/list"@[0] == 's',
        "session/load"@[0] == 's',
        "session/fork"@[0] == 's',
        "session/resume"@[0] == 's',
        "session/delete"@[0] == 's',
        "session/prompt"@[0] == 's',
        "session/load"@.take(8) == "session/"@,
        "session/resume"@.take(8) == "session/"@,
        "session/prompt"@.take(8) == "session/"@,
{
    reveal_strlit("initialize");
    reveal_strlit("logout");
    reveal_strlit("authenticate");
    reveal_strlit("session/");
    reveal_strlit("session/new");
    reveal_strlit("session/list");
    reveal_strlit("session/load");
    reveal_strlit("session/fork");
    reveal_strlit("session/resume");
    reveal_strlit("session/delete");
    reveal_strlit("session/prompt");
    assert("session/load"@.take(8) =~= "session/"@);
    assert("session/resume"@.take(8) =~= "session/"@);
    assert("session/prompt"@.take(8) =~= "session/"@);
}

// ---------------------------------------------------------------------------
// What a step may come to
// ---------------------------------------------------------------------------

/// Whether a step did one thing, asked nothing and left the router as it was.
pub open spec fn only_did(router: RouterView, turn: TurnView, effect: EffectView) -> bool {
    &&& turn.router == router
    &&& turn.effects.len() == 1
    &&& turn.effects[0] == effect
    &&& turn.question is None
}

/// Whether a step answered the client with an error and did nothing else.
pub open spec fn only_refused(
    router: RouterView,
    turn: TurnView,
    message: JsonView,
    code: int,
    words: Seq<char>,
    data: Option<JsonView>,
) -> bool {
    &&& turn.router == router
    &&& turn.effects.len() == 1
    &&& turn.effects[0] matches EffectView::Write(reply) && answers_with(
        reply,
        message,
        code,
        words,
        data,
    )
    &&& turn.question is None
}

/// Whether a reply answers a message with an error, under the id of the message or, where it has
/// none, under `null`.
pub open spec fn answers_with(
    reply: JsonView,
    message: JsonView,
    code: int,
    words: Seq<char>,
    data: Option<JsonView>,
) -> bool {
    match message.field("id"@) {
        Some(id) => message_laws::reports(reply, id, code, words, data),
        None => message_laws::reports(reply, JsonView::Null, code, words, data),
    }
}

/// Whether a message was sent to an account that has a child, or else given up.
pub open spec fn delivered(
    router: RouterView,
    effect: EffectView,
    account_id: Seq<char>,
    message: JsonView,
) -> bool {
    if router.peers.contains(account_id) {
        effect == EffectView::Send { account_id, message }
    } else {
        effect == EffectView::Unavailable(account_id)
    }
}

/// Whether the contexts are those before with that of one session set from a request.
pub open spec fn remembered(
    before: Map<Seq<char>, Map<Seq<char>, JsonView>>,
    after: Map<Seq<char>, Map<Seq<char>, JsonView>>,
    session_id: Seq<char>,
    request: JsonView,
) -> bool {
    &&& after.contains_key(session_id)
    &&& message_laws::resumes(after[session_id], request, session_id)
    &&& others_kept(before, after, session_id)
}

/// Whether all contexts but that of one session are those before.
pub open spec fn others_kept(
    before: Map<Seq<char>, Map<Seq<char>, JsonView>>,
    after: Map<Seq<char>, Map<Seq<char>, JsonView>>,
    session_id: Seq<char>,
) -> bool {
    forall|other: Seq<char>|
        other != session_id ==> (#[trigger] after.contains_key(other) == before.contains_key(other))
            && (before.contains_key(other) ==> after[other] == before[other])
}

/// Whether a request was handed to an account as it is, its answer is awaited where it has an id,
/// and nothing else changed but the contexts.
pub open spec fn handed_on(
    router: RouterView,
    turn: TurnView,
    account_id: Seq<char>,
    method: Seq<char>,
    session_id: Option<Seq<char>>,
    message: JsonView,
) -> bool {
    &&& turn.question is None
    &&& turn.effects.len() == 1
    &&& delivered(router, turn.effects[0], account_id, message)
    &&& turn.router =~= (RouterView {
        contexts: turn.router.contexts,
        pending: turn.router.pending,
        ..router
    })
    &&& match message.field("id"@) {
        Some(id) => turn.router.pending =~= router.pending.insert(
            json::compact_text(id),
            PendingView { account_id, method, original: message, session_id },
        ),
        None => turn.router.pending == router.pending,
    }
}

/// Whether a step asked for an account, and nothing else. Those without a child are excluded, and
/// those named, and no others.
pub open spec fn asks_for_an_account(
    router: RouterView,
    turn: TurnView,
    named: Set<Seq<char>>,
    purpose: PurposeView,
) -> bool {
    &&& turn.router == router
    &&& turn.effects.len() == 0
    &&& turn.question matches Some(QuestionView::Select { excluded, purpose: asked }) && {
        &&& asked == purpose
        &&& forall|account_id: Seq<char>|
            #[trigger] excluded.contains(account_id) <==> named.contains(account_id) || (
            router.accounts.contains(account_id) && !router.peers.contains(account_id))
    }
}

/// Whether an account is the first of the listed ones that has a child.
pub open spec fn is_first(router: RouterView, account_id: Seq<char>) -> bool {
    exists|i: int|
        {
            &&& 0 <= i < router.accounts.len()
            &&& #[trigger] router.accounts[i] == account_id
            &&& router.peers.contains(account_id)
            &&& forall|j: int|
                0 <= j < i ==> !router.peers.contains(#[trigger] router.accounts[j])
        }
}

/// Every listed account either has a child or has none, and is counted once, with its like.
pub proof fn childless_accounts_are_excluded(
    accounts: Seq<Seq<char>>,
    peers: Set<Seq<char>>,
    account_id: Seq<char>,
)
    ensures
        model::childless(accounts, peers).contains(account_id) <==> accounts.contains(account_id)
            && !peers.contains(account_id),
        model::with_child(accounts, peers).contains(account_id) <==> accounts.contains(account_id)
            && peers.contains(account_id),
        model::childless(accounts, peers).len() + model::with_child(accounts, peers).len()
            == accounts.len(),
    decreases accounts.len(),
{
    if accounts.len() > 0 {
        let front = accounts.drop_last();
        let last = accounts.last();
        childless_accounts_are_excluded(front, peers, account_id);
        assert(accounts =~= front.push(last));
        if accounts.contains(account_id) {
            let i = choose|i: int| 0 <= i < accounts.len() && accounts[i] == account_id;
            if i < front.len() {
                assert(front[i] == account_id);
            }
        }
        if front.contains(account_id) {
            let i = choose|i: int| 0 <= i < front.len() && front[i] == account_id;
            assert(accounts[i] == account_id);
        }
        assert(accounts[accounts.len() - 1] == last);
        let out = model::childless(front, peers);
        let has = model::with_child(front, peers);
        assert(out.push(last).contains(account_id) <==> out.contains(account_id) || account_id
            == last) by {
            if out.contains(account_id) {
                let i = choose|i: int| 0 <= i < out.len() && out[i] == account_id;
                assert(out.push(last)[i] == account_id);
            }
            assert(out.push(last)[out.len() as int] == last);
        }
        assert(has.push(last).contains(account_id) <==> has.contains(account_id) || account_id
            == last) by {
            if has.contains(account_id) {
                let i = choose|i: int| 0 <= i < has.len() && has[i] == account_id;
                assert(has.push(last)[i] == account_id);
            }
            assert(has.push(last)[has.len() as int] == last);
        }
    }
}

/// The accounts that have a child stay in the order in which they were listed: to list one more
/// puts it last, if it has a child, and changes nothing else.
pub proof fn listed_order_stays(
    accounts: Seq<Seq<char>>,
    account_id: Seq<char>,
    peers: Set<Seq<char>>,
)
    ensures
        model::with_child(accounts.push(account_id), peers) == (if peers.contains(account_id) {
            model::with_child(accounts, peers).push(account_id)
        } else {
            model::with_child(accounts, peers)
        }),
        model::childless(accounts.push(account_id), peers) == (if peers.contains(account_id) {
            model::childless(accounts, peers)
        } else {
            model::childless(accounts, peers).push(account_id)
        }),
{
    assert(accounts.push(account_id).drop_last() =~= accounts);
    assert(accounts.push(account_id).last() == account_id);
}

proof fn primary_is_first_from(accounts: Seq<Seq<char>>, peers: Set<Seq<char>>)
    ensures
        model::primary_of(accounts, peers) matches Some(account_id) ==> exists|i: int|
            {
                &&& 0 <= i < accounts.len()
                &&& #[trigger] accounts[i] == account_id
                &&& peers.contains(account_id)
                &&& forall|j: int| 0 <= j < i ==> !peers.contains(#[trigger] accounts[j])
            },
        model::primary_of(accounts, peers) is None ==> forall|j: int|
            0 <= j < accounts.len() ==> !peers.contains(#[trigger] accounts[j]),
    decreases accounts.len(),
{
    if accounts.len() > 0 && !peers.contains(accounts[0]) {
        let rest = accounts.drop_first();
        primary_is_first_from(rest, peers);
        match model::primary_of(accounts, peers) {
            Some(account_id) => {
                let i = choose|i: int|
                    {
                        &&& 0 <= i < rest.len()
                        &&& #[trigger] rest[i] == account_id
                        &&& peers.contains(account_id)
                        &&& forall|j: int| 0 <= j < i ==> !peers.contains(#[trigger] rest[j])
                    };
                assert(accounts[i + 1] == account_id);
                assert forall|j: int| 0 <= j < i + 1 implies !peers.contains(
                    #[trigger] accounts[j],
                ) by {
                    if j > 0 {
                        assert(accounts[j] == rest[j - 1]);
                    }
                }
            },
            None => {
                assert forall|j: int| 0 <= j < accounts.len() implies !peers.contains(
                    #[trigger] accounts[j],
                ) by {
                    if j > 0 {
                        assert(accounts[j] == rest[j - 1]);
                    }
                }
            },
        }
    } else if accounts.len() > 0 {
        assert(accounts[0] == accounts[0]);
    }
}

/// The account that serves what belongs to no session is the first of the listed ones that has a
/// child, and there is one as soon as any of them has.
pub proof fn primary_is_the_first_with_a_child(router: RouterView)
    ensures
        router.primary() matches Some(account_id) ==> is_first(router, account_id),
        router.primary() is None <==> forall|account_id: Seq<char>|
            router.accounts.contains(account_id) ==> !router.peers.contains(account_id),
        forall|account_id: Seq<char>| #[trigger]
            is_first(router, account_id) ==> router.primary() == Some(account_id),
{
    let accounts = router.accounts;
    primary_is_first_from(accounts, router.peers);
    assert forall|account_id: Seq<char>| #[trigger] is_first(router, account_id) implies
        router.primary() == Some(account_id) by {
        let i = choose|i: int|
            {
                &&& 0 <= i < router.accounts.len()
                &&& #[trigger] router.accounts[i] == account_id
                &&& router.peers.contains(account_id)
                &&& forall|j: int|
                    0 <= j < i ==> !router.peers.contains(#[trigger] router.accounts[j])
            };
        assert(accounts[i] == account_id);
        let k = choose|k: int|
            {
                &&& 0 <= k < router.accounts.len()
                &&& #[trigger] router.accounts[k] == router.primary()->0
                &&& router.peers.contains(router.primary()->0)
                &&& forall|j: int|
                    0 <= j < k ==> !router.peers.contains(#[trigger] router.accounts[j])
            };
        assert(router.primary() is Some);
        assert(i == k);
    }
    if router.primary() is None {
        assert forall|account_id: Seq<char>| router.accounts.contains(account_id) implies
            !router.peers.contains(account_id) by {
            let i = choose|i: int| 0 <= i < accounts.len() && accounts[i] == account_id;
            assert(accounts[i] == account_id);
        }
    } else {
        assert(is_first(router, router.primary()->0));
        assert(router.accounts.contains(router.primary()->0));
    }
}

proof fn asking_excludes(router: RouterView, named: Seq<Seq<char>>, purpose: PurposeView)
    ensures
        asks_for_an_account(
            router,
            model::ask_account(router, named, purpose),
            named.to_set(),
            purpose,
        ),
{
    let excluded = router.excluded(named);
    let out = model::childless(router.accounts, router.peers);
    assert forall|account_id: Seq<char>| #[trigger] excluded.contains(account_id) <==> (
    named.to_set().contains(account_id) || (router.accounts.contains(account_id)
        && !router.peers.contains(account_id))) by {
        childless_accounts_are_excluded(router.accounts, router.peers, account_id);
        if named.contains(account_id) {
            let i = choose|i: int| 0 <= i < named.len() && named[i] == account_id;
            assert(excluded[i] == account_id);
        }
        if out.contains(account_id) {
            let i = choose|i: int| 0 <= i < out.len() && out[i] == account_id;
            assert(excluded[named.len() + i] == account_id);
        }
        if excluded.contains(account_id) {
            let i = choose|i: int| 0 <= i < excluded.len() && excluded[i] == account_id;
            if i < named.len() {
                assert(named[i] == account_id);
            } else {
                assert(out[i - named.len()] == account_id);
            }
        }
    }
}

// ---------------------------------------------------------------------------
// Requests of the client
// ---------------------------------------------------------------------------

/// Whether a message is a request for a method; a method that is no text counts as an empty one.
pub open spec fn requests(message: JsonView, method: Seq<char>) -> bool {
    match message.field("method"@) {
        Some(JsonView::Text(named)) => named == method,
        Some(_) => method.len() == 0,
        None => false,
    }
}

/// Whether a request names a session.
pub open spec fn names_session(message: JsonView, session_id: Seq<char>) -> bool {
    message_laws::holds_at(message, "params"@, "sessionId"@, JsonView::Text(session_id))
}

/// Whether an account owns a session.
pub open spec fn owns(state: StateView, account_id: Seq<char>, session_id: Seq<char>) -> bool {
    state.sessions.contains_key(session_id) && state.sessions[session_id].account_id == account_id
}

/// A request that an account serves is handed to it as it is. To load or to resume a session also
/// sets what the session is resumed with, from the request; no other request does.
pub proof fn served_requests_are_handed_on(
    router: RouterView,
    account_id: Seq<char>,
    method: Seq<char>,
    session_id: Option<Seq<char>>,
    message: JsonView,
)
    requires
        method != "session/prompt"@ || session_id is None,
    ensures
        ({
            let turn = model::serve_turn(router, account_id, method, session_id, message);
            &&& handed_on(router, turn, account_id, method, session_id, message)
            &&& (method == "session/load"@ && session_id is Some) ==> remembered(
                router.contexts,
                turn.router.contexts,
                session_id->0,
                message,
            )
            &&& (method == "session/resume"@ && session_id is Some) ==> remembered(
                router.contexts,
                turn.router.contexts,
                session_id->0,
                message,
            )
            &&& ((method != "session/load"@ && method != "session/resume"@) || session_id is None)
                ==> turn.router.contexts == router.contexts
        }),
{
    methods_differ();
    if session_id is Some {
        message_laws::contexts_keep_the_request(message, session_id->0);
    }
}

/// A prompt for a session waits until it is known whether the account has capacity.
pub proof fn prompts_wait_for_capacity(
    router: RouterView,
    account_id: Seq<char>,
    session_id: Seq<char>,
    message: JsonView,
)
    ensures
        ({
            let turn = model::serve_turn(
                router,
                account_id,
                "session/prompt"@,
                Some(session_id),
                message,
            );
            &&& turn.router == router
            &&& turn.effects.len() == 0
            &&& turn.question == Some(QuestionView::Capacity { account_id, session_id, message })
        }),
{
}

/// A request to hand on goes to the child of the account, and its answer is awaited.
pub proof fn forwarded_requests_are_handed_on(
    router: RouterView,
    account_id: Seq<char>,
    method: Seq<char>,
    session_id: Option<Seq<char>>,
    message: JsonView,
)
    ensures
        ({
            let turn = model::forward_turn(router, account_id, method, session_id, message);
            &&& handed_on(router, turn, account_id, method, session_id, message)
            &&& turn.router.contexts == router.contexts
        }),
{
}

/// With an account that has capacity a prompt is handed on.
pub proof fn capable_owner_gets_the_prompt(
    router: RouterView,
    account_id: Seq<char>,
    session_id: Seq<char>,
    message: JsonView,
)
    ensures
        ({
            let turn = model::capacity_turn(router, account_id, session_id, message, true);
            &&& handed_on(
                router,
                turn,
                account_id,
                "session/prompt"@,
                Some(session_id),
                message,
            )
            &&& turn.router.contexts == router.contexts
        }),
{
}

/// Whether a step noted that an account is spent and asked for another one to take over a session
/// with a context; nothing else was done, and the router knows what it knew.
pub open spec fn moves_on(
    router: RouterView,
    turn: TurnView,
    session_id: Seq<char>,
    owner: Seq<char>,
    message: JsonView,
    context: Map<Seq<char>, JsonView>,
) -> bool {
    &&& turn.effects.len() == 1
    &&& turn.effects[0] == EffectView::MarkExhausted(owner)
    &&& asks_for_an_account(
        router,
        TurnView { effects: Seq::empty(), ..turn },
        set![owner],
        PurposeView::Failover { session_id, owner, message, context },
    )
}

/// Whether a step noted that an account is spent and told the client that its session cannot move.
pub open spec fn cannot_move(
    router: RouterView,
    turn: TurnView,
    owner: Seq<char>,
    message: JsonView,
) -> bool {
    &&& turn.router == router
    &&& turn.question is None
    &&& turn.effects.len() == 2
    &&& turn.effects[0] == EffectView::MarkExhausted(owner)
    &&& turn.effects[1] matches EffectView::Write(reply) && answers_with(
        reply,
        message,
        -32043,
        "Cannot move this session because its resume context is unavailable. Load the session and retry."@,
        None,
    )
}

proof fn failover_asks(
    router: RouterView,
    session_id: Seq<char>,
    owner: Seq<char>,
    message: JsonView,
)
    ensures
        ({
            let turn = model::after(
                EffectView::MarkExhausted(owner),
                model::failover_turn(router, session_id, owner, message),
            );
            &&& router.contexts.contains_key(session_id) ==> moves_on(
                router,
                turn,
                session_id,
                owner,
                message,
                router.contexts[session_id],
            )
            &&& !router.contexts.contains_key(session_id) ==> cannot_move(
                router,
                turn,
                owner,
                message,
            )
        }),
{
    let turn = model::after(
        EffectView::MarkExhausted(owner),
        model::failover_turn(router, session_id, owner, message),
    );
    if router.contexts.contains_key(session_id) {
        let purpose = PurposeView::Failover {
            session_id,
            owner,
            message,
            context: router.contexts[session_id],
        };
        asking_excludes(router, seq![owner], purpose);
        assert(seq![owner].to_set() =~= set![owner]) by {
            assert(seq![owner][0] == owner);
        }
        assert(turn.question == model::ask_account(router, seq![owner], purpose).question);
    } else {
        message_laws::errors_are_reported_in_full(
            json::or_null(message.field("id"@)),
            -32043,
            "Cannot move this session because its resume context is unavailable. Load the session and retry."@,
            None,
        );
    }
}

/// With an account that has no capacity a prompt moves on to another account, with the context of
/// its session; without one the client is told that the session cannot move. Either way the account
/// is noted as spent.
pub proof fn spent_owner_loses_the_prompt(
    router: RouterView,
    owner: Seq<char>,
    session_id: Seq<char>,
    message: JsonView,
)
    ensures
        router.contexts.contains_key(session_id) ==> moves_on(
            router,
            model::capacity_turn(router, owner, session_id, message, false),
            session_id,
            owner,
            message,
            router.contexts[session_id],
        ),
        !router.contexts.contains_key(session_id) ==> cannot_move(
            router,
            model::capacity_turn(router, owner, session_id, message, false),
            owner,
            message,
        ),
{
    failover_asks(router, session_id, owner, message);
}

/// A prompt that its account answers with spent quota moves on in the same way, and the answer is
/// not shown to the client.
pub proof fn spent_quota_moves_the_prompt(
    router: RouterView,
    pending: PendingView,
    session_id: Seq<char>,
    response: JsonView,
    now: Timestamp,
)
    requires
        pending.method == "session/prompt"@,
        pending.session_id == Some(session_id) || (pending.session_id is None && session_id
            == Seq::<char>::empty()),
        protocol::is_quota_error(response),
    ensures
        router.contexts.contains_key(session_id) ==> moves_on(
            router,
            model::answered_turn(router, pending, response, now),
            session_id,
            pending.account_id,
            pending.original,
            router.contexts[session_id],
        ),
        !router.contexts.contains_key(session_id) ==> cannot_move(
            router,
            model::answered_turn(router, pending, response, now),
            pending.account_id,
            pending.original,
        ),
{
    failover_asks(router, session_id, pending.account_id, pending.original);
}

/// A session that the client loads or resumes can move from then on: whoever the request was handed
/// to, and whatever the router knew before, a prompt of the session whose owner has no capacity asks
/// for another account, with the parameters of that request.
pub proof fn loaded_and_resumed_sessions_can_move(
    router: RouterView,
    account_id: Seq<char>,
    method: Seq<char>,
    session_id: Seq<char>,
    message: JsonView,
    owner: Seq<char>,
    prompt: JsonView,
)
    requires
        method == "session/load"@ || method == "session/resume"@,
    ensures
        ({
            let served = model::serve_turn(router, account_id, method, Some(session_id), message);
            let turn = model::capacity_turn(served.router, owner, session_id, prompt, false);
            &&& turn.question matches Some(
                QuestionView::Select { excluded, purpose: PurposeView::Failover { context, .. } },
            ) && message_laws::resumes(context, message, session_id)
            &&& moves_on(
                served.router,
                turn,
                session_id,
                owner,
                prompt,
                served.router.contexts[session_id],
            )
        }),
{
    methods_differ();
    let served = model::serve_turn(router, account_id, method, Some(session_id), message);
    served_requests_are_handed_on(router, account_id, method, Some(session_id), message);
    spent_owner_loses_the_prompt(served.router, owner, session_id, prompt);
}

proof fn session_requests_are_routed(
    router: RouterView,
    message: JsonView,
    method: Seq<char>,
    rest: Seq<char>,
)
    requires
        requests(message, method),
        method == "session/"@ + rest,
        method != "session/list"@,
        router.init is None,
    ensures
        model::client_turn(router, message) == model::request_turn(
            router,
            method,
            protocol::session_in(message),
            message,
        ),
        text::begins_with(method, "session/"@),
        method != "authenticate"@,
{
    methods_differ();
    assert(method[0] == 's');
    assert(method.take(8) =~= "session/"@);
}

/// A request for a session goes to the account that owns it, as long as that account has a child: a
/// prompt once it is known that the account has capacity, any other at once. To load or to resume
/// the session also sets what it is resumed with.
pub proof fn owned_sessions_are_served_by_their_owner(
    router: RouterView,
    message: JsonView,
    method: Seq<char>,
    rest: Seq<char>,
    session_id: Seq<char>,
    owner: Seq<char>,
)
    requires
        router.init is None,
        requests(message, method),
        method == "session/"@ + rest,
        method != "session/new"@,
        method != "session/list"@,
        names_session(message, session_id),
        owns(router.state, owner, session_id),
        router.peers.contains(owner),
    ensures
        ({
            let turn = model::client_turn(router, message);
            &&& method == "session/prompt"@ ==> {
                &&& turn.router == router
                &&& turn.effects.len() == 0
                &&& turn.question == Some(
                    QuestionView::Capacity { account_id: owner, session_id, message },
                )
            }
            &&& method != "session/prompt"@ ==> handed_on(
                router,
                turn,
                owner,
                method,
                Some(session_id),
                message,
            )
            &&& (method == "session/load"@ || method == "session/resume"@) ==> remembered(
                router.contexts,
                turn.router.contexts,
                session_id,
                message,
            )
            &&& (method != "session/load"@ && method != "session/resume"@)
                ==> turn.router.contexts == router.contexts
        }),
{
    methods_differ();
    session_requests_are_routed(router, message, method, rest);
    if method != "session/prompt"@ {
        served_requests_are_handed_on(router, owner, method, Some(session_id), message);
    }
}

/// A request for a session that nobody owns, or whose owner has no child, asks for an account to
/// serve it.
pub proof fn unowned_sessions_get_an_account(
    router: RouterView,
    message: JsonView,
    method: Seq<char>,
    rest: Seq<char>,
    session_id: Seq<char>,
)
    requires
        router.init is None,
        requests(message, method),
        method == "session/"@ + rest,
        method != "session/new"@,
        method != "session/list"@,
        names_session(message, session_id),
        router.state.sessions.contains_key(session_id) ==> !router.peers.contains(
            router.state.sessions[session_id].account_id,
        ),
    ensures
        asks_for_an_account(
            router,
            model::client_turn(router, message),
            Set::empty(),
            PurposeView::Serve { method, session: Some(session_id), message },
        ),
{
    methods_differ();
    session_requests_are_routed(router, message, method, rest);
    let purpose = PurposeView::Serve { method, session: Some(session_id), message };
    asking_excludes(router, Seq::empty(), purpose);
    assert(Seq::<Seq<char>>::empty().to_set() =~= Set::empty());
}

/// A request for a session that names none is refused.
pub proof fn session_requests_name_a_session(
    router: RouterView,
    message: JsonView,
    method: Seq<char>,
    rest: Seq<char>,
)
    requires
        router.init is None,
        requests(message, method),
        method == "session/"@ + rest,
        method != "session/new"@,
        method != "session/list"@,
        forall|session_id: Seq<char>| !names_session(message, session_id),
    ensures
        only_refused(
            router,
            model::client_turn(router, message),
            message,
            -32602,
            "Missing sessionId."@,
            None,
        ),
{
    methods_differ();
    session_requests_are_routed(router, message, method, rest);
    if let Some(id) = protocol::session_in(message) {
        assert(names_session(message, id));
    }
    message_laws::errors_are_reported_in_full(
        json::or_null(message.field("id"@)),
        -32602,
        "Missing sessionId."@,
        None,
    );
}

/// A new session asks for an account to make it.
pub proof fn new_sessions_get_an_account(router: RouterView, message: JsonView)
    requires
        router.init is None,
        requests(message, "session/new"@),
    ensures
        asks_for_an_account(
            router,
            model::client_turn(router, message),
            Set::empty(),
            PurposeView::Serve {
                method: "session/new"@,
                session: protocol::session_in(message),
                message,
            },
        ),
{
    methods_differ();
    let purpose = PurposeView::Serve {
        method: "session/new"@,
        session: protocol::session_in(message),
        message,
    };
    asking_excludes(router, Seq::empty(), purpose);
    assert(Seq::<Seq<char>>::empty().to_set() =~= Set::empty());
}

/// What belongs to no session, and the list of sessions, goes to the first of the listed accounts
/// that has a child; where none has, the client is told so. Nothing is remembered of it but that an
/// answer is due.
pub proof fn other_requests_go_to_the_first_account(
    router: RouterView,
    message: JsonView,
    method: Seq<char>,
    account_id: Seq<char>,
)
    requires
        router.init is None,
        requests(message, method),
        method != "initialize"@,
        method != "logout"@,
        method == "session/list"@ || method.len() < 8 || method.take(8) != "session/"@,
    ensures
        is_first(router, account_id) ==> handed_on(
            router,
            model::client_turn(router, message),
            account_id,
            method,
            protocol::session_in(message),
            message,
        ) && model::client_turn(router, message).router.contexts == router.contexts,
        (forall|other: Seq<char>|
            router.accounts.contains(other) ==> !router.peers.contains(other)) ==> only_refused(
            router,
            model::client_turn(router, message),
            message,
            -32000,
            "No routable Kimi accounts are configured."@,
            None,
        ),
{
    methods_differ();
    primary_is_the_first_with_a_child(router);
    if method.len() == 0 {
        assert(method =~= Seq::<char>::empty());
    }
    assert(protocol::method_in(message) == method);
    assert(method != "session/prompt"@);
    assert(method != "session/load"@);
    assert(method != "session/resume"@);
    assert(method != "session/new"@) by {
        reveal_strlit("session/new");
        reveal_strlit("session/");
        assert("session/new"@.take(8) =~= "session/"@);
    }
    served_requests_are_handed_on(
        router,
        account_id,
        method,
        protocol::session_in(message),
        message,
    );
    message_laws::errors_are_reported_in_full(
        json::or_null(message.field("id"@)),
        -32000,
        "No routable Kimi accounts are configured."@,
        None,
    );
}

/// While `initialize` is under way every other request is put off; a request to log out is always
/// refused.
pub proof fn some_requests_are_refused(router: RouterView, message: JsonView)
    requires
        message.field("method"@) is Some,
        !requests(message, "initialize"@),
    ensures
        router.init is Some ==> only_refused(
            router,
            model::client_turn(router, message),
            message,
            -32001,
            "Router initialization is still in progress."@,
            None,
        ),
        router.init is None && requests(message, "logout"@) ==> only_refused(
            router,
            model::client_turn(router, message),
            message,
            -32601,
            "Logout is managed by Kimi Subscription Router."@,
            None,
        ),
{
    methods_differ();
    let id = json::or_null(message.field("id"@));
    assert(protocol::method_in(message) != "initialize"@);
    message_laws::errors_are_reported_in_full(
        id,
        -32001,
        "Router initialization is still in progress."@,
        None,
    );
    message_laws::errors_are_reported_in_full(
        id,
        -32601,
        "Logout is managed by Kimi Subscription Router."@,
        None,
    );
}

/// An account that was chosen for a request serves it; where all are depleted the client is told so,
/// and when the next one is free again.
pub proof fn chosen_account_serves(
    router: RouterView,
    account_id: Seq<char>,
    method: Seq<char>,
    session: Option<Seq<char>>,
    message: JsonView,
    next_reset: Option<Timestamp>,
)
    ensures
        ({
            let purpose = PurposeView::Serve { method, session, message };
            let turn = model::selected_turn(router, purpose, Ok(account_id));
            &&& method == "session/prompt"@ && session is Some ==> {
                &&& turn.router == router
                &&& turn.effects.len() == 0
                &&& turn.question == Some(
                    QuestionView::Capacity { account_id, session_id: session->0, message },
                )
            }
            &&& method != "session/prompt"@ || session is None ==> handed_on(
                router,
                turn,
                account_id,
                method,
                session,
                message,
            )
            &&& (method == "session/load"@ || method == "session/resume"@) && session is Some
                ==> remembered(router.contexts, turn.router.contexts, session->0, message)
            &&& (method != "session/load"@ && method != "session/resume"@) || session is None
                ==> turn.router.contexts == router.contexts
            &&& only_refused(
                router,
                model::selected_turn(router, purpose, Err(next_reset)),
                message,
                -32042,
                "All configured Kimi accounts are depleted."@,
                Some(protocol::reset_data(next_reset)),
            )
        }),
{
    methods_differ();
    if method != "session/prompt"@ || session is None {
        served_requests_are_handed_on(router, account_id, method, session, message);
    }
    message_laws::replies_have_their_numbers(message.field("id"@), next_reset, Seq::empty());
}

/// The client's answer to a request of a child goes to that child, under the id that the child had
/// given, and is otherwise unchanged. The request is then forgotten, and no other.
pub proof fn answers_go_back_to_the_asking_child(
    router: RouterView,
    message: JsonView,
    id: JsonView,
    account_id: Seq<char>,
    original_id: JsonView,
    key: Seq<char>,
)
    requires
        message.field("method"@) is None,
        message.field("id"@) == Some(id),
        router.reverse_requests.contains_key(json::compact_text(id)),
        router.reverse_requests[json::compact_text(id)] == (account_id, original_id),
    ensures
        ({
            let turn = model::client_turn(router, message);
            &&& turn.question is None
            &&& turn.effects.len() == 1
            &&& exists|answer: JsonView|
                {
                    &&& #[trigger] delivered(router, turn.effects[0], account_id, answer)
                    &&& answer.field("id"@) == Some(original_id)
                    &&& key != "id"@ ==> answer.field(key) == message.field(key)
                }
            &&& turn.router =~= (RouterView {
                reverse_requests: router.reverse_requests.remove(json::compact_text(id)),
                ..router
            })
        }),
{
    let answer = message.with_field("id"@, original_id);
    let turn = model::client_turn(router, message);
    assert(delivered(router, turn.effects[0], account_id, answer));
}

/// An answer of the client that nobody waits for is dropped.
pub proof fn stray_answers_are_dropped(router: RouterView, message: JsonView)
    requires
        message.field("method"@) is None,
        message.field("id"@) matches Some(id) ==> !router.reverse_requests.contains_key(
            json::compact_text(id),
        ),
    ensures
        ({
            let turn = model::client_turn(router, message);
            &&& turn.router == router
            &&& turn.effects.len() == 0
            &&& turn.question is None
        }),
{
}

/// To initialize, every running child is sent the message, once and in the order of the accounts'
/// names, and the answer of each is waited for; without a child the client is told so.
pub proof fn every_child_is_initialized(router: RouterView, message: JsonView)
    requires
        requests(message, "initialize"@),
        router.peers.finite(),
    ensures
        ({
            let turn = model::client_turn(router, message);
            &&& router.peers.is_empty() ==> only_refused(
                router,
                turn,
                message,
                -32000,
                "No routable Kimi accounts are configured."@,
                None,
            )
            &&& !router.peers.is_empty() ==> {
                &&& turn.question is None
                &&& turn.effects.len() == router.peers.len()
                &&& forall|account_id: Seq<char>|
                    #[trigger] router.peers.contains(account_id) ==> turn.effects.contains(
                        EffectView::Send { account_id, message },
                    )
                &&& forall|i: int, j: int|
                    0 <= i < j < turn.effects.len() ==> (#[trigger] turn.effects[i] matches
                        EffectView::Send { account_id: a, message: m } && m == message
                        && router.peers.contains(a) && (#[trigger] turn.effects[j] matches
                        EffectView::Send { account_id: b, message: n } && text::text_less(a, b)))
                &&& turn.router =~= (RouterView { init: turn.router.init, ..router })
                &&& turn.router.init matches Some(init) && {
                    &&& init.waiting =~= router.peers
                    &&& init.primary_response is None
                    &&& init.request_id == (match message.field("id"@) {
                        Some(id) => id,
                        None => JsonView::Null,
                    })
                    &&& model::can_take(router, message) ==> is_first(router, init.primary)
                }
            }
        }),
{
    methods_differ();
    primary_is_the_first_with_a_child(router);
    message_laws::errors_are_reported_in_full(
        json::or_null(message.field("id"@)),
        -32000,
        "No routable Kimi accounts are configured."@,
        None,
    );
    let names = table::in_order(router.peers);
    let turn = model::client_turn(router, message);
    if !router.peers.is_empty() {
        table::in_order_holds(router.peers);
        names.unique_seq_to_set();
        assert(turn.effects.len() == names.len());
        assert forall|account_id: Seq<char>| #[trigger] router.peers.contains(account_id) implies
            turn.effects.contains(EffectView::Send { account_id, message }) by {
            assert(names.to_set().contains(account_id));
            let i = choose|i: int| 0 <= i < names.len() && names[i] == account_id;
            assert(turn.effects[i] == (EffectView::Send { account_id, message }));
        }
        assert forall|i: int, j: int| 0 <= i < j < turn.effects.len() implies (
        #[trigger] turn.effects[i] matches EffectView::Send { account_id: a, message: m } && m
            == message && router.peers.contains(a) && (#[trigger] turn.effects[j] matches
            EffectView::Send { account_id: b, message: n } && text::text_less(a, b))) by {
            assert(names.to_set().contains(names[i]));
            assert(text::text_less(names[i], names[j]));
        }
    }
}

/// Whether a router can `initialize` is asked only of that method: a running child has to belong to
/// a listed account, or there is no child at all.
pub proof fn only_initialize_needs_a_primary(router: RouterView, message: JsonView)
    ensures
        model::can_take(router, message) <==> (requests(message, "initialize"@) ==> (
        router.peers.is_empty() || exists|account_id: Seq<char>|
            router.accounts.contains(account_id) && router.peers.contains(account_id))),
{
    methods_differ();
    primary_is_the_first_with_a_child(router);
}

/// A blank line is passed over, a line that is no JSON text is answered with an error, and any other
/// is taken as the message that it says.
pub proof fn lines_are_read_as_messages(router: RouterView, line: Seq<char>)
    ensures
        (forall|i: int| 0 <= i < line.len() ==> text::is_white(#[trigger] line[i])) ==> ({
            &&& model::line_turn(router, line) matches Some(turn) && turn.router == router
                && turn.effects.len() == 0 && turn.question is None
        }),
        (exists|i: int| 0 <= i < line.len() && !text::is_white(#[trigger] line[i])) ==> (
        match json::parsed_json(line) {
            Ok(message) => model::line_turn(router, line) == (if model::can_take(router, message) {
                Some(model::client_turn(router, message))
            } else {
                None
            }),
            Err(words) => model::line_turn(router, line) matches Some(turn) && turn.router == router
                && turn.question is None && turn.effects.len() == 1 && (
            turn.effects[0] matches EffectView::Write(reply) && message_laws::reports(
                reply,
                JsonView::Null,
                -32700,
                "Parse error: "@ + words,
                None,
            )),
        }),
{
    text_laws::only_blank_texts_are_trimmed_to_nothing(line);
    if let Err(words) = json::parsed_json(line) {
        message_laws::replies_have_their_numbers(None, None, words);
    }
}

// ---------------------------------------------------------------------------
// Failover
// ---------------------------------------------------------------------------

/// Whether a request is one of the router's own, for a method and with parameters.
pub open spec fn asks_itself(
    request: JsonView,
    id: Seq<char>,
    method: Seq<char>,
    params: Map<Seq<char>, JsonView>,
) -> bool {
    &&& request is Object
    &&& (request->Object_0).dom() =~= set!["jsonrpc"@, "id"@, "method"@, "params"@]
    &&& request.field("jsonrpc"@) == Some(JsonView::Text("2.0"@))
    &&& request.field("id"@) == Some(JsonView::Text(id))
    &&& request.field("method"@) == Some(JsonView::Text(method))
    &&& request.field("params"@) == Some(JsonView::Object(params))
}

/// The number that comes next: one more, and after the greatest the first again.
pub proof fn numbers_go_round(router: RouterView)
    ensures
        router.sequence < u64::MAX ==> router.next_sequence() == router.sequence + 1,
        router.sequence == u64::MAX ==> router.next_sequence() == 0,
{
}

/// Once the account that takes over is known, the old owner is told to close the session. The
/// request to resume it, with the context, is kept for the account that takes over, and the prompt
/// with it; nothing else changes but the numbers of the ids, of which two are used up. A prompt
/// without an id is dropped.
pub proof fn owner_is_told_to_close(
    router: RouterView,
    session_id: Seq<char>,
    owner: Seq<char>,
    message: JsonView,
    context: Map<Seq<char>, JsonView>,
    replacement: Seq<char>,
    first: u64,
    second: u64,
)
    requires
        first == (if router.sequence == u64::MAX {
            0
        } else {
            router.sequence + 1
        }),
        second == (if first == u64::MAX {
            0
        } else {
            first + 1
        }),
    ensures
        ({
            let purpose = PurposeView::Failover { session_id, owner, message, context };
            let turn = model::selected_turn(router, purpose, Ok(replacement));
            let close_id = "router-close-"@ + text::decimal(second as nat);
            let key = json::compact_text(JsonView::Text(close_id));
            &&& message.field("id"@) is None ==> {
                &&& turn.router == router
                &&& turn.effects.len() == 0
                &&& turn.question is None
            }
            &&& message.field("id"@) matches Some(client_id) ==> {
                &&& turn.question is None
                &&& turn.effects.len() == 1
                &&& exists|close: JsonView| #[trigger]
                    delivered(router, turn.effects[0], owner, close) && asks_itself(
                        close,
                        close_id,
                        "session/close"@,
                        map!["sessionId"@ => JsonView::Text(session_id)],
                    )
                &&& turn.router =~= (RouterView {
                    failovers: turn.router.failovers,
                    sequence: second,
                    ..router
                })
                &&& turn.router.failovers =~= router.failovers.insert(
                    key,
                    turn.router.failovers[key],
                )
                &&& turn.router.failovers[key] matches FailoverView::CloseThenResume {
                    action,
                    resume_request,
                } && {
                    &&& action.account_id == replacement
                    &&& action.session_id == session_id
                    &&& action.original_request == message
                    &&& action.client_id_key == json::compact_text(client_id)
                    &&& asks_itself(
                        resume_request,
                        "router-resume-"@ + text::decimal(first as nat),
                        "session/resume"@,
                        context,
                    )
                }
            }
        }),
{
    let purpose = PurposeView::Failover { session_id, owner, message, context };
    let turn = model::selected_turn(router, purpose, Ok(replacement));
    let close_id = "router-close-"@ + text::decimal(second as nat);
    let params = map!["sessionId"@ => JsonView::Text(session_id)];
    assert(protocol::session_params(session_id) =~= params);
    let close = protocol::own_request(close_id, "session/close"@, params);
    message_laws::own_requests_are_whole(close_id, "session/close"@, params, session_id);
    message_laws::own_requests_are_whole(
        "router-resume-"@ + text::decimal(first as nat),
        "session/resume"@,
        context,
        session_id,
    );
    if message.field("id"@) is Some {
        assert(delivered(router, turn.effects[0], owner, close));
    }
}

/// Where no account can take over, the client is told so, and when the next one is free again;
/// nothing else changes.
pub proof fn nobody_takes_over(
    router: RouterView,
    session_id: Seq<char>,
    owner: Seq<char>,
    message: JsonView,
    context: Map<Seq<char>, JsonView>,
    next_reset: Option<Timestamp>,
)
    ensures
        only_refused(
            router,
            model::selected_turn(
                router,
                PurposeView::Failover { session_id, owner, message, context },
                Err(next_reset),
            ),
            message,
            -32042,
            "All configured Kimi accounts are depleted."@,
            Some(protocol::reset_data(next_reset)),
        ),
{
    message_laws::replies_have_their_numbers(message.field("id"@), next_reset, Seq::empty());
}

/// Once the old owner has closed the session, the account that takes over is sent the kept request
/// to resume it, and its answer is awaited; where the old owner could not, the client is told so,
/// with the owner's error. Nothing else changes, and no session changes hands.
pub proof fn closed_session_is_resumed(
    router: RouterView,
    action: ResumeView,
    resume_request: JsonView,
    resume_id: JsonView,
    response: JsonView,
    now: Timestamp,
)
    requires
        resume_id == (match resume_request.field("id"@) {
            Some(id) => id,
            None => JsonView::Null,
        }),
    ensures
        ({
            let step = FailoverView::CloseThenResume { action, resume_request };
            let turn = model::failover_step_turn(router, step, response, now);
            match response.field("error"@) {
                Some(error) => only_refused(
                    router,
                    turn,
                    action.original_request,
                    -32044,
                    "Kimi session failover could not close the previous owner."@,
                    Some(error),
                ),
                None => {
                    &&& turn.question is None
                    &&& turn.effects.len() == 1
                    &&& delivered(router, turn.effects[0], action.account_id, resume_request)
                    &&& turn.router =~= (RouterView {
                        failovers: router.failovers.insert(
                            json::compact_text(resume_id),
                            FailoverView::Resume(action),
                        ),
                        ..router
                    })
                },
            }
        }),
{
    if let Some(error) = response.field("error"@) {
        message_laws::errors_are_reported_in_full(
            json::or_null(action.original_request.field("id"@)),
            -32044,
            "Kimi session failover could not close the previous owner."@,
            Some(error),
        );
    }
}

/// Whether a state is the one before with one session given to an account.
pub open spec fn given_to(
    before: StateView,
    after: StateView,
    session_id: Seq<char>,
    account_id: Seq<char>,
    now: Timestamp,
) -> bool {
    &&& after.version == before.version
    &&& after.sessions.contains_key(session_id)
    &&& after.sessions[session_id].account_id == account_id
    &&& after.sessions[session_id].assigned_at == now
    &&& other_owners_kept(before, after, session_id)
}

/// Whether every session but one has the owner, or none, that it had before.
pub open spec fn other_owners_kept(
    before: StateView,
    after: StateView,
    session_id: Seq<char>,
) -> bool {
    forall|other: Seq<char>|
        other != session_id ==> (#[trigger] after.sessions.contains_key(other)
            == before.sessions.contains_key(other)) && (before.sessions.contains_key(other)
            ==> after.sessions[other] == before.sessions[other])
}

/// Whether a text is the document of a state.
pub open spec fn documents(document: Seq<char>, state: StateView) -> bool {
    exists|sessions: Map<Seq<char>, JsonView>|
        {
            &&& document == json::pretty_fields(
                seq![
                    (
                        "version"@,
                        JsonView::Number(json::integer_number(state.version as int)),
                    ),
                    ("sessions"@, JsonView::Object(sessions)),
                ],
            )
            &&& #[trigger] sessions.dom() =~= state.sessions.dom()
            &&& forall|id: Seq<char>| #[trigger]
                state.sessions.contains_key(id) ==> documents_owner(
                    sessions[id],
                    state.sessions[id],
                )
        }
}

/// Whether a tree says who owns a session and since when, and nothing more.
pub open spec fn documents_owner(tree: JsonView, owner: OwnerView) -> bool {
    &&& tree is Object
    &&& (tree->Object_0).dom() =~= set!["account_id"@, "assigned_at"@]
    &&& tree.field("account_id"@) == Some(JsonView::Text(owner.account_id))
    &&& tree.field("assigned_at"@) == Some(
        JsonView::Text(
            clock::moment_text(owner.assigned_at.seconds as int, owner.assigned_at.nanos as int),
        ),
    )
}

/// The document of a state says its version, and of each session its owner and since when, and
/// nothing more.
pub proof fn documents_say_the_state(state: StateView)
    ensures
        documents(state::document_text(state), state),
{
    reveal_strlit("account_id");
    reveal_strlit("assigned_at");
    assert("account_id"@.len() != "assigned_at"@.len());
    let sessions = state.sessions.map_values(|owner: OwnerView| state::owner_json(owner));
    assert forall|id: Seq<char>| #[trigger] state.sessions.contains_key(id) implies documents_owner(
        sessions[id],
        state.sessions[id],
    ) by {
        assert(sessions[id] == state::owner_json(state.sessions[id]));
    }
    assert(sessions.dom() =~= state.sessions.dom());
    assert(state::document_text(state) == json::pretty_fields(
        seq![
            ("version"@, JsonView::Number(json::integer_number(state.version as int))),
            ("sessions"@, JsonView::Object(sessions)),
        ],
    ));
}

/// Once the account that takes over has resumed the session, the session is its own: that is kept
/// first, then the prompt is sent to it, unchanged, and its answer is awaited under the prompt's own
/// key. Where it could not resume, the client is told so, with the account's error, and no session
/// changes hands.
pub proof fn resumed_session_belongs_to_its_taker(
    router: RouterView,
    action: ResumeView,
    response: JsonView,
    now: Timestamp,
)
    ensures
        ({
            let turn = model::failover_step_turn(
                router,
                FailoverView::Resume(action),
                response,
                now,
            );
            match response.field("error"@) {
                Some(error) => only_refused(
                    router,
                    turn,
                    action.original_request,
                    -32044,
                    "Kimi session failover could not resume the conversation."@,
                    Some(error),
                ),
                None => {
                    &&& turn.question is None
                    &&& turn.effects.len() == 2
                    &&& turn.effects[0] matches EffectView::Save(document) && documents(
                        document,
                        turn.router.state,
                    )
                    &&& delivered(
                        router,
                        turn.effects[1],
                        action.account_id,
                        action.original_request,
                    )
                    &&& given_to(
                        router.state,
                        turn.router.state,
                        action.session_id,
                        action.account_id,
                        now,
                    )
                    &&& turn.router =~= (RouterView {
                        state: turn.router.state,
                        pending: router.pending.insert(
                            action.client_id_key,
                            PendingView {
                                account_id: action.account_id,
                                method: "session/prompt"@,
                                original: action.original_request,
                                session_id: Some(action.session_id),
                            },
                        ),
                        ..router
                    })
                },
            }
        }),
{
    let turn = model::failover_step_turn(router, FailoverView::Resume(action), response, now);
    documents_say_the_state(turn.router.state);
    if let Some(error) = response.field("error"@) {
        message_laws::errors_are_reported_in_full(
            json::or_null(action.original_request.field("id"@)),
            -32044,
            "Kimi session failover could not resume the conversation."@,
            Some(error),
        );
    }
}

// ---------------------------------------------------------------------------
// Answers of children
// ---------------------------------------------------------------------------

/// Whether a step kept a state and then showed an answer to the client, and did nothing else.
pub open spec fn keeps_and_shows(router: RouterView, turn: TurnView, response: JsonView) -> bool {
    &&& turn.question is None
    &&& turn.effects.len() == 2
    &&& turn.effects[0] matches EffectView::Save(document) && documents(
        document,
        turn.router.state,
    )
    &&& turn.effects[1] == EffectView::Write(response)
    &&& turn.router =~= (RouterView {
        state: turn.router.state,
        contexts: turn.router.contexts,
        ..router
    })
}

/// The account that loaded or resumed a session owns it from then on. Every other session has the
/// owner that it had, what sessions are resumed with stays, and the new owner is kept before the
/// client sees the answer.
pub proof fn loaded_and_resumed_sessions_belong_to_their_account(
    router: RouterView,
    pending: PendingView,
    session_id: Seq<char>,
    response: JsonView,
    now: Timestamp,
)
    requires
        pending.method == "session/load"@ || pending.method == "session/resume"@,
        pending.session_id == Some(session_id),
        response.field("error"@) is None,
    ensures
        ({
            let turn = model::answered_turn(router, pending, response, now);
            &&& keeps_and_shows(router, turn, response)
            &&& given_to(router.state, turn.router.state, session_id, pending.account_id, now)
            &&& turn.router.contexts == router.contexts
            &&& owns(turn.router.state, pending.account_id, session_id)
            &&& turn.router.state.owner(session_id) == Some(pending.account_id)
            &&& forall|other: Seq<char>|
                other != session_id ==> #[trigger] turn.router.state.owner(other)
                    == router.state.owner(other)
            &&& turn.effects[0] == EffectView::Save(state::document_text(turn.router.state))
        }),
{
    methods_differ();
    let turn = model::answered_turn(router, pending, response, now);
    documents_say_the_state(turn.router.state);
}

/// A router that starts anew from what was kept finds the same owner: the document that is kept before
/// the client sees the answer is loaded as a state in which the account owns the session, and every
/// other session has the owner that it had. That documents are loaded as the state that they were made
/// of is what [`router::Router::handle_child`] promises.
pub proof fn loaded_and_resumed_sessions_are_found_again(
    router: RouterView,
    pending: PendingView,
    session_id: Seq<char>,
    response: JsonView,
    now: Timestamp,
    other: Seq<char>,
)
    requires
        pending.method == "session/load"@ || pending.method == "session/resume"@,
        pending.session_id == Some(session_id),
        response.field("error"@) is None,
        router::saves_are_loaded(
            model::answered_turn(router, pending, response, now).effects,
            model::answered_turn(router, pending, response, now).router.state,
        ),
    ensures
        model::answered_turn(router, pending, response, now).effects[0] matches EffectView::Save(
            document,
        ) && (state::loaded_text(document) matches Some(found) && {
            &&& owns(found, pending.account_id, session_id)
            &&& other != session_id ==> found.owner(other) == router.state.owner(other)
        }),
{
    loaded_and_resumed_sessions_belong_to_their_account(
        router,
        pending,
        session_id,
        response,
        now,
    );
}

/// The account that made a session owns it, and the session is resumed with the parameters of the
/// request that made it.
pub proof fn new_sessions_belong_to_their_maker(
    router: RouterView,
    pending: PendingView,
    session_id: Seq<char>,
    response: JsonView,
    now: Timestamp,
)
    requires
        pending.method == "session/new"@,
        response.field("error"@) is None,
        message_laws::holds_at(response, "result"@, "sessionId"@, JsonView::Text(session_id)),
    ensures
        ({
            let turn = model::answered_turn(router, pending, response, now);
            &&& keeps_and_shows(router, turn, response)
            &&& given_to(router.state, turn.router.state, session_id, pending.account_id, now)
            &&& remembered(
                router.contexts,
                turn.router.contexts,
                session_id,
                pending.original,
            )
        }),
{
    methods_differ();
    let turn = model::answered_turn(router, pending, response, now);
    documents_say_the_state(turn.router.state);
    message_laws::contexts_keep_the_request(pending.original, session_id);
}

/// The account that forked a session owns the fork, which is resumed with what its source is resumed
/// with, where that is known.
pub proof fn forked_sessions_belong_to_their_maker(
    router: RouterView,
    pending: PendingView,
    session_id: Seq<char>,
    response: JsonView,
    now: Timestamp,
)
    requires
        pending.method == "session/fork"@,
        response.field("error"@) is None,
        message_laws::holds_at(response, "result"@, "sessionId"@, JsonView::Text(session_id)),
    ensures
        ({
            let turn = model::answered_turn(router, pending, response, now);
            &&& keeps_and_shows(router, turn, response)
            &&& given_to(router.state, turn.router.state, session_id, pending.account_id, now)
            &&& (pending.session_id matches Some(source) && router.contexts.contains_key(source))
                ==> {
                &&& turn.router.contexts.contains_key(session_id)
                &&& turn.router.contexts[session_id] == router.contexts[pending.session_id->0]
                &&& others_kept(router.contexts, turn.router.contexts, session_id)
            }
            &&& !(pending.session_id matches Some(source) && router.contexts.contains_key(source))
                ==> turn.router.contexts == router.contexts
        }),
{
    methods_differ();
    let turn = model::answered_turn(router, pending, response, now);
    documents_say_the_state(turn.router.state);
}

/// A session that was deleted belongs to nobody and cannot be resumed; all others stay.
pub proof fn deleted_sessions_are_forgotten(
    router: RouterView,
    pending: PendingView,
    session_id: Seq<char>,
    response: JsonView,
    now: Timestamp,
)
    requires
        pending.method == "session/delete"@,
        pending.session_id == Some(session_id),
        response.field("error"@) is None,
    ensures
        ({
            let turn = model::answered_turn(router, pending, response, now);
            &&& keeps_and_shows(router, turn, response)
            &&& turn.router.state.version == router.state.version
            &&& !turn.router.state.sessions.contains_key(session_id)
            &&& other_owners_kept(router.state, turn.router.state, session_id)
            &&& !turn.router.contexts.contains_key(session_id)
            &&& others_kept(router.contexts, turn.router.contexts, session_id)
        }),
{
    methods_differ();
    let turn = model::answered_turn(router, pending, response, now);
    documents_say_the_state(turn.router.state);
}

/// Any other answer is shown to the client as it is, and changes nothing: an error, but for a prompt
/// that tells of spent quota; what makes a session without naming it; what speaks of no session; and
/// what does neither make, load, resume, fork nor delete one.
pub proof fn other_answers_are_shown(
    router: RouterView,
    pending: PendingView,
    response: JsonView,
    now: Timestamp,
)
    requires
        pending.method == "session/prompt"@ ==> !protocol::is_quota_error(response),
        response.field("error"@) is Some || ({
            let makes = pending.method == "session/new"@ || pending.method == "session/fork"@;
            let names = pending.method == "session/load"@ || pending.method == "session/resume"@
                || pending.method == "session/delete"@;
            &&& makes ==> forall|id: Seq<char>|
                !message_laws::holds_at(response, "result"@, "sessionId"@, JsonView::Text(id))
            &&& names ==> pending.session_id is None
        }),
    ensures
        only_did(
            router,
            model::answered_turn(router, pending, response, now),
            EffectView::Write(response),
        ),
{
    methods_differ();
    if let Some(id) = protocol::result_session_in(response) {
        assert(message_laws::holds_at(response, "result"@, "sessionId"@, JsonView::Text(id)));
    }
}

/// What a child says to an answer that is awaited goes to who awaits it, which is then awaited no
/// more; what nobody awaits is shown to the client as it is.
pub proof fn answers_go_to_who_awaits_them(
    router: RouterView,
    account_id: Seq<char>,
    message: JsonView,
    now: Timestamp,
)
    requires
        message.field("method"@) is None,
        router.init is None,
    ensures
        ({
            let turn = model::child_turn(router, account_id, message, now);
            match message.field("id"@) {
                None => only_did(router, turn, EffectView::Write(message)),
                Some(id) => {
                    let key = json::compact_text(id);
                    &&& router.failovers.contains_key(key) ==> turn == model::failover_step_turn(
                        RouterView { failovers: router.failovers.remove(key), ..router },
                        router.failovers[key],
                        message,
                        now,
                    )
                    &&& !router.failovers.contains_key(key) && router.pending.contains_key(key)
                        ==> turn == model::answered_turn(
                        RouterView { pending: router.pending.remove(key), ..router },
                        router.pending[key],
                        message,
                        now,
                    )
                    &&& !router.failovers.contains_key(key) && !router.pending.contains_key(key)
                        ==> only_did(router, turn, EffectView::Write(message))
                },
            }
        }),
{
}

/// What a child tells is shown to the client as it is. What it asks is shown under an id of the
/// router's own and otherwise unchanged; who asked, and under which id, is remembered under the new
/// one.
pub proof fn requests_of_children_are_shown(
    router: RouterView,
    account_id: Seq<char>,
    message: JsonView,
    now: Timestamp,
    number: u64,
)
    requires
        message.field("method"@) is Some,
        router.init is None,
        number == (if router.sequence == u64::MAX {
            0
        } else {
            router.sequence + 1
        }),
    ensures
        ({
            let turn = model::child_turn(router, account_id, message, now);
            let routed = JsonView::Text("router-reverse-"@ + text::decimal(number as nat));
            match message.field("id"@) {
                None => only_did(router, turn, EffectView::Write(message)),
                Some(id) => {
                    &&& turn.question is None
                    &&& turn.effects.len() == 1
                    &&& turn.effects[0] matches EffectView::Write(shown) && {
                        &&& shown.field("id"@) == Some(routed)
                        &&& forall|key: Seq<char>|
                            key != "id"@ ==> #[trigger] shown.field(key) == message.field(key)
                    }
                    &&& turn.router =~= (RouterView {
                        sequence: number,
                        reverse_requests: router.reverse_requests.insert(
                            json::compact_text(routed),
                            (account_id, id),
                        ),
                        ..router
                    })
                },
            }
        }),
{
}

/// Every message of a child but its answer to an `initialize` under way is taken as if there were
/// none under way.
pub proof fn initialize_delays_no_child(
    router: RouterView,
    account_id: Seq<char>,
    message: JsonView,
    now: Timestamp,
)
    requires
        router.init matches Some(init) ==> !init.waiting.contains(account_id) || (
        message.field("id"@) matches Some(id) ==> !json::same_tree(id, init.request_id)),
    ensures
        ({
            let turn = model::child_turn(router, account_id, message, now);
            let free = model::child_turn(
                RouterView { init: None, ..router },
                account_id,
                message,
                now,
            );
            &&& turn.effects == free.effects
            &&& turn.question == free.question
            &&& turn.router =~= (RouterView { init: router.init, ..free.router })
        }),
{
    reveal_strlit("session/prompt");
    let plain = RouterView { init: None, ..router };
    assert(plain.peers == router.peers);
    let turn = model::child_turn(router, account_id, message, now);
    let free = model::child_turn(plain, account_id, message, now);
    if message.field("method"@) is None && message.field("id"@) is Some {
        let key = json::compact_text(message.field("id"@)->0);
        if !router.failovers.contains_key(key) && router.pending.contains_key(key) {
            let a = RouterView { pending: router.pending.remove(key), ..router };
            let b = RouterView { pending: router.pending.remove(key), ..plain };
            assert(b =~= (RouterView { init: None, ..a }));
            assert(a.excluded(seq![router.pending[key].account_id]) == b.excluded(
                seq![router.pending[key].account_id],
            ));
        }
    }
}

/// Every child that answers `initialize` is waited for no more. The last answer ends the wait: the
/// client gets what the primary child said, in the name of the router, or an error where it said
/// nothing.
pub proof fn primary_answers_initialize(
    router: RouterView,
    init: InitView,
    account_id: Seq<char>,
    message: JsonView,
    now: Timestamp,
)
    requires
        router.init == Some(init),
        init.waiting.contains(account_id),
        message.field("id"@) matches Some(id) && json::same_tree(id, init.request_id),
    ensures
        ({
            let turn = model::child_turn(router, account_id, message, now);
            let said = if account_id == init.primary {
                Some(protocol::normalized(message))
            } else {
                init.primary_response
            };
            let last = forall|other: Seq<char>| #[trigger]
                init.waiting.contains(other) ==> other == account_id;
            &&& turn.question is None
            &&& last ==> {
                &&& turn.effects.len() == 1
                &&& turn.effects[0] matches EffectView::Write(reply) && match said {
                    Some(answer) => reply == answer,
                    None => message_laws::reports(
                        reply,
                        init.request_id,
                        -32001,
                        "Kimi ACP initialization failed."@,
                        None,
                    ),
                }
                &&& turn.router =~= (RouterView { init: None, ..router })
            }
            &&& !last ==> {
                &&& turn.effects.len() == 0
                &&& turn.router =~= (RouterView { init: turn.router.init, ..router })
                &&& turn.router.init matches Some(left) && {
                    &&& left.request_id == init.request_id
                    &&& left.primary == init.primary
                    &&& left.primary_response == said
                    &&& left.waiting =~= init.waiting.remove(account_id)
                }
            }
        }),
{
    message_laws::errors_are_reported_in_full(
        init.request_id,
        -32001,
        "Kimi ACP initialization failed."@,
        None,
    );
    let waiting = init.waiting.remove(account_id);
    if forall|other: Seq<char>| #[trigger] init.waiting.contains(other) ==> other == account_id {
        assert(waiting =~= Set::empty());
    } else {
        let other = choose|other: Seq<char>| #[trigger]
            init.waiting.contains(other) && other != account_id;
        assert(waiting.contains(other));
    }
}

// ---------------------------------------------------------------------------
// The end of a child
// ---------------------------------------------------------------------------

/// Whether a request was owed by an account.
pub open spec fn owed(
    pending: Map<Seq<char>, PendingView>,
    account_id: Seq<char>,
    key: Seq<char>,
) -> bool {
    pending.contains_key(key) && pending[key].account_id == account_id
}

/// A child that is gone runs no more, and each request that it owed is answered, in the order of
/// their keys, with an error under its own id, and forgotten. All else stays, but for an
/// `initialize` under way.
pub proof fn gone_child_leaves_nothing_owed(router: RouterView, account_id: Seq<char>)
    requires
        router.pending.dom().finite(),
        router.init is None,
    ensures
        ({
            let turn = model::closed_turn(router, account_id);
            &&& turn.question is None
            &&& turn.router =~= (RouterView {
                peers: router.peers.remove(account_id),
                pending: turn.router.pending,
                ..router
            })
            &&& forall|key: Seq<char>| #[trigger]
                turn.router.pending.contains_key(key) <==> router.pending.contains_key(key)
                    && router.pending[key].account_id != account_id
            &&& forall|key: Seq<char>| #[trigger]
                turn.router.pending.contains_key(key) ==> turn.router.pending[key]
                    == router.pending[key]
            &&& exists|keys: Seq<Seq<char>>|
                {
                    &&& #[trigger] keys.len() == turn.effects.len()
                    &&& forall|i: int, j: int|
                        0 <= i < j < keys.len() ==> text::text_less(
                            #[trigger] keys[i],
                            #[trigger] keys[j],
                        )
                    &&& forall|key: Seq<char>| #[trigger]
                        keys.contains(key) <==> owed(router.pending, account_id, key)
                    &&& forall|i: int|
                        0 <= i < keys.len() ==> (#[trigger] turn.effects[i] matches
                            EffectView::Write(reply) && answers_with(
                            reply,
                            router.pending[keys[i]].original,
                            -32045,
                            "The assigned Kimi ACP child exited before completing the request."@,
                            None,
                        ))
                }
        }),
{
    let turn = model::closed_turn(router, account_id);
    let due = model::owed_by(router.pending, account_id);
    let keys = table::in_order(due);
    assert(due.subset_of(router.pending.dom()));
    vstd::set_lib::lemma_len_subset(due, router.pending.dom());
    table::in_order_holds(due);
    assert(keys.len() == turn.effects.len());
    assert forall|key: Seq<char>| #[trigger] keys.contains(key) <==> owed(
        router.pending,
        account_id,
        key,
    ) by {
        assert(keys.to_set().contains(key) == due.contains(key));
    }
    assert forall|i: int| 0 <= i < keys.len() implies (#[trigger] turn.effects[i] matches
        EffectView::Write(reply) && answers_with(
        reply,
        router.pending[keys[i]].original,
        -32045,
        "The assigned Kimi ACP child exited before completing the request."@,
        None,
    )) by {
        message_laws::errors_are_reported_in_full(
            json::or_null(router.pending[keys[i]].original.field("id"@)),
            -32045,
            "The assigned Kimi ACP child exited before completing the request."@,
            None,
        );
    }
}

/// Where `initialize` is under way, a child that is gone is waited for no more. If it was the
/// primary, and had yet to answer, the client is to get an error. The wait ends where nobody is left
/// and there is something to tell the client, which is then told last.
pub proof fn gone_child_is_not_waited_for(
    router: RouterView,
    init: InitView,
    account_id: Seq<char>,
)
    requires
        router.init == Some(init),
    ensures
        ({
            let turn = model::closed_turn(router, account_id);
            let free = model::closed_turn(RouterView { init: None, ..router }, account_id);
            let gone = account_id == init.primary && init.waiting.contains(account_id);
            let left = init.waiting.remove(account_id);
            let done = left.is_empty() && (gone || init.primary_response is Some);
            &&& turn.question is None
            &&& turn.router =~= (RouterView { init: turn.router.init, ..free.router })
            &&& !done ==> {
                &&& turn.effects == free.effects
                &&& turn.router.init matches Some(still) && {
                    &&& still.waiting =~= left
                    &&& still.request_id == init.request_id
                    &&& still.primary == init.primary
                    &&& gone ==> (still.primary_response matches Some(reply)
                        && message_laws::reports(
                        reply,
                        init.request_id,
                        -32001,
                        "Primary Kimi ACP child exited during initialization."@,
                        None,
                    ))
                    &&& !gone ==> still.primary_response == init.primary_response
                }
            }
            &&& done ==> {
                &&& turn.router.init is None
                &&& turn.effects.len() == free.effects.len() + 1
                &&& turn.effects.drop_last() =~= free.effects
                &&& turn.effects.last() matches EffectView::Write(reply) && {
                    &&& gone ==> message_laws::reports(
                        reply,
                        init.request_id,
                        -32001,
                        "Primary Kimi ACP child exited during initialization."@,
                        None,
                    )
                    &&& !gone ==> Some(reply) == init.primary_response
                }
            }
        }),
{
    message_laws::errors_are_reported_in_full(
        init.request_id,
        -32001,
        "Primary Kimi ACP child exited during initialization."@,
        None,
    );
    let turn = model::closed_turn(router, account_id);
    let free = model::closed_turn(RouterView { init: None, ..router }, account_id);
    assert(turn.router =~= (RouterView { init: turn.router.init, ..free.router }));
}

// ---------------------------------------------------------------------------
// Starting, and listing anew
// ---------------------------------------------------------------------------

/// A router starts with a child for each listed account, the owners that it is given, and nothing
/// else under way.
pub proof fn routers_start_with_nothing_under_way(
    accounts: Seq<Seq<char>>,
    state: StateView,
    key: Seq<char>,
)
    ensures
        ({
            let router = model::started(accounts, state);
            &&& router.accounts == accounts
            &&& router.peers.contains(key) <==> accounts.contains(key)
            &&& router.state == state
            &&& !router.contexts.contains_key(key)
            &&& !router.pending.contains_key(key)
            &&& !router.reverse_requests.contains_key(key)
            &&& !router.failovers.contains_key(key)
            &&& router.init is None
            &&& router.sequence == 0
        }),
{
}

/// To list the accounts anew changes among which is chosen, and nothing else.
pub proof fn only_the_list_changes(router: RouterView, accounts: Seq<Seq<char>>)
    ensures
        ({
            let listed = model::with_accounts(router, accounts);
            &&& listed.accounts == accounts
            &&& listed.peers == router.peers
            &&& listed.state == router.state
            &&& listed.contexts == router.contexts
            &&& listed.pending == router.pending
            &&& listed.reverse_requests == router.reverse_requests
            &&& listed.failovers == router.failovers
            &&& listed.init == router.init
            &&& listed.sequence == router.sequence
        }),
{
}

// ---------------------------------------------------------------------------
// What is held and what it says
// ---------------------------------------------------------------------------

/// What waits for an answer says what it holds, field by field.
pub proof fn waiting_requests_say_what_they_hold(
    pending: PendingRequest,
    init: InitState,
    action: ResumeAction,
    resume_request: Json,
)
    ensures
        pending@.account_id == pending.account_id@,
        pending@.method == pending.method@,
        pending@.original == pending.original@,
        pending.session_id matches Some(id) ==> pending@.session_id == Some(id@),
        pending.session_id is None ==> pending@.session_id is None,
        init@.request_id == init.request_id@,
        init@.waiting == init.waiting@.dom(),
        init@.primary == init.primary@,
        init.primary_response matches Some(response) ==> init@.primary_response == Some(response@),
        init.primary_response is None ==> init@.primary_response is None,
        action@.account_id == action.account_id@,
        action@.session_id == action.session_id@,
        action@.original_request == action.original_request@,
        action@.client_id_key == action.client_id_key@,
        FailoverAction::Resume(action)@ == FailoverView::Resume(action@),
        (FailoverAction::CloseThenResume { action, resume_request })@ == (
        FailoverView::CloseThenResume { action: action@, resume_request: resume_request@ }),
{
}

/// What is done in the world says what it holds.
pub proof fn effects_say_what_they_hold(message: Json, string: String, turn: Turn, i: int)
    ensures
        Effect::Write(message)@ == EffectView::Write(message@),
        (Effect::Send { account_id: string, message })@ == (EffectView::Send {
            account_id: string@,
            message: message@,
        }),
        Effect::Save(string)@ == EffectView::Save(string@),
        Effect::MarkExhausted(string)@ == EffectView::MarkExhausted(string@),
        Effect::Unavailable(string)@ == EffectView::Unavailable(string@),
        forall|router: RouterView| (#[trigger] turn.of(router)).router == router,
        forall|router: RouterView|
            (#[trigger] turn.of(router)).effects.len() == turn.effects@.len(),
        forall|router: RouterView|
            0 <= i < turn.effects@.len() ==> (#[trigger] turn.of(router)).effects[i]
                == turn.effects@[i]@,
        forall|router: RouterView|
            (#[trigger] turn.of(router)).question == (match turn.question {
                Some(question) => Some(question@),
                None => None,
            }),
{
}

/// What is asked says what it holds.
pub proof fn questions_say_what_they_hold(
    first: String,
    second: String,
    session: Option<String>,
    message: Json,
    context: SessionContext,
    excluded: Vec<String>,
    purpose: Purpose,
    i: int,
)
    ensures
        (Purpose::Serve { method: first, session, message })@ == (PurposeView::Serve {
            method: first@,
            session: match session {
                Some(id) => Some(id@),
                None => None,
            },
            message: message@,
        }),
        (Purpose::Failover { session_id: first, owner: second, message, context })@ == (
        PurposeView::Failover {
            session_id: first@,
            owner: second@,
            message: message@,
            context: context@,
        }),
        (Question::Capacity { account_id: first, session_id: second, message })@ == (
        QuestionView::Capacity { account_id: first@, session_id: second@, message: message@ }),
        (Question::Select { excluded, purpose })@ matches QuestionView::Select {
            excluded: told,
            purpose: wanted,
        } && wanted == purpose@ && told.len() == excluded@.len() && (0 <= i < excluded@.len()
            ==> told[i] == excluded@[i]@),
{
}

/// The answer to a question for an account is the account, or when one is free again.
pub proof fn choices_say_what_they_hold(account_id: String, next_reset: Option<Timestamp>)
    ensures
        router::answer_view(Ok(account_id)) == Ok::<Seq<char>, Option<Timestamp>>(account_id@),
        router::answer_view(Err(next_reset)) == Err::<Seq<char>, Option<Timestamp>>(next_reset),
{
}

/// Tables say what they hold, key by key, and lists entry by entry.
pub proof fn tables_say_what_they_hold(
    texts: Seq<String>,
    contexts: Map<Seq<char>, SessionContext>,
    pending: Map<Seq<char>, PendingRequest>,
    asked: Map<Seq<char>, (String, Json)>,
    failovers: Map<Seq<char>, FailoverAction>,
    i: int,
    key: Seq<char>,
)
    ensures
        router::names(texts).len() == texts.len(),
        0 <= i < texts.len() ==> router::names(texts)[i] == texts[i]@,
        router::contexts_view(contexts).dom() =~= contexts.dom(),
        contexts.contains_key(key) ==> router::contexts_view(contexts)[key] == contexts[key]@,
        router::pending_view(pending).dom() =~= pending.dom(),
        pending.contains_key(key) ==> router::pending_view(pending)[key] == pending[key]@,
        router::reverse_view(asked).dom() =~= asked.dom(),
        asked.contains_key(key) ==> router::reverse_view(asked)[key] == (
            asked[key].0@,
            asked[key].1@,
        ),
        router::failovers_view(failovers).dom() =~= failovers.dom(),
        failovers.contains_key(key) ==> router::failovers_view(failovers)[key] == failovers[key]@,
{
}

// ---------------------------------------------------------------------------
// Over all steps
// ---------------------------------------------------------------------------

/// Whether an event is the answer, without an error, by which a session is deleted.
pub open spec fn deletes(router: RouterView, event: EventView, session_id: Seq<char>) -> bool {
    event matches EventView::Child { message, .. } && (message.field("id"@) matches Some(id) && {
        let key = json::compact_text(id);
        &&& router.pending.contains_key(key)
        &&& router.pending[key].method == "session/delete"@
        &&& router.pending[key].session_id == Some(session_id)
        &&& message.field("error"@) is None
    })
}

/// A session that can move can move until it is deleted: whatever else the router is told, it keeps
/// something to resume the session with.
pub proof fn movable_sessions_stay_movable(
    router: RouterView,
    event: EventView,
    session_id: Seq<char>,
)
    requires
        router.contexts.contains_key(session_id),
        !deletes(router, event, session_id),
    ensures
        laws::step(router, event).router.contexts.contains_key(session_id),
{
    methods_differ();
}

/// What a session is resumed with names that session, whatever the router was told: in a router that
/// has just started, and after every step.
pub proof fn contexts_name_a_session(router: RouterView, event: EventView)
    requires
        forall|id: Seq<char>| #[trigger]
            router.contexts.contains_key(id) ==> resumable(router.contexts[id]),
    ensures
        forall|id: Seq<char>| #[trigger]
            laws::step(router, event).router.contexts.contains_key(id) ==> resumable(
                laws::step(router, event).router.contexts[id],
            ),
{
    methods_differ();
    assert forall|id: Seq<char>, request: JsonView| resumable(
        #[trigger] protocol::resume_params_of(request, id),
    ) by {
        message_laws::contexts_keep_the_request(request, id);
    }
}

/// Whether parameters name a session and its servers.
pub open spec fn resumable(params: Map<Seq<char>, JsonView>) -> bool {
    params.contains_key("sessionId"@) && params["sessionId"@] is Text && params.contains_key(
        "mcpServers"@,
    )
}

/// Who owns a session changes only by the answer of a child: nothing that the client asks, that is
/// chosen, or that ends changes an owner.
pub proof fn only_answers_change_owners(router: RouterView, event: EventView)
    requires
        !(event matches EventView::Child { message, .. } && message.field("method"@) is None
            && message.field("id"@) is Some),
    ensures
        laws::step(router, event).router.state == router.state,
{
}

/// The version of the state never changes, and one step changes the owner of one session at most.
pub proof fn one_owner_changes_at_a_time(
    router: RouterView,
    event: EventView,
    session_id: Seq<char>,
    other: Seq<char>,
)
    requires
        session_id != other,
        laws::step(router, event).router.state.owner(session_id) != router.state.owner(session_id),
    ensures
        laws::step(router, event).router.state.owner(other) == router.state.owner(other),
        laws::step(router, event).router.state.version == router.state.version,
{
}

}
