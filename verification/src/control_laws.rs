//! What holds of the control interface: who is let in, what each request comes to, and what other
//! programs read in the answers.

use vstd::prelude::*;

use crate::control;
use crate::control::{
    AccountSnapshot, Action, ActionView, Decision, DecisionView, HttpMethod, HttpRequest,
    HttpRequestView, QuotaSnapshot, Reply, WorkerOutcome,
};
use crate::json::{Json, JsonView};
use crate::private_fs::FileStepView;
use crate::text;
use crate::text_laws;

verus! {

// ---------------------------------------------------------------------------
// Reading the answers
// ---------------------------------------------------------------------------

/// Whether a field of a tree tells a text that may be missing: the text where there is one, and
/// `null` only where there is none.
pub open spec fn tells(tree: JsonView, key: Seq<char>, string: Option<String>) -> bool {
    match string {
        Some(s) => tree.field(key) == Some(JsonView::Text(s@)),
        None => tree.field(key) == Some(JsonView::Null),
    }
}

/// Whether a tree tells a quota, and nothing more.
pub open spec fn tells_quota(tree: JsonView, quota: QuotaSnapshot) -> bool {
    &&& tree is Object
    &&& (tree->Object_0).dom() =~= set!["window"@, "usedRatio"@, "text"@, "resetAt"@]
    &&& tree.field("window"@) == Some(JsonView::Text(quota.window@))
    &&& tree.field("text"@) == Some(JsonView::Text(quota.text@))
    &&& tells(tree, "resetAt"@, quota.reset_at)
    &&& quota.used_ratio matches Some(ratio) ==> tree.field("usedRatio"@) == Some(
        JsonView::Number(ratio),
    )
    &&& quota.used_ratio is None ==> tree.field("usedRatio"@) == Some(JsonView::Null)
}

/// Whether a tree tells an account, and nothing more.
pub open spec fn tells_account(tree: JsonView, account: AccountSnapshot) -> bool {
    &&& tree is Object
    &&& (tree->Object_0).dom() =~= set![
        "id"@,
        "label"@,
        "active"@,
        "membership"@,
        "subscriptionExpiresOn"@,
        "routingEnabled"@,
        "quotas"@,
        "error"@,
    ]
    &&& tree.field("id"@) == Some(JsonView::Text(account.id@))
    &&& tree.field("label"@) == Some(JsonView::Text(account.label@))
    &&& tree.field("active"@) == Some(JsonView::Bool(account.active))
    &&& tells(tree, "membership"@, account.membership)
    &&& tells(tree, "subscriptionExpiresOn"@, account.subscription_expires_on)
    &&& tree.field("routingEnabled"@) == Some(JsonView::Bool(account.routing_enabled))
    &&& tells(tree, "error"@, account.error)
    &&& tree.field("quotas"@) matches Some(JsonView::Array(quotas)) && {
        &&& quotas.len() == account.quotas@.len()
        &&& forall|i: int|
            0 <= i < quotas.len() ==> tells_quota(#[trigger] quotas[i], account.quotas@[i])
    }
}

/// Whether a body tells accounts, in their order, and a message, and nothing more.
pub open spec fn tells_accounts(
    body: JsonView,
    accounts: Seq<AccountSnapshot>,
    message: Option<String>,
) -> bool {
    &&& body is Object
    &&& (body->Object_0).dom() =~= set!["accounts"@, "message"@]
    &&& tells(body, "message"@, message)
    &&& body.field("accounts"@) matches Some(JsonView::Array(items)) && {
        &&& items.len() == accounts.len()
        &&& forall|i: int| 0 <= i < items.len() ==> tells_account(#[trigger] items[i], accounts[i])
    }
}

proof fn names_of_fields_differ()
    ensures
        "window"@.len() == 6,
        "usedRatio"@.len() == 9,
        "text"@.len() == 4,
        "resetAt"@.len() == 7,
        "id"@.len() == 2,
        "label"@.len() == 5,
        "label"@[0] == 'l',
        "active"@.len() == 6,
        "active"@[0] == 'a',
        "membership"@.len() == 10,
        "subscriptionExpiresOn"@.len() == 21,
        "routingEnabled"@.len() == 14,
        "quotas"@.len() == 6,
        "quotas"@[0] == 'q',
        "error"@.len() == 5,
        "error"@[0] == 'e',
        "accounts"@.len() == 8,
        "message"@.len() == 7,
{
    reveal_strlit("window");
    reveal_strlit("usedRatio");
    reveal_strlit("text");
    reveal_strlit("resetAt");
    reveal_strlit("id");
    reveal_strlit("label");
    reveal_strlit("active");
    reveal_strlit("membership");
    reveal_strlit("subscriptionExpiresOn");
    reveal_strlit("routingEnabled");
    reveal_strlit("quotas");
    reveal_strlit("error");
    reveal_strlit("accounts");
    reveal_strlit("message");
}

/// What is told of a quota is read field by field.
pub proof fn quotas_are_read_back(quota: QuotaSnapshot)
    ensures
        tells_quota(control::quota_json(quota), quota),
{
    names_of_fields_differ();
}

/// What is told of an account is read field by field, its quotas in their order.
pub proof fn accounts_are_read_back(account: AccountSnapshot)
    ensures
        tells_account(control::account_json(account), account),
{
    names_of_fields_differ();
    let tree = control::account_json(account);
    let quotas = account.quotas@.map_values(|quota: QuotaSnapshot| control::quota_json(quota));
    assert(tree.field("quotas"@) == Some(JsonView::Array(quotas)));
    assert forall|i: int| 0 <= i < quotas.len() implies tells_quota(
        #[trigger] quotas[i],
        account.quotas@[i],
    ) by {
        quotas_are_read_back(account.quotas@[i]);
    }
}

/// The answer that lists accounts is read back account by account, each at its position.
pub proof fn answers_are_read_back(accounts: Vec<AccountSnapshot>, message: Option<String>)
    ensures
        ({
            let answer = control::worker_answer(
                WorkerOutcome::Answered(Reply::Accounts { accounts, message }),
            );
            &&& answer.0 == 200
            &&& tells_accounts(answer.1, accounts@, message)
        }),
        tells_accounts(control::accounts_body(accounts@, message), accounts@, message),
{
    names_of_fields_differ();
    let body = control::accounts_body(accounts@, message);
    let items = accounts@.map_values(|account: AccountSnapshot| control::account_json(account));
    assert(body.field("accounts"@) == Some(JsonView::Array(items)));
    assert forall|i: int| 0 <= i < items.len() implies tells_account(
        #[trigger] items[i],
        accounts@[i],
    ) by {
        accounts_are_read_back(accounts@[i]);
    }
}

/// What a text that may be missing says.
pub open spec fn said(string: Option<String>) -> Option<Seq<char>> {
    match string {
        Some(s) => Some(s@),
        None => None,
    }
}

/// Two lists of accounts have the same answer only where they tell the same of each account: lists
/// that differ in one membership, or in anything else that is told, are told apart.
pub proof fn different_accounts_are_told_apart(
    left: Vec<AccountSnapshot>,
    right: Vec<AccountSnapshot>,
    left_message: Option<String>,
    right_message: Option<String>,
    i: int,
    j: int,
)
    requires
        control::worker_answer(
            WorkerOutcome::Answered(Reply::Accounts { accounts: left, message: left_message }),
        ) == control::worker_answer(
            WorkerOutcome::Answered(Reply::Accounts { accounts: right, message: right_message }),
        ),
    ensures
        left@.len() == right@.len(),
        said(left_message) == said(right_message),
        0 <= i < left@.len() ==> ({
            let a = left@[i];
            let b = right@[i];
            &&& a.id@ == b.id@
            &&& a.label@ == b.label@
            &&& a.active == b.active
            &&& said(a.membership) == said(b.membership)
            &&& said(a.subscription_expires_on) == said(b.subscription_expires_on)
            &&& a.routing_enabled == b.routing_enabled
            &&& said(a.error) == said(b.error)
            &&& a.quotas@.len() == b.quotas@.len()
            &&& 0 <= j < a.quotas@.len() ==> {
                &&& a.quotas@[j].window@ == b.quotas@[j].window@
                &&& a.quotas@[j].used_ratio == b.quotas@[j].used_ratio
                &&& a.quotas@[j].text@ == b.quotas@[j].text@
                &&& said(a.quotas@[j].reset_at) == said(b.quotas@[j].reset_at)
            }
        }),
{
    answers_are_read_back(left, left_message);
    answers_are_read_back(right, right_message);
    let body = control::accounts_body(left@, left_message);
    let items = body.field("accounts"@)->0->Array_0;
    assert(tells_accounts(body, left@, left_message));
    assert(tells_accounts(body, right@, right_message));
    if 0 <= i < left@.len() {
        assert(tells_account(items[i], left@[i]));
        assert(tells_account(items[i], right@[i]));
        let quotas = items[i].field("quotas"@)->0->Array_0;
        if 0 <= j < left@[i].quotas@.len() {
            assert(tells_quota(quotas[j], left@[i].quotas@[j]));
            assert(tells_quota(quotas[j], right@[i].quotas@[j]));
        }
    }
}

/// Whether a body tells an error, and nothing more.
pub open spec fn tells_error(body: JsonView, words: Seq<char>) -> bool {
    &&& body is Object
    &&& (body->Object_0).dom() =~= set!["error"@]
    &&& body.field("error"@) == Some(JsonView::Text(words))
}

/// An application that is gone, that is late, or that reports an error is told apart by the status,
/// and its own words are told.
pub proof fn failures_are_told(error: String)
    ensures
        control::worker_answer(WorkerOutcome::Unavailable).0 == 503,
        tells_error(
            control::worker_answer(WorkerOutcome::Unavailable).1,
            "application worker unavailable"@,
        ),
        control::worker_answer(WorkerOutcome::TimedOut).0 == 504,
        tells_error(
            control::worker_answer(WorkerOutcome::TimedOut).1,
            "application worker timeout"@,
        ),
        control::worker_answer(WorkerOutcome::Answered(Reply::Error(error))).0 == 400,
        tells_error(
            control::worker_answer(WorkerOutcome::Answered(Reply::Error(error))).1,
            error@,
        ),
{
}

/// Every answer is JSON, is not to be stored, tells nobody where it came from, and is not to be taken
/// for anything else.
pub proof fn answers_are_private()
    ensures
        control::response_headers().len() == 4,
        control::response_headers()[0] == ("Content-Type"@, "application/json; charset=utf-8"@),
        control::response_headers()[1] == ("Cache-Control"@, "no-store"@),
        control::response_headers()[2] == ("Referrer-Policy"@, "no-referrer"@),
        control::response_headers()[3] == ("X-Content-Type-Options"@, "nosniff"@),
        control::MAX_BODY_BYTES == 16 * 1024,
        control::REPLY_SECONDS == 60,
{
}

// ---------------------------------------------------------------------------
// Who may ask
// ---------------------------------------------------------------------------

/// Whether a header is the one that carries the token, in whatever case its name is written.
pub open spec fn is_token_header(header: (Seq<char>, Seq<char>)) -> bool {
    text::lowered_ascii(header.0) == text::lowered_ascii("X-Kimi-Router-Token"@)
}

/// Whether the first header for the token has it as its value.
pub open spec fn shows_token(headers: Seq<(Seq<char>, Seq<char>)>, token: Seq<char>) -> bool {
    exists|i: int|
        {
            &&& 0 <= i < headers.len()
            &&& is_token_header(#[trigger] headers[i])
            &&& headers[i].1 == token
            &&& forall|j: int| 0 <= j < i ==> !is_token_header(#[trigger] headers[j])
        }
}

/// A request carries the token exactly where the first header of that name has it as its value,
/// character by character.
pub proof fn token_is_in_its_header(headers: Seq<(Seq<char>, Seq<char>)>, token: Seq<char>)
    ensures
        control::carries_token(headers, token) <==> shows_token(headers, token),
    decreases headers.len(),
{
    if headers.len() > 0 {
        let rest = headers.drop_first();
        token_is_in_its_header(rest, token);
        if is_token_header(headers[0]) {
            if headers[0].1 == token {
                assert(shows_token(headers, token));
            }
        } else {
            if shows_token(rest, token) {
                let i = choose|i: int|
                    {
                        &&& 0 <= i < rest.len()
                        &&& is_token_header(#[trigger] rest[i])
                        &&& rest[i].1 == token
                        &&& forall|j: int| 0 <= j < i ==> !is_token_header(#[trigger] rest[j])
                    };
                assert(headers[i + 1] == rest[i]);
                assert forall|j: int| 0 <= j < i + 1 implies !is_token_header(
                    #[trigger] headers[j],
                ) by {
                    if j > 0 {
                        assert(headers[j] == rest[j - 1]);
                    }
                }
                assert(shows_token(headers, token));
            }
            if shows_token(headers, token) {
                let i = choose|i: int|
                    {
                        &&& 0 <= i < headers.len()
                        &&& is_token_header(#[trigger] headers[i])
                        &&& headers[i].1 == token
                        &&& forall|j: int| 0 <= j < i ==> !is_token_header(#[trigger] headers[j])
                    };
                assert(i > 0);
                assert(rest[i - 1] == headers[i]);
                assert forall|j: int| 0 <= j < i - 1 implies !is_token_header(
                    #[trigger] rest[j],
                ) by {
                    assert(rest[j] == headers[j + 1]);
                }
                assert(shows_token(rest, token));
            }
        }
    }
}

// ---------------------------------------------------------------------------
// What each request comes to
// ---------------------------------------------------------------------------

proof fn query_is_found(path: Seq<char>, query: Seq<char>, from: int)
    requires
        forall|i: int| 0 <= i < path.len() ==> #[trigger] path[i] != '?',
        query.len() > 0 ==> query[0] == '?',
        0 <= from <= path.len(),
    ensures
        control::query_start(path + query, from) == path.len(),
    decreases path.len() - from,
{
    let url = path + query;
    if from < path.len() {
        assert(url[from] == path[from]);
        query_is_found(path, query, from + 1);
    } else if query.len() > 0 {
        assert(url[from] == query[0]);
    }
}

/// The path of an address is what stands before the first question mark, and all of it where there
/// is none.
pub proof fn paths_end_before_the_query(path: Seq<char>, query: Seq<char>)
    requires
        forall|i: int| 0 <= i < path.len() ==> #[trigger] path[i] != '?',
        query.len() > 0 ==> query[0] == '?',
    ensures
        control::path_of(path + query) == path,
{
    query_is_found(path, query, 0);
    assert((path + query).take(path.len() as int) =~= path);
}

/// Whether a text is an id of an account: up to 160 letters, digits, hyphens, underscores and dots.
pub open spec fn reads_as_id(id: Seq<char>) -> bool {
    &&& 1 <= id.len() <= 160
    &&& forall|i: int|
        0 <= i < id.len() ==> ({
            let c = #[trigger] id[i];
            ||| 'a' <= c <= 'z'
            ||| 'A' <= c <= 'Z'
            ||| '0' <= c <= '9'
            ||| c == '-'
            ||| c == '_'
            ||| c == '.'
        })
}

/// An id of an account is made of these characters, at least one and at most 160 of them.
pub proof fn ids_are_made_of_safe_characters(id: Seq<char>)
    ensures
        control::is_account_id(id) <==> reads_as_id(id),
{
    if control::is_account_id(id) {
        assert forall|i: int| 0 <= i < id.len() implies ({
            let c = #[trigger] id[i];
            ||| 'a' <= c <= 'z'
            ||| 'A' <= c <= 'Z'
            ||| '0' <= c <= '9'
            ||| c == '-'
            ||| c == '_'
            ||| c == '.'
        }) by {
            assert(control::is_id_char(id[i]));
        }
    }
    if reads_as_id(id) {
        assert forall|i: int| 0 <= i < id.len() implies control::is_id_char(#[trigger] id[i]) by {
        }
    }
}

/// A path asks to activate an account exactly where it is the account's id between these two parts.
pub proof fn activations_name_an_account(path: Seq<char>, id: Seq<char>)
    ensures
        (control::activation_in(path) == Some(id)) <==> reads_as_id(id) && path == "/v1/accounts/"@
            + id + "/activate"@,
{
    let prefix = "/v1/accounts/"@;
    let suffix = "/activate"@;
    ids_are_made_of_safe_characters(id);
    if path == prefix + id + suffix {
        let rest = path.skip(prefix.len() as int);
        assert(path.take(prefix.len() as int) =~= prefix);
        assert(rest =~= id + suffix);
        assert(rest.skip(rest.len() - suffix.len()) =~= suffix);
        assert(rest.take(rest.len() - suffix.len()) =~= id);
    }
    if control::activation_in(path) == Some(id) {
        let rest = path.skip(prefix.len() as int);
        assert(path =~= path.take(prefix.len() as int) + rest);
        assert(rest =~= rest.take(rest.len() - suffix.len()) + rest.skip(
            rest.len() - suffix.len(),
        ));
        assert(path =~= prefix + id + suffix);
    }
}

/// Whether a decision is to answer with an error.
pub open spec fn answers_error(
    decision: DecisionView,
    status: u16,
    words: Seq<char>,
    drain: bool,
) -> bool {
    decision matches DecisionView::Respond { status: told, body, drain: read } && {
        &&& told == status
        &&& tells_error(body, words)
        &&& read == drain
    }
}

/// Anybody is told whether the service is up; whoever asks for anything else without the token is
/// refused.
pub proof fn only_health_is_told_to_anybody(request: HttpRequestView, token: Seq<char>)
    ensures
        request.method == HttpMethod::Get && control::path_of(request.url) == "/v1/health"@ ==> (
        control::decision(request, token) matches DecisionView::Respond { status, body, drain } && {
            &&& status == 200
            &&& body is Object
            &&& (body->Object_0).dom() =~= set!["ok"@]
            &&& body.field("ok"@) == Some(JsonView::Bool(true))
            &&& !drain
        }),
        !(request.method == HttpMethod::Get && control::path_of(request.url) == "/v1/health"@)
            && !shows_token(request.headers, token) ==> answers_error(
            control::decision(request, token),
            401,
            "unauthorized"@,
            false,
        ),
{
    token_is_in_its_header(request.headers, token);
}

/// With the token each request comes to what its method and its path say: the accounts are listed,
/// read again, or one of them is activated; everything else is refused, or told that there is nothing
/// to say to it.
pub proof fn requests_come_to_what_they_ask(
    request: HttpRequestView,
    token: Seq<char>,
    id: Seq<char>,
)
    requires
        shows_token(request.headers, token),
    ensures
        ({
            let path = control::path_of(request.url);
            let decision = control::decision(request, token);
            &&& request.method == HttpMethod::Get && path == "/v1/accounts"@ ==> decision
                == DecisionView::Perform(ActionView::List)
            &&& request.method == HttpMethod::Get && path != "/v1/accounts"@ && path
                != "/v1/health"@ ==> answers_error(decision, 405, "method not allowed"@, true)
            &&& request.method == HttpMethod::Post && path == "/v1/refresh"@ ==> decision
                == DecisionView::Perform(ActionView::Refresh)
            &&& request.method == HttpMethod::Post && path == "/v1/accounts/"@ + id + "/activate"@
                && reads_as_id(id) ==> decision == DecisionView::Perform(ActionView::Activate(id))
            &&& request.method == HttpMethod::Post && path != "/v1/refresh"@ && (forall|
                other: Seq<char>,
            |
                reads_as_id(other) ==> path != #[trigger] ("/v1/accounts/"@ + other
                    + "/activate"@)) ==> answers_error(decision, 404, "not found"@, true)
            &&& request.method == HttpMethod::Options ==> (decision matches DecisionView::Respond {
                status,
                body,
                drain,
            } && status == 204 && body == JsonView::Object(Map::empty()) && !drain)
            &&& request.method == HttpMethod::Other ==> answers_error(
                decision,
                405,
                "method not allowed"@,
                true,
            )
        }),
{
    reveal_strlit("/v1/accounts");
    reveal_strlit("/v1/accounts/");
    reveal_strlit("/v1/refresh");
    reveal_strlit("/v1/health");
    assert("/v1/accounts"@.len() != "/v1/health"@.len());
    token_is_in_its_header(request.headers, token);
    let path = control::path_of(request.url);
    activations_name_an_account(path, id);
    if request.method == HttpMethod::Post && path == "/v1/accounts/"@ + id + "/activate"@ {
        assert(path[4] == "/v1/accounts/"@[4]);
        assert("/v1/accounts/"@[4] == 'a');
        assert("/v1/refresh"@[4] == 'r');
    }
    if let Some(other) = control::activation_in(path) {
        activations_name_an_account(path, other);
    }
}

/// What is read of a request and decided about it says what it holds.
pub proof fn requests_say_what_they_hold(
    request: HttpRequest,
    id: String,
    action: Action,
    status: u16,
    body: Json,
    drain: bool,
    i: int,
)
    ensures
        request@.method == request.method,
        request@.url == request.url@,
        request@.headers.len() == request.headers@.len(),
        0 <= i < request.headers@.len() ==> request@.headers[i] == (
            request.headers@[i].0@,
            request.headers@[i].1@,
        ),
        Action::List@ == ActionView::List,
        Action::Refresh@ == ActionView::Refresh,
        Action::Activate(id)@ == ActionView::Activate(id@),
        Decision::Perform(action)@ == DecisionView::Perform(action@),
        (Decision::Respond { status, body, drain })@ == (DecisionView::Respond {
            status,
            body: body@,
            drain,
        }),
{
}

// ---------------------------------------------------------------------------
// The token and the address
// ---------------------------------------------------------------------------

/// Whether a text is 256 bits in hexadecimal digits.
pub open spec fn reads_as_token(token: Seq<char>) -> bool {
    &&& token.len() == 64
    &&& forall|i: int|
        0 <= i < token.len() ==> ({
            let c = #[trigger] token[i];
            ||| '0' <= c <= '9'
            ||| 'a' <= c <= 'f'
            ||| 'A' <= c <= 'F'
        })
}

/// A file holds a token where it is 64 hexadecimal digits with nothing but white space around them;
/// that token is then found.
pub proof fn tokens_are_found_between_white_space(
    lead: Seq<char>,
    core: Seq<char>,
    trail: Seq<char>,
)
    requires
        text_laws::is_blank(lead),
        text_laws::is_blank(trail),
        core.len() > 0 ==> !text::is_white(core[0]) && !text::is_white(core.last()),
    ensures
        control::token_in(lead + core + trail) == (if reads_as_token(core) {
            Some(core)
        } else {
            None
        }),
{
    text_laws::trimming_takes_off_white_space(lead, core, trail);
    if control::is_token(core) {
        assert forall|i: int| 0 <= i < core.len() implies ({
            let c = #[trigger] core[i];
            ||| '0' <= c <= '9'
            ||| 'a' <= c <= 'f'
            ||| 'A' <= c <= 'F'
        }) by {
            assert(text::is_hex_digit(core[i]));
        }
    }
    if reads_as_token(core) {
        assert forall|i: int| 0 <= i < core.len() implies text::is_hex_digit(#[trigger] core[i]) by {
        }
        assert(control::is_token(core));
    }
}

/// The number that a hexadecimal digit in lower case stands for.
pub open spec fn digit_value(c: char) -> int {
    if '0' <= c <= '9' {
        c as u32 - 0x30
    } else if 'a' <= c <= 'f' {
        c as u32 - 0x61 + 10
    } else {
        -1
    }
}

/// Whether the two digits of a byte say it.
pub open spec fn digits_say(bytes: Seq<u8>, i: int) -> bool {
    let high = digit_value(control::hex_text(bytes)[2 * i]);
    let low = digit_value(control::hex_text(bytes)[2 * i + 1]);
    0 <= high < 16 && 0 <= low < 16 && 16 * high + low == bytes[i]
}

/// Each byte is written as two digits in lower case, the higher one first, and is read from them.
pub proof fn bytes_are_read_from_their_digits(bytes: Seq<u8>, i: int)
    ensures
        control::hex_text(bytes).len() == 2 * bytes.len(),
        0 <= i < bytes.len() ==> digits_say(bytes, i),
{
    if 0 <= i < bytes.len() {
        assert((2 * i) / 2 == i);
        assert((2 * i + 1) / 2 == i);
        assert((2 * i) % 2 == 0);
        assert((2 * i + 1) % 2 == 1);
        let high = bytes[i] as int / 16;
        let low = bytes[i] as int % 16;
        assert(0 <= high < 16);
        assert(0 <= low < 16);
        assert(control::hex_text(bytes)[2 * i] == control::hex_char(high));
        assert(control::hex_text(bytes)[2 * i + 1] == control::hex_char(low));
    }
}

/// A token that is there is guarded; a new one is written beside its file with the end of a line
/// behind it, guarded before it takes its place, and guarded there. Where files have no modes there
/// is nothing to guard.
pub proof fn tokens_are_guarded(token: Seq<char>, process_id: u32)
    ensures
        control::keep_steps(true).len() == 1,
        control::keep_steps(true)[0] == (FileStepView::RestrictFile { mode: 0o600 }),
        control::keep_steps(false).len() == 0,
        ({
            let steps = control::install_steps(token, process_id, true);
            &&& steps.len() == 4
            &&& steps[0] == (FileStepView::WriteTemporary {
                extension: "tmp-"@ + text::decimal(process_id as nat),
                contents: token.push('\n'),
            })
            &&& steps[1] == (FileStepView::RestrictTemporary { mode: 0o600 })
            &&& steps[2] == FileStepView::RenameTemporary
            &&& steps[3] == (FileStepView::RestrictFile { mode: 0o600 })
        }),
        ({
            let steps = control::install_steps(token, process_id, false);
            &&& steps.len() == 2
            &&& steps[0] == (FileStepView::WriteTemporary {
                extension: "tmp-"@ + text::decimal(process_id as nat),
                contents: token.push('\n'),
            })
            &&& steps[1] == FileStepView::RenameTemporary
        }),
{
}

/// The document for other programs says the address of the service and the name of the token's file,
/// and nothing more: the token is not in it.
pub proof fn endpoint_says_where_but_not_the_token(address: Seq<char>)
    ensures
        ({
            let tree = control::endpoint_json(control::base_url_of(address));
            &&& tree is Object
            &&& (tree->Object_0).dom() =~= set!["baseUrl"@, "tokenFile"@]
            &&& tree.field("baseUrl"@) == Some(JsonView::Text("http://"@ + address + "/v1"@))
            &&& tree.field("tokenFile"@) == Some(JsonView::Text("control-token"@))
        }),
{
    reveal_strlit("baseUrl");
    reveal_strlit("tokenFile");
    assert("baseUrl"@.len() != "tokenFile"@.len());
}

}
