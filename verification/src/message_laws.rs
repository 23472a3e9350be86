//! What holds of the messages: what is read out of them, and what stands in those that are made.

use vstd::prelude::*;

use crate::clock;
use crate::clock::Timestamp;
use crate::json;
use crate::json::{Json, JsonView};
use crate::protocol;
use crate::protocol::SessionContext;
use crate::text;

verus! {

// ---------------------------------------------------------------------------
// Trees
// ---------------------------------------------------------------------------

/// A field that was set is read as it was set, every other field as before; what is no object has no
/// fields and takes none.
pub proof fn fields_are_read_as_set(
    fields: Map<Seq<char>, JsonView>,
    key: Seq<char>,
    value: JsonView,
    other: Seq<char>,
    tree: JsonView,
)
    ensures
        JsonView::Object(fields).field(other) == (if fields.contains_key(other) {
            Some(fields[other])
        } else {
            None
        }),
        JsonView::Object(fields).with_field(key, value).field(key) == Some(value),
        other != key ==> JsonView::Object(fields).with_field(key, value).field(other)
            == JsonView::Object(fields).field(other),
        !(tree is Object) ==> tree.field(key) is None && tree.with_field(key, value) == tree,
{
}

/// A field of a field is read through both.
pub proof fn inner_fields_are_read(tree: JsonView, outer: Seq<char>, inner: Seq<char>, value: JsonView)
    ensures
        (tree.inner_field(outer, inner) == Some(value)) <==> holds_at(tree, outer, inner, value),
{
}

/// Whether a tree is an object with an object in one field, in which another field has a value.
pub open spec fn holds_at(
    tree: JsonView,
    outer: Seq<char>,
    inner: Seq<char>,
    value: JsonView,
) -> bool {
    match tree {
        JsonView::Object(fields) => fields.contains_key(outer) && (match fields[outer] {
            JsonView::Object(inside) => inside.contains_key(inner) && inside[inner] == value,
            _ => false,
        }),
        _ => false,
    }
}

/// Only a text is read as a text.
pub proof fn only_texts_are_read_as_texts(tree: JsonView, string: Seq<char>)
    ensures
        json::text_in(Some(JsonView::Text(string))) == Some(string),
        !(tree is Text) ==> json::text_in(Some(tree)) is None,
        json::text_in(None) is None,
        json::or_null(Some(tree)) == tree,
        json::or_null(None) == JsonView::Null,
{
}

/// A text or a tree that may be missing says what is there.
pub proof fn missing_values_are_told(string: String, tree: Json)
    ensures
        protocol::option_text(Some(string)) == Some(string@),
        protocol::option_text(None) is None,
        json::option_view(Some(tree)) == Some(tree@),
        json::option_view(None) is None,
{
}

/// The last field of a key counts, and only the fields that are there.
pub proof fn last_field_counts(fields: Seq<(String, Json)>, entry: (String, Json), other: Seq<char>)
    ensures
        json::fields_view(Seq::<(String, Json)>::empty()) == Map::<Seq<char>, JsonView>::empty(),
        json::fields_view(fields.push(entry)).contains_key(entry.0@),
        json::fields_view(fields.push(entry))[entry.0@] == entry.1@,
        other != entry.0@ ==> json::fields_view(fields.push(entry)).contains_key(other)
            == json::fields_view(fields).contains_key(other),
        other != entry.0@ && json::fields_view(fields).contains_key(other) ==> json::fields_view(
            fields.push(entry),
        )[other] == json::fields_view(fields)[other],
{
    assert(fields.push(entry).drop_last() =~= fields);
    assert(fields.push(entry).last() == entry);
}

/// A tree says what it was made of.
pub proof fn trees_say_what_they_hold(
    truth: bool,
    number: serde_json::Number,
    string: String,
    items: Vec<Json>,
    fields: Vec<(String, Json)>,
    i: int,
)
    ensures
        Json::Null@ == JsonView::Null,
        Json::Bool(truth)@ == JsonView::Bool(truth),
        Json::Number(number)@ == JsonView::Number(number),
        Json::Text(string)@ == JsonView::Text(string@),
        Json::Array(items)@ is Array,
        (Json::Array(items)@->Array_0).len() == items@.len(),
        0 <= i < items@.len() ==> (Json::Array(items)@->Array_0)[i] == items@[i]@,
        Json::Object(fields)@ == JsonView::Object(json::fields_view(fields@)),
{
}

/// Fields that are listed keep their order, each with its key; what was parsed says the tree or the
/// words of the error.
pub proof fn listed_fields_keep_their_order(
    fields: Seq<(String, Json)>,
    i: int,
    tree: Json,
    words: String,
    raw: Seq<char>,
    said: JsonView,
)
    ensures
        json::listed_fields(fields).len() == fields.len(),
        0 <= i < fields.len() ==> json::listed_fields(fields)[i] == (fields[i].0@, fields[i].1@),
        json::parsed_view(Ok(tree)) == Ok::<JsonView, Seq<char>>(tree@),
        json::parsed_view(Err(words)) == Err::<JsonView, Seq<char>>(words@),
        json::reads_as(raw, said) <==> json::parsed_json(raw) is Ok && json::parsed_json(raw)->Ok_0
            == said,
        json::no_fields().dom() =~= Set::empty(),
        json::distinct_keys(fields) <==> forall|j: int, k: int|
            0 <= j < fields.len() && 0 <= k < fields.len() && j != k ==> (
            #[trigger] fields[j]).0@ != (#[trigger] fields[k]).0@,
{
}

/// A number that is an integer of 64 bits is exact at any depth; an array or an object is exact only at
/// a depth of its own, at most 127 of which can be read.
pub proof fn exact_trees_are_not_too_deep(
    depth: nat,
    number: int,
    json_number: serde_json::Number,
    items: Seq<JsonView>,
    fields: Map<Seq<char>, JsonView>,
)
    ensures
        json::nesting_limit() == 127,
        i64::MIN <= number <= u64::MAX ==> JsonView::Number(json::integer_number(number)).is_exact(
            depth,
        ),
        JsonView::Number(json_number).is_exact(depth) ==> exists|n: int|
            i64::MIN <= n <= u64::MAX && json_number == #[trigger] json::integer_number(n),
        !JsonView::Array(items).is_exact(0),
        !JsonView::Object(fields).is_exact(0),
{
}

/// What stands in an exact tree is exact, one level further down.
pub proof fn exact_trees_hold_exact_trees(tree: JsonView, depth: nat, i: int, key: Seq<char>)
    requires
        tree.is_exact(depth),
    ensures
        match tree {
            JsonView::Array(items) => depth > 0 && (0 <= i < items.len() ==> items[i].is_exact(
                (depth - 1) as nat,
            )),
            JsonView::Object(fields) => depth > 0 && (fields.contains_key(key)
                ==> fields[key].is_exact((depth - 1) as nat)),
            _ => true,
        },
{
}

// ---------------------------------------------------------------------------
// Reading messages
// ---------------------------------------------------------------------------

/// A request speaks of the session that its parameter `sessionId` names, a response of the one that
/// `sessionId` in its result names, and neither of any other.
pub proof fn sessions_are_read_from_their_place(message: JsonView, session_id: Seq<char>)
    ensures
        (protocol::session_in(message) == Some(session_id)) <==> holds_at(
            message,
            "params"@,
            "sessionId"@,
            JsonView::Text(session_id),
        ),
        (protocol::result_session_in(message) == Some(session_id)) <==> holds_at(
            message,
            "result"@,
            "sessionId"@,
            JsonView::Text(session_id),
        ),
{
}

/// The method of a message is the text of its field `method`, and empty where that is no text.
pub proof fn methods_are_read_from_their_place(message: JsonView)
    ensures
        match message {
            JsonView::Object(fields) => if fields.contains_key("method"@) {
                match fields["method"@] {
                    JsonView::Text(method) => protocol::method_in(message) == method,
                    _ => protocol::method_in(message).len() == 0,
                }
            } else {
                protocol::method_in(message).len() == 0
            },
            _ => protocol::method_in(message).len() == 0,
        },
{
}

/// Whether the whole error, written on one line and in lower case, holds a word.
pub open spec fn error_holds(error: JsonView, word: Seq<char>) -> bool {
    exists|before: Seq<char>, behind: Seq<char>| #[trigger]
        (before + word + behind) == text::lowered_ascii(json::compact_text(error))
}

proof fn held_parts_are_between(whole: Seq<char>, part: Seq<char>)
    ensures
        text::holds_part(whole, part) <==> exists|before: Seq<char>, behind: Seq<char>| #[trigger]
            (before + part + behind) == whole,
{
    if text::holds_part(whole, part) {
        let i = choose|i: int| #[trigger] text::part_at(whole, part, i);
        let before = whole.take(i);
        let behind = whole.skip(i + part.len());
        assert(before + part + behind =~= whole);
    }
    if exists|before: Seq<char>, behind: Seq<char>| #[trigger] (before + part + behind) == whole {
        let (before, behind) = choose|before: Seq<char>, behind: Seq<char>| #[trigger]
            (before + part + behind) == whole;
        let i = before.len() as int;
        assert(whole.subrange(i, i + part.len()) =~= part);
        assert(text::part_at(whole, part, i));
    }
}

/// A response is taken for spent quota exactly where it has an error, and the error as a whole,
/// whatever it is made of, holds one of the seven words, in whatever case.
pub proof fn quota_is_told_by_the_whole_error(response: JsonView)
    ensures
        protocol::is_quota_error(response) <==> (match response {
            JsonView::Object(fields) => fields.contains_key("error"@) && ({
                let error = fields["error"@];
                ||| error_holds(error, "usage limit"@)
                ||| error_holds(error, "quota exhausted"@)
                ||| error_holds(error, "quota_exhausted"@)
                ||| error_holds(error, "resource_exhausted"@)
                ||| error_holds(error, "rate limit exceeded"@)
                ||| error_holds(error, "status 429"@)
                ||| error_holds(error, "http 429"@)
            }),
            _ => false,
        }),
{
    if let Some(error) = response.field("error"@) {
        let whole = text::lowered_ascii(json::compact_text(error));
        held_parts_are_between(whole, "usage limit"@);
        held_parts_are_between(whole, "quota exhausted"@);
        held_parts_are_between(whole, "quota_exhausted"@);
        held_parts_are_between(whole, "resource_exhausted"@);
        held_parts_are_between(whole, "rate limit exceeded"@);
        held_parts_are_between(whole, "status 429"@);
        held_parts_are_between(whole, "http 429"@);
        let words = protocol::quota_words();
        assert(words.len() == 7);
        assert(words[0] == "usage limit"@);
        assert(words[1] == "quota exhausted"@);
        assert(words[2] == "quota_exhausted"@);
        assert(words[3] == "resource_exhausted"@);
        assert(words[4] == "rate limit exceeded"@);
        assert(words[5] == "status 429"@);
        assert(words[6] == "http 429"@);
        if protocol::is_quota_error(response) {
            let i = choose|i: int|
                0 <= i < words.len() && text::holds_part(whole, #[trigger] words[i]);
            assert(text::holds_part(whole, words[i]));
            assert(i == 0 || i == 1 || i == 2 || i == 3 || i == 4 || i == 5 || i == 6);
        }
    }
}

/// Two responses with the same error are both taken for spent quota or neither is, whatever else
/// stands in them.
pub proof fn only_the_error_tells_of_quota(response: JsonView, key: Seq<char>, value: JsonView)
    requires
        key != "error"@,
    ensures
        protocol::is_quota_error(response.with_field(key, value)) == protocol::is_quota_error(
            response,
        ),
{
}

// ---------------------------------------------------------------------------
// The answer to `initialize`
// ---------------------------------------------------------------------------

/// The router names itself as the agent.
pub proof fn router_names_itself()
    ensures
        protocol::agent_info() is Object,
        (protocol::agent_info()->Object_0).dom() =~= set!["name"@, "version"@],
        protocol::agent_info().field("name"@) == Some(JsonView::Text("Kimi Subscription Router"@)),
        protocol::agent_info().field("version"@) == Some(JsonView::Text("0.1.0"@)),
{
    reveal_strlit("name");
    reveal_strlit("version");
    assert("name"@.len() != "version"@.len());
}

/// In an answer to `initialize` with a result object the router offers no way to log in, and names
/// itself as the agent.
pub proof fn initialize_is_answered_by_the_router(
    response: Map<Seq<char>, JsonView>,
    result: Map<Seq<char>, JsonView>,
)
    requires
        response.contains_key("result"@),
        response["result"@] == JsonView::Object(result),
    ensures
        holds_at(
            protocol::normalized(JsonView::Object(response)),
            "result"@,
            "authMethods"@,
            JsonView::Array(Seq::empty()),
        ),
        holds_at(
            protocol::normalized(JsonView::Object(response)),
            "result"@,
            "agentInfo"@,
            protocol::agent_info(),
        ),
{
    reveal_strlit("authMethods");
    reveal_strlit("agentInfo");
    assert("authMethods"@.len() != "agentInfo"@.len());
}

/// Of an answer to `initialize`, all stays but the ways to log in and the name of the agent; an
/// answer without a result object stays whole.
pub proof fn initialize_keeps_the_rest(response: JsonView, key: Seq<char>)
    ensures
        key != "result"@ ==> protocol::normalized(response).field(key) == response.field(key),
        key != "authMethods"@ && key != "agentInfo"@ ==> protocol::normalized(
            response,
        ).inner_field("result"@, key) == response.inner_field("result"@, key),
        !(response.field("result"@) matches Some(result) && result is Object)
            ==> protocol::normalized(response) == response,
{
}

// ---------------------------------------------------------------------------
// Replies
// ---------------------------------------------------------------------------

/// Whether a message is a reply that reports an error, and nothing more.
pub open spec fn reports(
    reply: JsonView,
    id: JsonView,
    code: int,
    message: Seq<char>,
    data: Option<JsonView>,
) -> bool {
    &&& reply is Object
    &&& (reply->Object_0).dom() =~= set!["jsonrpc"@, "id"@, "error"@]
    &&& reply.field("jsonrpc"@) == Some(JsonView::Text("2.0"@))
    &&& reply.field("id"@) == Some(id)
    &&& reply.field("error"@) matches Some(error) && {
        &&& error is Object
        &&& error.field("code"@) == Some(JsonView::Number(json::integer_number(code)))
        &&& error.field("message"@) == Some(JsonView::Text(message))
        &&& error.field("data"@) == data
        &&& data is None ==> (error->Object_0).dom() =~= set!["code"@, "message"@]
        &&& data is Some ==> (error->Object_0).dom() =~= set!["code"@, "message"@, "data"@]
    }
}

/// An error that is reported has its id, its number, its words and its data, and nothing more.
pub proof fn errors_are_reported_in_full(
    id: JsonView,
    code: int,
    message: Seq<char>,
    data: Option<JsonView>,
)
    ensures
        reports(protocol::error_reply(id, code, message, data), id, code, message, data),
{
    reveal_strlit("jsonrpc");
    reveal_strlit("id");
    reveal_strlit("error");
    reveal_strlit("code");
    reveal_strlit("message");
    reveal_strlit("data");
    assert("jsonrpc"@.len() == 7);
    assert("id"@.len() == 2);
    assert("error"@.len() == 5);
    assert("code"@[0] == 'c');
    assert("data"@[0] == 'd');
    assert("message"@.len() == 7);
}

/// The replies of the router have these numbers and words.
pub proof fn replies_have_their_numbers(
    id: Option<JsonView>,
    next_reset: Option<Timestamp>,
    words: Seq<char>,
)
    ensures
        reports(
            protocol::no_accounts_reply(id),
            if let Some(given) = id {
                given
            } else {
                JsonView::Null
            },
            -32000,
            "No routable Kimi accounts are configured."@,
            None,
        ),
        reports(
            protocol::pool_exhausted_reply(id, next_reset),
            if let Some(given) = id {
                given
            } else {
                JsonView::Null
            },
            -32042,
            "All configured Kimi accounts are depleted."@,
            Some(protocol::reset_data(next_reset)),
        ),
        protocol::reset_data(next_reset) is Object,
        (protocol::reset_data(next_reset)->Object_0).dom() =~= set!["nextReset"@],
        match next_reset {
            Some(at) => protocol::reset_data(next_reset).field("nextReset"@) == Some(
                JsonView::Text(clock::rfc3339_text(at.seconds as int, at.nanos as int)),
            ),
            None => protocol::reset_data(next_reset).field("nextReset"@) == Some(JsonView::Null),
        },
        reports(
            protocol::parse_error_reply(words),
            JsonView::Null,
            -32700,
            "Parse error: "@ + words,
            None,
        ),
{
    errors_are_reported_in_full(
        json::or_null(id),
        -32000,
        "No routable Kimi accounts are configured."@,
        None,
    );
    errors_are_reported_in_full(
        json::or_null(id),
        -32042,
        "All configured Kimi accounts are depleted."@,
        Some(protocol::reset_data(next_reset)),
    );
    errors_are_reported_in_full(JsonView::Null, -32700, "Parse error: "@ + words, None);
}

// ---------------------------------------------------------------------------
// Resuming
// ---------------------------------------------------------------------------

/// Whether parameters are those by which a session that came of a request is resumed: its id, the
/// servers of the request or none, and every other parameter of the request unchanged.
pub open spec fn resumes(
    params: Map<Seq<char>, JsonView>,
    request: JsonView,
    session_id: Seq<char>,
) -> bool {
    &&& params.contains_key("sessionId"@)
    &&& params["sessionId"@] == JsonView::Text(session_id)
    &&& params.contains_key("mcpServers"@)
    &&& match request.inner_field("params"@, "mcpServers"@) {
        Some(servers) => params["mcpServers"@] == servers,
        None => params["mcpServers"@] == JsonView::Array(Seq::empty()),
    }
    &&& forall|key: Seq<char>|
        key != "sessionId"@ && key != "mcpServers"@ ==> (#[trigger] params.contains_key(key) == (
        request.inner_field("params"@, key) is Some)) && (params.contains_key(key) ==> Some(
            params[key],
        ) == request.inner_field("params"@, key))
}

/// A session is resumed with what its request gave.
pub proof fn contexts_keep_the_request(request: JsonView, session_id: Seq<char>)
    ensures
        resumes(protocol::resume_params_of(request, session_id), request, session_id),
{
    reveal_strlit("sessionId");
    reveal_strlit("mcpServers");
    assert("sessionId"@.len() != "mcpServers"@.len());
}

/// A context says its parameters.
pub proof fn contexts_say_their_parameters(context: SessionContext)
    ensures
        context@ == json::fields_view(context.resume_params@),
{
}

/// A request of the router's own has its id, its method and its parameters, and nothing more; one
/// that names a session names nothing else.
pub proof fn own_requests_are_whole(
    id: Seq<char>,
    method: Seq<char>,
    params: Map<Seq<char>, JsonView>,
    session_id: Seq<char>,
)
    ensures
        ({
            let request = protocol::own_request(id, method, params);
            &&& request is Object
            &&& (request->Object_0).dom() =~= set!["jsonrpc"@, "id"@, "method"@, "params"@]
            &&& request.field("jsonrpc"@) == Some(JsonView::Text("2.0"@))
            &&& request.field("id"@) == Some(JsonView::Text(id))
            &&& request.field("method"@) == Some(JsonView::Text(method))
            &&& request.field("params"@) == Some(JsonView::Object(params))
        }),
        protocol::session_params(session_id).dom() =~= set!["sessionId"@],
        protocol::session_params(session_id)["sessionId"@] == JsonView::Text(session_id),
{
    reveal_strlit("jsonrpc");
    reveal_strlit("id");
    reveal_strlit("method");
    reveal_strlit("params");
    assert("method"@[0] == 'm');
    assert("params"@[0] == 'p');
    assert("jsonrpc"@.len() == 7);
    assert("id"@.len() == 2);
}

}
