//! The JSON-RPC messages of the agent protocol: what is read out of them, and the replies.

use vstd::prelude::*;

use crate::clock;
use crate::clock::Timestamp;
use crate::json;
use crate::json::{Json, JsonView};
use crate::text;

verus! {

/// The version that the router gives of itself.
pub open spec fn router_version() -> Seq<char> {
    "0.1.0"@
}

// ---------------------------------------------------------------------------
// Reading messages
// ---------------------------------------------------------------------------

/// The session that a request speaks of.
pub open spec fn session_in(message: JsonView) -> Option<Seq<char>> {
    json::text_in(message.inner_field("params"@, "sessionId"@))
}

/// The session that a response speaks of.
pub open spec fn result_session_in(message: JsonView) -> Option<Seq<char>> {
    json::text_in(message.inner_field("result"@, "sessionId"@))
}

/// The method of a message; empty where it is no text.
pub open spec fn method_in(message: JsonView) -> Seq<char> {
    match json::text_in(message.field("method"@)) {
        Some(method) => method,
        None => Seq::empty(),
    }
}

/// The words that tell of spent quota, in lower case.
pub open spec fn quota_words() -> Seq<Seq<char>> {
    seq![
        "usage limit"@,
        "quota exhausted"@,
        "quota_exhausted"@,
        "resource_exhausted"@,
        "rate limit exceeded"@,
        "status 429"@,
        "http 429"@,
    ]
}

/// Whether a text holds one of the words that tell of spent quota, in whatever case.
pub open spec fn tells_of_quota(words: Seq<char>) -> bool {
    exists|i: int|
        0 <= i < quota_words().len() && text::holds_part(
            text::lowered_ascii(words),
            #[trigger] quota_words()[i],
        )
}

/// Whether a response is an error that tells of spent quota.
pub open spec fn is_quota_error(response: JsonView) -> bool {
    match response.field("error"@) {
        Some(error) => tells_of_quota(json::compact_text(error)),
        None => false,
    }
}

fn inner_text(message: &Json, outer: &str, inner: &str) -> (string: Option<String>)
    ensures
        string is Some == json::text_in(message@.inner_field(outer@, inner@)) is Some,
        string matches Some(s) ==> json::text_in(message@.inner_field(outer@, inner@)) == Some(s@),
{
    match message.field(outer) {
        Some(tree) => tree.text_field(inner),
        None => None,
    }
}

/// The session that a request speaks of.
pub fn request_session_id(message: &Json) -> (session_id: Option<String>)
    ensures
        option_text(session_id) == session_in(message@),
{
    inner_text(message, "params", "sessionId")
}

/// The session that a response speaks of.
pub fn result_session_id(message: &Json) -> (session_id: Option<String>)
    ensures
        option_text(session_id) == result_session_in(message@),
{
    inner_text(message, "result", "sessionId")
}

/// The characters of an optional text.
pub open spec fn option_text(string: Option<String>) -> Option<Seq<char>> {
    match string {
        Some(s) => Some(s@),
        None => None,
    }
}

/// The method of a message; empty where it is no text.
pub fn request_method(message: &Json) -> (method: String)
    ensures
        method@ == method_in(message@),
{
    match message.text_field("method") {
        Some(method) => method,
        None => String::new(),
    }
}

/// The text under which what waits for an id is kept.
pub fn id_key(id: &Json) -> (key: String)
    ensures
        key@ == json::compact_text(id@),
        id@.is_exact(json::nesting_limit()) ==> json::reads_as(key@, id@),
{
    id.to_text()
}

/// Whether an error, printed on one line, tells of spent quota.
pub fn error_tells_of_quota(words: &str) -> (found: bool)
    ensures
        found == tells_of_quota(words@),
{
    let lower = text::to_ascii_lowercase(words);
    let text = lower.as_str();
    let found = text::contains(text, "usage limit") || text::contains(text, "quota exhausted")
        || text::contains(text, "quota_exhausted") || text::contains(text, "resource_exhausted")
        || text::contains(text, "rate limit exceeded") || text::contains(text, "status 429")
        || text::contains(text, "http 429");
    proof {
        let words_of = quota_words();
        assert(words_of[0] == "usage limit"@);
        assert(words_of[1] == "quota exhausted"@);
        assert(words_of[2] == "quota_exhausted"@);
        assert(words_of[3] == "resource_exhausted"@);
        assert(words_of[4] == "rate limit exceeded"@);
        assert(words_of[5] == "status 429"@);
        assert(words_of[6] == "http 429"@);
    }
    found
}

/// Whether a response is an error that tells of spent quota; no other error and no result does.
pub fn response_is_quota_exhausted(response: &Json) -> (exhausted: bool)
    ensures
        exhausted == is_quota_error(response@),
{
    match response.field("error") {
        Some(error) => {
            let words = error.to_text();
            error_tells_of_quota(words.as_str())
        },
        None => false,
    }
}

// ---------------------------------------------------------------------------
// The answer to `initialize`
// ---------------------------------------------------------------------------

/// What the router says of itself.
pub open spec fn agent_info() -> JsonView {
    JsonView::Object(Map::empty()).with_field(
        "name"@,
        JsonView::Text("Kimi Subscription Router"@),
    ).with_field("version"@, JsonView::Text(router_version()))
}

/// The answer of a child to `initialize`, with the child's ways to log in taken out and the router
/// in the place of the agent. An answer without a result object stays as it is.
pub open spec fn normalized(response: JsonView) -> JsonView {
    match response.field("result"@) {
        Some(JsonView::Object(result)) => response.with_field(
            "result"@,
            JsonView::Object(result).with_field(
                "authMethods"@,
                JsonView::Array(Seq::empty()),
            ).with_field("agentInfo"@, agent_info()),
        ),
        _ => response,
    }
}

/// Takes the child's ways to log in out of its answer to `initialize`, and puts the router in the
/// place of the agent.
pub fn normalize_initialize_response(response: &mut Json)
    ensures
        final(response)@ == normalized(old(response)@),
{
    let found = response.field_copy("result");
    match found {
        Some(Json::Object(fields)) => {
            let mut result = Json::Object(fields);
            let none: Vec<Json> = Vec::new();
            proof {
                assert(json::items_view(none@) =~= Seq::<JsonView>::empty());
            }
            result.set_field("authMethods", Json::Array(none));
            let info = Json::empty_object().and("name", Json::text("Kimi Subscription Router")).and(
                "version",
                Json::text("0.1.0"),
            );
            result.set_field("agentInfo", info);
            response.set_field("result", result);
        },
        _ => {},
    }
}

// ---------------------------------------------------------------------------
// Replies
// ---------------------------------------------------------------------------

/// The error part of a reply.
pub open spec fn error_json(code: int, message: Seq<char>, data: Option<JsonView>) -> JsonView {
    let plain = JsonView::Object(Map::empty()).with_field(
        "code"@,
        JsonView::Number(json::integer_number(code)),
    ).with_field("message"@, JsonView::Text(message));
    match data {
        Some(data) => plain.with_field("data"@, data),
        None => plain,
    }
}

/// A reply that reports an error.
pub open spec fn error_reply(
    id: JsonView,
    code: int,
    message: Seq<char>,
    data: Option<JsonView>,
) -> JsonView {
    JsonView::Object(Map::empty()).with_field("jsonrpc"@, JsonView::Text("2.0"@)).with_field(
        "id"@,
        id,
    ).with_field("error"@, error_json(code, message, data))
}

/// A reply that reports an error.
pub fn error_response(id: Json, code: i64, message: &str, data: Option<Json>) -> (reply: Json)
    ensures
        reply@ == error_reply(id@, code as int, message@, json::option_view(data)),
{
    let plain = Json::empty_object().and("code", Json::integer(code)).and(
        "message",
        Json::text(message),
    );
    let error = match data {
        Some(data) => plain.and("data", data),
        None => plain,
    };
    Json::empty_object().and("jsonrpc", Json::text("2.0")).and("id", id).and("error", error)
}

/// The reply where no account can serve.
pub open spec fn no_accounts_reply(id: Option<JsonView>) -> JsonView {
    error_reply(json::or_null(id), -32000, "No routable Kimi accounts are configured."@, None)
}

/// The reply where no account can serve.
pub fn respond_no_accounts(id: Option<Json>) -> (reply: Json)
    ensures
        reply@ == no_accounts_reply(json::option_view(id)),
{
    error_response(or_null(id), -32000, "No routable Kimi accounts are configured.", None)
}

/// The tree, or `null` where there is none.
pub fn or_null(tree: Option<Json>) -> (value: Json)
    ensures
        value@ == json::or_null(json::option_view(tree)),
{
    match tree {
        Some(tree) => tree,
        None => Json::Null,
    }
}

/// The data of the reply where all accounts are depleted: when the next one is reset, if that is
/// known.
pub open spec fn reset_data(next_reset: Option<Timestamp>) -> JsonView {
    JsonView::Object(Map::empty()).with_field(
        "nextReset"@,
        match next_reset {
            Some(at) => JsonView::Text(
                clock::rfc3339_text(at.seconds as int, at.nanos as int),
            ),
            None => JsonView::Null,
        },
    )
}

/// The reply where all accounts are depleted.
pub open spec fn pool_exhausted_reply(
    id: Option<JsonView>,
    next_reset: Option<Timestamp>,
) -> JsonView {
    error_reply(
        json::or_null(id),
        -32042,
        "All configured Kimi accounts are depleted."@,
        Some(reset_data(next_reset)),
    )
}

/// The reply where all accounts are depleted.
pub fn respond_pool_exhausted(id: Option<Json>, next_reset: Option<Timestamp>) -> (reply: Json)
    requires
        next_reset matches Some(at) ==> at.valid(),
    ensures
        reply@ == pool_exhausted_reply(json::option_view(id), next_reset),
{
    let reset = match next_reset {
        Some(at) => Json::Text(at.to_rfc3339()),
        None => Json::Null,
    };
    let data = Json::empty_object().and("nextReset", reset);
    error_response(
        or_null(id),
        -32042,
        "All configured Kimi accounts are depleted.",
        Some(data),
    )
}

/// The reply to a line that is no JSON text, with the words of the parser.
pub open spec fn parse_error_reply(words: Seq<char>) -> JsonView {
    error_reply(JsonView::Null, -32700, "Parse error: "@ + words, None)
}

/// The reply to a line that is no JSON text, with the words of the parser.
pub fn parse_error_response(words: &str) -> (reply: Json)
    ensures
        reply@ == parse_error_reply(words@),
{
    let message = text::join("Parse error: ", words);
    error_response(Json::Null, -32700, message.as_str(), None)
}

// ---------------------------------------------------------------------------
// Resuming a session elsewhere
// ---------------------------------------------------------------------------

/// The parameters by which a session that came of a request is resumed: those of the request, with
/// the session's id, and with no servers where the request names none.
pub open spec fn resume_params_of(request: JsonView, session_id: Seq<char>) -> Map<
    Seq<char>,
    JsonView,
> {
    let given = match request.field("params"@) {
        Some(JsonView::Object(params)) => params,
        _ => Map::empty(),
    };
    let named = given.insert("sessionId"@, JsonView::Text(session_id));
    if named.contains_key("mcpServers"@) {
        named
    } else {
        named.insert("mcpServers"@, JsonView::Array(Seq::empty()))
    }
}

/// What it takes to resume a session in another child.
pub struct SessionContext {
    pub resume_params: Vec<(String, Json)>,
}

impl SessionContext {
    pub open spec fn view(&self) -> Map<Seq<char>, JsonView> {
        json::fields_view(self.resume_params@)
    }

    /// The context of a session that came of a request.
    pub fn from_request(request: &Json, session_id: &str) -> (context: SessionContext)
        ensures
            context@ == resume_params_of(request@, session_id@),
    {
        let mut params = match request.field("params") {
            Some(Json::Object(fields)) => json::copy_fields(fields),
            _ => {
                let none: Vec<(String, Json)> = Vec::new();
                proof {
                    assert(json::fields_view(none@) =~= Map::<Seq<char>, JsonView>::empty());
                }
                none
            },
        };
        json::put_field(&mut params, "sessionId", Json::text(session_id));
        if json::get_field(&params, "mcpServers").is_none() {
            let none: Vec<Json> = Vec::new();
            proof {
                assert(json::items_view(none@) =~= Seq::<JsonView>::empty());
            }
            json::put_field(&mut params, "mcpServers", Json::Array(none));
        }
        SessionContext { resume_params: params }
    }

    /// A copy of the context.
    pub fn duplicate(&self) -> (copy: SessionContext)
        ensures
            copy@ == self@,
    {
        SessionContext { resume_params: json::copy_fields(&self.resume_params) }
    }
}

/// A request of the router's own.
pub open spec fn own_request(
    id: Seq<char>,
    method: Seq<char>,
    params: Map<Seq<char>, JsonView>,
) -> JsonView {
    JsonView::Object(Map::empty()).with_field("jsonrpc"@, JsonView::Text("2.0"@)).with_field(
        "id"@,
        JsonView::Text(id),
    ).with_field("method"@, JsonView::Text(method)).with_field("params"@, JsonView::Object(params))
}

/// A request of the router's own.
pub fn build_request(id: &str, method: &str, params: Vec<(String, Json)>) -> (request: Json)
    ensures
        request@ == own_request(id@, method@, json::fields_view(params@)),
{
    Json::empty_object().and("jsonrpc", Json::text("2.0")).and("id", Json::text(id)).and(
        "method",
        Json::text(method),
    ).and("params", Json::Object(params))
}

/// The parameters of a request that names a session and nothing else.
pub open spec fn session_params(session_id: Seq<char>) -> Map<Seq<char>, JsonView> {
    Map::empty().insert("sessionId"@, JsonView::Text(session_id))
}

/// The parameters of a request that names a session and nothing else.
pub fn build_session_params(session_id: &str) -> (params: Vec<(String, Json)>)
    ensures
        json::fields_view(params@) == session_params(session_id@),
{
    let mut params: Vec<(String, Json)> = Vec::new();
    proof {
        assert(json::fields_view(params@) =~= Map::<Seq<char>, JsonView>::empty());
    }
    json::put_field(&mut params, "sessionId", Json::text(session_id));
    params
}

// ---------------------------------------------------------------------------
// Lines
// ---------------------------------------------------------------------------

/// A message as it goes over the wire: its text on one line, and the end of the line. Whoever reads
/// up to the end of the line reads the message, where its numbers are integers and it is not nested
/// too deep.
pub fn encode_line(message: &Json) -> (line: String)
    ensures
        line@ == json::compact_text(message@).push('\n'),
        forall|i: int| 0 <= i < line@.len() - 1 ==> #[trigger] line@[i] != '\n',
        message@.is_exact(json::nesting_limit()) ==> json::reads_as(line@.drop_last(), message@),
{
    let mut line = message.to_text();
    let ghost printed = line@;
    line.push('\n');
    proof {
        assert(line@.drop_last() =~= printed);
        assert forall|i: int| 0 <= i < line@.len() - 1 implies #[trigger] line@[i] != '\n' by {
            assert(printed[i] == line@[i]);
        }
    }
    line
}

/// A line of a child; what is no JSON text is passed over.
pub fn read_child_line(line: &str) -> (message: Option<Json>)
    ensures
        message is Some == json::parsed_json(line@) is Ok,
        message matches Some(tree) ==> json::parsed_json(line@) == Ok::<JsonView, Seq<char>>(tree@),
{
    match Json::parse(line) {
        Ok(tree) => Some(tree),
        Err(_) => None,
    }
}

// ---------------------------------------------------------------------------
// Laws
// ---------------------------------------------------------------------------

/// A response without an error is never taken for one that tells of spent quota.
pub proof fn results_are_no_quota_errors(response: JsonView)
    requires
        response.field("error"@) is None,
    ensures
        !is_quota_error(response),
{
}

/// What the router hands on of an answer to `initialize` offers no way to log in and names the
/// router as the agent, and is the same whatever the child said of either.
pub proof fn initialize_hides_the_account(response: JsonView, methods: JsonView, agent: JsonView)
    requires
        response.field("result"@) matches Some(result) && result is Object,
    ensures
        normalized(response).inner_field("result"@, "authMethods"@) == Some(
            JsonView::Array(Seq::empty()),
        ),
        normalized(response).inner_field("result"@, "agentInfo"@) == Some(agent_info()),
        normalized(
            response.with_field(
                "result"@,
                (response.field("result"@)->0).with_field("authMethods"@, methods).with_field(
                    "agentInfo"@,
                    agent,
                ),
            ),
        ) == normalized(response),
{
    reveal_strlit("authMethods");
    reveal_strlit("agentInfo");
    assert("authMethods"@.len() != "agentInfo"@.len());
    let all = response->Object_0;
    let fields = (response.field("result"@)->0)->Object_0;
    let none = JsonView::Array(Seq::empty());
    let info = agent_info();
    let changed = fields.insert("authMethods"@, methods).insert("agentInfo"@, agent);
    let plain = fields.insert("authMethods"@, none).insert("agentInfo"@, info);
    assert(changed.insert("authMethods"@, none).insert("agentInfo"@, info) =~= plain);
    assert(all.insert("result"@, JsonView::Object(changed)).insert(
        "result"@,
        JsonView::Object(plain),
    ) =~= all.insert("result"@, JsonView::Object(plain)));
}

/// A context always names its session and always names servers, and it keeps every other parameter
/// of the request.
pub proof fn context_names_the_session(request: JsonView, session_id: Seq<char>, key: Seq<char>)
    ensures
        resume_params_of(request, session_id).contains_key("sessionId"@),
        resume_params_of(request, session_id)["sessionId"@] == JsonView::Text(session_id),
        resume_params_of(request, session_id).contains_key("mcpServers"@),
        key != "sessionId"@ && request.inner_field("params"@, key) is Some
            ==> resume_params_of(request, session_id).contains_key(key) && Some(
            resume_params_of(request, session_id)[key],
        ) == request.inner_field("params"@, key),
{
    reveal_strlit("sessionId");
    reveal_strlit("mcpServers");
    assert("sessionId"@.len() != "mcpServers"@.len());
}

}
