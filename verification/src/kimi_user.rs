//! The name of an account, as the account service tells it.

use vstd::prelude::*;

use crate::json;
use crate::json::{Json, JsonView};
use crate::text;

verus! {

// ---------------------------------------------------------------------------
// The name in a profile
// ---------------------------------------------------------------------------

/// The text of a field without white space at its ends, if anything is left of it.
pub open spec fn name_in(profile: JsonView, key: Seq<char>) -> Option<Seq<char>> {
    match json::text_in(profile.field(key)) {
        Some(name) => if text::trimmed(name).len() > 0 {
            Some(text::trimmed(name))
        } else {
            None
        },
        None => None,
    }
}

/// The name by which an account is shown: its nickname, else its user name, else its mail address.
pub open spec fn label_in(profile: JsonView) -> Option<Seq<char>> {
    match name_in(profile, "nickname"@) {
        Some(name) => Some(name),
        None => match name_in(profile, "username"@) {
            Some(name) => Some(name),
            None => name_in(profile, "email"@),
        },
    }
}

/// The name by which an account is shown, from the text of its profile.
pub open spec fn label_in_body(body: Seq<char>) -> Option<Seq<char>> {
    match json::parsed_json(body) {
        Ok(profile) => label_in(profile),
        Err(_) => None,
    }
}

fn read_name(profile: &Json, key: &str) -> (name: Option<String>)
    ensures
        name is Some == name_in(profile@, key@) is Some,
        name matches Some(n) ==> name_in(profile@, key@) == Some(n@),
{
    match profile.text_field(key) {
        Some(name) => {
            let short = text::trim(name.as_str());
            if short.as_str().is_empty() {
                None
            } else {
                Some(short)
            }
        },
        None => None,
    }
}

/// The name by which an account is shown.
pub fn read_label(profile: &Json) -> (label: Option<String>)
    ensures
        label is Some == label_in(profile@) is Some,
        label matches Some(l) ==> label_in(profile@) == Some(l@),
{
    match read_name(profile, "nickname") {
        Some(name) => Some(name),
        None => match read_name(profile, "username") {
            Some(name) => Some(name),
            None => read_name(profile, "email"),
        },
    }
}

/// The name by which an account is shown, from the text of its profile; none where the text is no
/// profile or names no one.
pub fn parse_display_label(body: &str) -> (label: Option<String>)
    ensures
        label is Some == label_in_body(body@) is Some,
        label matches Some(l) ==> label_in_body(body@) == Some(l@),
{
    match Json::parse(body) {
        Ok(profile) => read_label(&profile),
        Err(_) => None,
    }
}

// ---------------------------------------------------------------------------
// Asking for a profile
// ---------------------------------------------------------------------------

/// A text without the slashes that it ends with.
pub open spec fn without_slashes(base: Seq<char>) -> Seq<char>
    decreases base.len(),
{
    if base.len() > 0 && base.last() == '/' {
        without_slashes(base.drop_last())
    } else {
        base
    }
}

/// What to ask the account service, and with which headers.
pub struct ProfileRequest {
    pub url: String,
    pub authorization: String,
    pub user_agent: String,
}

/// The request for the profile that an access token stands for.
pub fn profile_request(access_token: &str, api_base: &str) -> (request: ProfileRequest)
    ensures
        request.url@ == without_slashes(api_base@) + "/me"@,
        request.authorization@ == "Bearer "@ + access_token@,
        request.user_agent@ == "kimi-switch"@,
{
    let chars = text::chars_of(api_base);
    let mut end: usize = chars.len();
    proof {
        assert(chars@.take(end as int) =~= chars@);
    }
    while end > 0 && chars[end - 1] == '/'
        invariant
            end <= chars@.len(),
            without_slashes(chars@) == without_slashes(chars@.take(end as int)),
        decreases end,
    {
        proof {
            assert(chars@.take(end as int).drop_last() =~= chars@.take(end - 1));
        }
        end -= 1;
    }
    proof {
        assert(without_slashes(chars@) == chars@.take(end as int));
        assert(api_base@.subrange(0, end as int) =~= chars@.take(end as int));
    }
    let base = api_base.substring_char(0, end);
    ProfileRequest {
        url: text::join(base, "/me"),
        authorization: text::join("Bearer ", access_token),
        user_agent: "kimi-switch".to_owned(),
    }
}

/// The words for an answer other than success.
pub open spec fn http_error(status_text: Seq<char>, body: Seq<char>) -> Seq<char> {
    "kimi user info HTTP "@ + status_text + ": "@ + body
}

/// The name in the answer of the account service, given its status, how the status reads, and its
/// body. An answer other than success is an error.
pub fn read_profile(status: u16, status_text: &str, body: &str) -> (label: Result<
    Option<String>,
    String,
>)
    ensures
        label is Ok == (200 <= status <= 299),
        label matches Ok(l) ==> label_view(l) == label_in_body(body@),
        label matches Err(error) ==> error@ == http_error(status_text@, body@),
{
    if status < 200 || status > 299 {
        let mut error = text::join3("kimi user info HTTP ", status_text, ": ");
        error.append(body);
        return Err(error);
    }
    Ok(parse_display_label(body))
}

/// The characters of an optional name.
pub open spec fn label_view(label: Option<String>) -> Option<Seq<char>> {
    match label {
        Some(l) => Some(l@),
        None => None,
    }
}

/// The words for a request that found no answer.
pub fn request_failed(words: &str) -> (error: String)
    ensures
        error@ == "kimi user info request failed: "@ + words@,
{
    text::join("kimi user info request failed: ", words)
}

/// Whether an error says that the access token was not accepted.
pub open spec fn tells_unauthorized(error: Seq<char>) -> bool {
    text::begins_with(error, "kimi user info HTTP 401 "@)
}

/// Whether an error says that the access token was not accepted.
pub fn is_unauthorized(error: &str) -> (unauthorized: bool)
    ensures
        unauthorized == tells_unauthorized(error@),
{
    text::starts_with(error, "kimi user info HTTP 401 ")
}

/// What to do after the name was asked for.
pub enum Retry {
    /// It is settled.
    Done(Result<Option<String>, String>),
    /// The token is to be recovered, because of this error.
    Recover(String),
    /// The name is to be asked for once more, with this token; what comes of it is settled.
    AskAgain(String),
}

/// After the first attempt: where the token of the active account was not accepted, it is to be
/// recovered.
pub fn after_first_attempt(result: Result<Option<String>, String>, active: bool) -> (next: Retry)
    ensures
        match result {
            Err(error) => if active && tells_unauthorized(error@) {
                next == Retry::Recover(error)
            } else {
                next == Retry::Done(result)
            },
            Ok(_) => next == Retry::Done(result),
        },
{
    match result {
        Err(error) => {
            if active && is_unauthorized(error.as_str()) {
                Retry::Recover(error)
            } else {
                Retry::Done(Err(error))
            }
        },
        Ok(label) => Retry::Done(Ok(label)),
    }
}

/// After the token was to be recovered: without a fresh token the first error stands.
pub fn after_recovery(error: String, recovered: Result<Option<String>, String>) -> (next: Retry)
    ensures
        match recovered {
            Ok(Some(fresh_token)) => next == Retry::AskAgain(fresh_token),
            Ok(None) => next == Retry::Done(Err::<Option<String>, String>(error)),
            Err(failure) => next == Retry::Done(Err::<Option<String>, String>(failure)),
        },
{
    match recovered {
        Ok(Some(fresh_token)) => Retry::AskAgain(fresh_token),
        Ok(None) => Retry::Done(Err(error)),
        Err(failure) => Retry::Done(Err(failure)),
    }
}

// ---------------------------------------------------------------------------
// Laws
// ---------------------------------------------------------------------------

/// A name that is shown is never empty and never starts or ends with white space.
pub proof fn labels_are_solid(profile: JsonView)
    ensures
        label_in(profile) matches Some(label) ==> label.len() > 0 && !text::is_white(label[0])
            && !text::is_white(label.last()),
{
    if let Some(name) = json::text_in(profile.field("nickname"@)) {
        text::trimmed_ends_are_solid(name);
    }
    if let Some(name) = json::text_in(profile.field("username"@)) {
        text::trimmed_ends_are_solid(name);
    }
    if let Some(name) = json::text_in(profile.field("email"@)) {
        text::trimmed_ends_are_solid(name);
    }
}

/// A nickname is preferred to a user name, and a user name to a mail address.
pub proof fn nickname_comes_first(profile: JsonView)
    ensures
        name_in(profile, "nickname"@) is Some ==> label_in(profile) == name_in(
            profile,
            "nickname"@,
        ),
        name_in(profile, "nickname"@) is None && name_in(profile, "username"@) is Some
            ==> label_in(profile) == name_in(profile, "username"@),
{
}

/// The answer with status 401 is the one that is taken for a token that was not accepted.
pub proof fn status_401_is_unauthorized(reason: Seq<char>, body: Seq<char>)
    ensures
        tells_unauthorized(http_error("401 "@ + reason, body)),
{
    reveal_strlit("kimi user info HTTP ");
    reveal_strlit("401 ");
    reveal_strlit("kimi user info HTTP 401 ");
    let error = http_error("401 "@ + reason, body);
    let prefix = "kimi user info HTTP 401 "@;
    assert("kimi user info HTTP "@ + "401 "@ =~= prefix);
    assert(error.take(prefix.len() as int) =~= prefix);
}

}
