//! What holds of the owners of sessions: in memory, on disk, and as others see them.

use vstd::prelude::*;

use crate::clock;
use crate::clock::Timestamp;
use crate::json;
use crate::json::JsonView;
use crate::private_fs;
use crate::private_fs::{FileStep, FileStepView, Platform, Restriction, RestrictionView};
use crate::router_status;
use crate::router_status::{RouterStatusSnapshot, SessionAssignment};
use crate::state;
use crate::state::{OwnerView, ReadOutcome, RouterState, SessionOwner, StateView};
use crate::table;
use crate::text;
use crate::text_laws;

verus! {

// ---------------------------------------------------------------------------
// In memory
// ---------------------------------------------------------------------------

/// Who owns a session is the account that it stands with, and nobody where it does not stand there.
pub proof fn owners_are_looked_up(state: StateView, session_id: Seq<char>, account_id: Seq<char>)
    ensures
        (state.owner(session_id) == Some(account_id)) <==> state.sessions.contains_key(session_id)
            && state.sessions[session_id].account_id == account_id,
        state.owner(session_id) is None <==> !state.sessions.contains_key(session_id),
        state.owned(account_id).contains(session_id) <==> state.owner(session_id) == Some(
            account_id,
        ),
{
}

/// To give a session to an account sets its owner and since when, and changes nothing else.
pub proof fn giving_changes_one_session(
    state: StateView,
    session_id: Seq<char>,
    account_id: Seq<char>,
    now: Timestamp,
    other: Seq<char>,
)
    ensures
        ({
            let after = state.assigned(session_id, account_id, now);
            &&& after.version == state.version
            &&& after.sessions.contains_key(session_id)
            &&& after.sessions[session_id].account_id == account_id
            &&& after.sessions[session_id].assigned_at == now
            &&& other != session_id ==> after.sessions.contains_key(other)
                == state.sessions.contains_key(other)
            &&& other != session_id && state.sessions.contains_key(other) ==> after.sessions[other]
                == state.sessions[other]
        }),
{
}

/// To forget a session changes nothing else.
pub proof fn forgetting_changes_one_session(
    state: StateView,
    session_id: Seq<char>,
    other: Seq<char>,
)
    ensures
        ({
            let after = state.without(session_id);
            &&& after.version == state.version
            &&& !after.sessions.contains_key(session_id)
            &&& other != session_id ==> after.sessions.contains_key(other)
                == state.sessions.contains_key(other)
            &&& other != session_id && state.sessions.contains_key(other) ==> after.sessions[other]
                == state.sessions[other]
        }),
{
}

/// A state says its version and what stands in its table.
pub proof fn states_say_what_they_hold(state: RouterState, owner: SessionOwner, id: Seq<char>)
    ensures
        owner@.account_id == owner.account_id@,
        owner@.assigned_at == owner.assigned_at,
        state@.version == state.version,
        state@.sessions.contains_key(id) == state.sessions@.contains_key(id),
        state.sessions@.contains_key(id) ==> state@.sessions[id] == state.sessions@[id]@,
        state::fresh_state().version == 1,
        !state::fresh_state().sessions.contains_key(id),
{
}

// ---------------------------------------------------------------------------
// On disk
// ---------------------------------------------------------------------------

/// Whether two trees name an owner: a text, and a text that is read as a moment.
pub open spec fn names_owner(account_id: JsonView, assigned_at: JsonView, owner: OwnerView) -> bool {
    &&& account_id == JsonView::Text(owner.account_id)
    &&& assigned_at matches JsonView::Text(moment) && clock::parsed_moment(moment) == Some(
        owner.assigned_at,
    )
}

/// An owner is read from an object with the two fields, whatever else stands in it, or from an array
/// of the two values; from nothing else.
pub proof fn owners_are_read(tree: JsonView, owner: OwnerView)
    ensures
        (state::owner_in(tree) == Some(owner)) <==> (match tree {
            JsonView::Object(fields) => fields.contains_key("account_id"@) && fields.contains_key(
                "assigned_at"@,
            ) && names_owner(fields["account_id"@], fields["assigned_at"@], owner),
            JsonView::Array(items) => items.len() == 2 && names_owner(items[0], items[1], owner),
            _ => false,
        }),
{
}

/// Sessions are read from an object in which every field is an owner: each session has its owner, and
/// there are no others. One field that is no owner spoils the whole.
pub proof fn sessions_are_read(tree: JsonView, sessions: Map<Seq<char>, OwnerView>)
    ensures
        (state::sessions_in(tree) == Some(sessions)) <==> (match tree {
            JsonView::Object(fields) => {
                &&& sessions.dom() =~= fields.dom()
                &&& forall|id: Seq<char>| #[trigger]
                    fields.contains_key(id) ==> state::owner_in(fields[id]) == Some(sessions[id])
            },
            _ => false,
        }),
{
    if let JsonView::Object(fields) = tree {
        if state::sessions_in(tree) == Some(sessions) {
            assert forall|id: Seq<char>| #[trigger] fields.contains_key(id) implies state::owner_in(
                fields[id],
            ) == Some(sessions[id]) by {
                assert(state::owner_in(fields[id]) is Some);
            }
        }
        if sessions.dom() =~= fields.dom() && forall|id: Seq<char>| #[trigger]
            fields.contains_key(id) ==> state::owner_in(fields[id]) == Some(sessions[id]) {
            assert forall|id: Seq<char>| fields.contains_key(id) implies state::owner_in(
                #[trigger] fields[id],
            ) is Some by {
            }
            assert(state::sessions_in(tree)->0 =~= sessions);
        }
    }
}

/// A version is read from the number of an integer of 32 bits, and from nothing else.
pub proof fn versions_are_read(tree: JsonView, version: u32)
    ensures
        state::version_in(tree) matches Some(read) ==> tree == JsonView::Number(
            json::integer_number(read as int),
        ),
        tree == JsonView::Number(json::integer_number(version as int)) ==> state::version_in(
            tree,
        ) is Some,
{
    if tree == JsonView::Number(json::integer_number(version as int)) {
        assert(state::is_version(tree, version));
    }
}

/// A state is read from an object with the two fields, whatever else stands in it, or from an array of
/// the two values in that order. What is missing is the first version, or no sessions; what is there
/// and is not read spoils the whole.
pub proof fn states_are_read(fields: Map<Seq<char>, JsonView>, version: JsonView, sessions: JsonView)
    ensures
        ({
            let whole = if state::version_in(version) is Some && state::sessions_in(
                sessions,
            ) is Some {
                Some(
                    StateView {
                        version: state::version_in(version)->0,
                        sessions: state::sessions_in(sessions)->0,
                    },
                )
            } else {
                None
            };
            let numbered = match state::version_in(version) {
                Some(number) => Some(StateView { version: number, sessions: Map::empty() }),
                None => None,
            };
            let owned = match state::sessions_in(sessions) {
                Some(owners) => Some(StateView { version: 1, sessions: owners }),
                None => None,
            };
            let fresh = Some(StateView { version: 1, sessions: Map::empty() });
            let tree = JsonView::Object(fields);
            let has_version = fields.contains_key("version"@);
            let has_sessions = fields.contains_key("sessions"@);
            &&& has_version && fields["version"@] == version && has_sessions && fields["sessions"@]
                == sessions ==> state::state_in(tree) == whole
            &&& has_version && fields["version"@] == version && !has_sessions
                ==> state::state_in(tree) == numbered
            &&& !has_version && has_sessions && fields["sessions"@] == sessions
                ==> state::state_in(tree) == owned
            &&& !has_version && !has_sessions ==> state::state_in(tree) == fresh
            &&& state::state_in(JsonView::Array(seq![version, sessions])) == whole
            &&& state::state_in(JsonView::Array(seq![version])) == numbered
            &&& state::state_in(JsonView::Array(Seq::empty())) == fresh
        }),
{
}

/// No state is read from anything but an object or an array of at most two values.
pub proof fn other_trees_are_no_states(tree: JsonView)
    requires
        !(tree is Object),
        tree is Array ==> (tree->Array_0).len() > 2,
    ensures
        state::state_in(tree) is None,
{
}

/// A file that is missing or blank holds the fresh state, one that cannot be read none, and any other
/// the state in its text.
pub proof fn files_are_loaded(raw: String, words: String)
    ensures
        state::loaded_state(ReadOutcome::NotFound) == Some(
            StateView { version: 1, sessions: Map::empty() },
        ),
        state::loaded_state(ReadOutcome::Failed(words)) is None,
        text_laws::is_blank(raw@) ==> state::loaded_state(ReadOutcome::Text(raw)) == Some(
            StateView { version: 1, sessions: Map::empty() },
        ),
        !text_laws::is_blank(raw@) ==> state::loaded_state(ReadOutcome::Text(raw)) == (
        match json::parsed_json(raw@) {
            Ok(tree) => state::state_in(tree),
            Err(_) => None,
        }),
{
    text_laws::only_blank_texts_are_trimmed_to_nothing(raw@);
}

/// A text that is blank says the fresh state, and any other what is read from it.
pub proof fn texts_are_loaded(raw: Seq<char>)
    ensures
        text_laws::is_blank(raw) ==> state::loaded_text(raw) == Some(
            StateView { version: 1, sessions: Map::empty() },
        ),
        !text_laws::is_blank(raw) ==> state::loaded_text(raw) == (match json::parsed_json(raw) {
            Ok(tree) => state::state_in(tree),
            Err(_) => None,
        }),
{
    text_laws::only_blank_texts_are_trimmed_to_nothing(raw);
}

/// A document is written beside the file, guarded, and only then takes its place.
pub proof fn documents_take_their_place_last(document: Seq<char>, process_id: u32)
    ensures
        ({
            let steps = state::save_steps(document, process_id, true);
            &&& steps.len() == 4
            &&& steps[0] == FileStepView::CreateParent
            &&& steps[1] == (FileStepView::WriteTemporary {
                extension: "json."@ + text::decimal(process_id as nat) + ".tmp"@,
                contents: document,
            })
            &&& steps[2] == (FileStepView::RestrictTemporary { mode: 0o600 })
            &&& steps[3] == FileStepView::RenameTemporary
        }),
        ({
            let steps = state::save_steps(document, process_id, false);
            &&& steps.len() == 3
            &&& steps[0] == FileStepView::CreateParent
            &&& steps[1] == (FileStepView::WriteTemporary {
                extension: "json."@ + text::decimal(process_id as nat) + ".tmp"@,
                contents: document,
            })
            &&& steps[2] == FileStepView::RenameTemporary
        }),
{
}

/// Files and directories with secrets are guarded: by permission bits for the owner alone, or by a
/// protected list with the owner and the system on it.
pub proof fn secrets_are_guarded()
    ensures
        private_fs::file_restriction(Platform::Unix) == RestrictionView::Mode(0o600),
        private_fs::dir_restriction(Platform::Unix) == RestrictionView::Mode(0o700),
        private_fs::file_restriction(Platform::Windows) == RestrictionView::Descriptor(
            "D:P(A;;FA;;;OW)(A;;FA;;;SY)"@,
        ),
        private_fs::dir_restriction(Platform::Windows) == RestrictionView::Descriptor(
            "D:P(A;OICI;FA;;;OW)(A;OICI;FA;;;SY)"@,
        ),
        private_fs::file_restriction(Platform::Other) == RestrictionView::Nothing,
        private_fs::dir_restriction(Platform::Other) == RestrictionView::Nothing,
{
}

/// A guard and a step say what they hold.
pub proof fn steps_say_what_they_hold(
    mode: u32,
    descriptor: &'static str,
    extension: String,
    contents: String,
    steps: Seq<FileStep>,
    i: int,
)
    ensures
        Restriction::Mode(mode)@ == RestrictionView::Mode(mode),
        Restriction::Descriptor(descriptor)@ == RestrictionView::Descriptor(descriptor@),
        Restriction::Nothing@ == RestrictionView::Nothing,
        FileStep::CreateParent@ == FileStepView::CreateParent,
        (FileStep::WriteTemporary { extension, contents })@ == (FileStepView::WriteTemporary {
            extension: extension@,
            contents: contents@,
        }),
        (FileStep::RestrictTemporary { mode })@ == (FileStepView::RestrictTemporary { mode }),
        FileStep::RenameTemporary@ == FileStepView::RenameTemporary,
        (FileStep::RestrictFile { mode })@ == (FileStepView::RestrictFile { mode }),
        private_fs::steps_view(steps).len() == steps.len(),
        0 <= i < steps.len() ==> private_fs::steps_view(steps)[i] == steps[i]@,
{
}

// ---------------------------------------------------------------------------
// As others see them
// ---------------------------------------------------------------------------

/// Every session is shown once, with its owner and since when, and no other is.
pub proof fn every_session_is_shown(sessions: Map<Seq<char>, OwnerView>)
    requires
        sessions.dom().finite(),
    ensures
        ({
            let shown = router_status::assignments(sessions);
            &&& shown.len() == sessions.dom().len()
            &&& forall|i: int|
                0 <= i < shown.len() ==> {
                    &&& sessions.contains_key((#[trigger] shown[i]).session_id)
                    &&& shown[i].account_id == sessions[shown[i].session_id].account_id
                    &&& shown[i].assigned_at == sessions[shown[i].session_id].assigned_at
                }
            &&& forall|id: Seq<char>| #[trigger]
                sessions.contains_key(id) ==> exists|i: int|
                    0 <= i < shown.len() && (#[trigger] shown[i]).session_id == id
        }),
{
    let ids = table::in_order(sessions.dom());
    let shown = router_status::assignments(sessions);
    table::in_order_holds(sessions.dom());
    ids.unique_seq_to_set();
    assert forall|i: int| 0 <= i < shown.len() implies {
        &&& sessions.contains_key((#[trigger] shown[i]).session_id)
        &&& shown[i].account_id == sessions[shown[i].session_id].account_id
        &&& shown[i].assigned_at == sessions[shown[i].session_id].assigned_at
    } by {
        assert(ids.to_set().contains(ids[i]));
    }
    assert forall|id: Seq<char>| #[trigger] sessions.contains_key(id) implies exists|i: int|
        0 <= i < shown.len() && (#[trigger] shown[i]).session_id == id by {
        assert(ids.to_set().contains(id));
        let i = choose|i: int| 0 <= i < ids.len() && ids[i] == id;
        assert(shown[i].session_id == id);
    }
}

/// The sessions of an account are those that stand with it.
pub proof fn sessions_of_an_account(
    sessions: Map<Seq<char>, OwnerView>,
    account_id: Seq<char>,
    id: Seq<char>,
)
    ensures
        router_status::sessions_of(sessions, account_id).contains(id) <==> sessions.contains_key(id)
            && sessions[id].account_id == account_id,
{
}

/// A snapshot that shows sessions counts them, all and by account: an account with sessions has their
/// number, and one without has none.
pub proof fn snapshots_count_sessions(
    snapshot: RouterStatusSnapshot,
    sessions: Map<Seq<char>, OwnerView>,
    account_id: Seq<char>,
)
    requires
        sessions.dom().finite(),
        snapshot.shows(sessions),
    ensures
        snapshot.session_count == sessions.dom().len(),
        snapshot.sessions@.len() == sessions.dom().len(),
        snapshot.account_session_counts@.contains_key(account_id) <==> exists|id: Seq<char>|
            sessions.contains_key(id) && (#[trigger] sessions[id]).account_id == account_id,
        snapshot.account_session_counts@.contains_key(account_id)
            ==> snapshot.account_session_counts@[account_id] == sessions.dom().filter(
            |id: Seq<char>| sessions[id].account_id == account_id,
        ).len(),
        forall|i: int|
            0 <= i < snapshot.sessions@.len() ==> {
                let shown = #[trigger] snapshot.sessions@[i];
                &&& sessions.contains_key(shown.session_id@)
                &&& shown.account_id@ == sessions[shown.session_id@].account_id
                &&& shown.assigned_at == sessions[shown.session_id@].assigned_at
            },
{
    every_session_is_shown(sessions);
    let told = router_status::assignments_view(snapshot.sessions@);
    assert(told.len() == snapshot.sessions@.len());
    assert(router_status::sessions_of(sessions, account_id) =~= sessions.dom().filter(
        |id: Seq<char>| sessions[id].account_id == account_id,
    ));
    assert forall|i: int| 0 <= i < snapshot.sessions@.len() implies {
        let shown = #[trigger] snapshot.sessions@[i];
        &&& sessions.contains_key(shown.session_id@)
        &&& shown.account_id@ == sessions[shown.session_id@].account_id
        &&& shown.assigned_at == sessions[shown.session_id@].assigned_at
    } by {
        assert(told[i] == snapshot.sessions@[i]@);
    }
}

/// An assignment says what it holds.
pub proof fn assignments_say_what_they_hold(session: SessionAssignment)
    ensures
        session@.session_id == session.session_id@,
        session@.account_id == session.account_id@,
        session@.assigned_at == session.assigned_at,
{
}

/// The sessions of a file are those in its field `sessions`, or in an array of that one value; a file
/// that is missing or blank, or that has no such field, has none; from anything else none are read.
pub proof fn sessions_of_a_file(
    raw: String,
    words: String,
    fields: Map<Seq<char>, JsonView>,
    sessions: JsonView,
    tree: JsonView,
)
    ensures
        router_status::persisted_sessions(ReadOutcome::NotFound) == Some(
            Map::<Seq<char>, OwnerView>::empty(),
        ),
        router_status::persisted_sessions(ReadOutcome::Failed(words)) is None,
        text_laws::is_blank(raw@) ==> router_status::persisted_sessions(ReadOutcome::Text(raw))
            == Some(Map::<Seq<char>, OwnerView>::empty()),
        !text_laws::is_blank(raw@) ==> router_status::persisted_sessions(ReadOutcome::Text(raw))
            == (match json::parsed_json(raw@) {
            Ok(read) => router_status::persisted_in(read),
            Err(_) => None,
        }),
        fields.contains_key("sessions"@) && fields["sessions"@] == sessions
            ==> router_status::persisted_in(JsonView::Object(fields)) == state::sessions_in(
            sessions,
        ),
        !fields.contains_key("sessions"@) ==> router_status::persisted_in(JsonView::Object(fields))
            == Some(Map::<Seq<char>, OwnerView>::empty()),
        router_status::persisted_in(JsonView::Array(seq![sessions])) == state::sessions_in(
            sessions,
        ),
        router_status::persisted_in(JsonView::Array(Seq::empty())) == Some(
            Map::<Seq<char>, OwnerView>::empty(),
        ),
        !(tree is Object) && !(tree is Array && (tree->Array_0).len() <= 1)
            ==> router_status::persisted_in(tree) is None,
{
    text_laws::only_blank_texts_are_trimmed_to_nothing(raw@);
}

/// A lock that would block is held by another; so it is, on Windows alone, where the file or a part of
/// it is in use. No other refusal says so.
pub proof fn held_locks_are_told(code: i32, windows: bool)
    ensures
        router_status::is_conflict(true, Some(code), windows),
        router_status::is_conflict(true, None, windows),
        !router_status::is_conflict(false, None, windows),
        !router_status::is_conflict(false, Some(code), false),
        router_status::is_conflict(false, Some(code), true) <==> code == 32 || code == 33,
{
}

}
