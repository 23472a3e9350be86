//! Which account owns which session, and how that is kept on disk.

use vstd::prelude::*;

use crate::clock;
use crate::clock::Timestamp;
use crate::json;
use crate::json::{Json, JsonView};
use crate::private_fs;
use crate::private_fs::{FileStep, FileStepView};
use crate::table::Table;
use crate::text;

verus! {

/// `std::path::PathBuf`, the place of a file; it is carried through to whoever opens the file.
#[verifier::external_type_specification]
#[verifier::external_body]
pub struct ExPathBuf(std::path::PathBuf);

// ---------------------------------------------------------------------------
// Sessions and their owners
// ---------------------------------------------------------------------------

/// The account that a session belongs to, and since when.
pub struct SessionOwner {
    pub account_id: String,
    pub assigned_at: Timestamp,
}

/// What an owner says.
pub struct OwnerView {
    pub account_id: Seq<char>,
    pub assigned_at: Timestamp,
}

impl SessionOwner {
    pub open spec fn view(&self) -> OwnerView {
        OwnerView { account_id: self.account_id@, assigned_at: self.assigned_at }
    }
}

/// The owners of all sessions.
pub struct RouterState {
    pub version: u32,
    pub sessions: Table<SessionOwner>,
}

/// What a state says: its version, and the owner of each session.
#[verifier::ext_equal]
pub struct StateView {
    pub version: u32,
    pub sessions: Map<Seq<char>, OwnerView>,
}

/// What a table of owners says.
pub open spec fn owners_view(sessions: Map<Seq<char>, SessionOwner>) -> Map<Seq<char>, OwnerView> {
    sessions.map_values(|owner: SessionOwner| owner@)
}

impl StateView {
    /// The account that owns a session.
    pub open spec fn owner(self, session_id: Seq<char>) -> Option<Seq<char>> {
        if self.sessions.contains_key(session_id) {
            Some(self.sessions[session_id].account_id)
        } else {
            None
        }
    }

    /// The state after a session was given to an account.
    pub open spec fn assigned(
        self,
        session_id: Seq<char>,
        account_id: Seq<char>,
        now: Timestamp,
    ) -> StateView {
        StateView {
            sessions: self.sessions.insert(session_id, OwnerView { account_id, assigned_at: now }),
            ..self
        }
    }

    /// The state without a session.
    pub open spec fn without(self, session_id: Seq<char>) -> StateView {
        StateView { sessions: self.sessions.remove(session_id), ..self }
    }

    /// The sessions that an account owns.
    pub open spec fn owned(self, account_id: Seq<char>) -> Set<Seq<char>> {
        self.sessions.dom().filter(|id: Seq<char>| self.sessions[id].account_id == account_id)
    }

    /// Every moment in the state is one that can be written.
    pub open spec fn valid(self) -> bool {
        forall|id: Seq<char>|
            self.sessions.contains_key(id) ==> (#[trigger] self.sessions[id]).assigned_at.valid()
    }
}

/// The state before any session was assigned.
pub open spec fn fresh_state() -> StateView {
    StateView { version: 1, sessions: Map::empty() }
}

/// The version of the state that this library writes.
fn state_version() -> (version: u32)
    ensures
        version == 1,
{
    1
}

impl Default for RouterState {
    /// A state without sessions.
    fn default() -> (state: RouterState)
        ensures
            state.wf(),
            state@ == fresh_state(),
    {
        let state = RouterState { version: state_version(), sessions: Table::new() };
        proof {
            assert(state@.sessions =~= fresh_state().sessions);
        }
        state
    }
}

impl RouterState {
    pub open spec fn view(&self) -> StateView {
        StateView { version: self.version, sessions: owners_view(self.sessions@) }
    }

    /// The table is in order, and every moment in it can be written.
    pub open spec fn wf(self) -> bool {
        self.sessions.wf() && self@.valid()
    }

    /// The account that owns a session.
    pub fn owner(&self, session_id: &str) -> (account_id: Option<&str>)
        requires
            self.wf(),
        ensures
            account_id is Some == self@.owner(session_id@) is Some,
            account_id matches Some(id) ==> self@.owner(session_id@) == Some(id@),
    {
        match self.sessions.get(session_id) {
            Some(owner) => Some(owner.account_id.as_str()),
            None => None,
        }
    }

    /// Gives a session to an account at a given moment.
    pub fn assign_at(&mut self, session_id: &str, account_id: &str, now: Timestamp)
        requires
            old(self).wf(),
            now.valid(),
        ensures
            final(self).wf(),
            final(self)@ == old(self)@.assigned(session_id@, account_id@, now),
    {
        let ghost before = self@;
        let owner = SessionOwner { account_id: account_id.to_owned(), assigned_at: now };
        self.sessions.insert(session_id.to_owned(), owner);
        proof {
            let after = before.assigned(session_id@, account_id@, now);
            assert(self@.sessions =~= after.sessions);
            assert forall|id: Seq<char>| after.sessions.contains_key(id) implies (
            #[trigger] after.sessions[id]).assigned_at.valid() by {
                if id != session_id@ {
                    assert(before.sessions[id].assigned_at.valid());
                }
            }
        }
    }

    /// Gives a session to an account now.
    pub fn assign(&mut self, session_id: &str, account_id: &str)
        requires
            old(self).wf(),
        ensures
            final(self).wf(),
            exists|now: Timestamp|
                now.valid() && final(self)@ == #[trigger] old(self)@.assigned(
                    session_id@,
                    account_id@,
                    now,
                ),
    {
        let now = Timestamp::now();
        self.assign_at(session_id, account_id, now);
    }

    /// Forgets a session.
    pub fn remove(&mut self, session_id: &str)
        requires
            old(self).wf(),
        ensures
            final(self).wf(),
            final(self)@ == old(self)@.without(session_id@),
    {
        let ghost before = self@;
        let _ = self.sessions.remove(session_id);
        proof {
            let after = before.without(session_id@);
            assert(self@.sessions =~= after.sessions);
            assert forall|id: Seq<char>| after.sessions.contains_key(id) implies (
            #[trigger] after.sessions[id]).assigned_at.valid() by {
                assert(before.sessions[id].assigned_at.valid());
            }
        }
    }

    /// How many sessions an account owns.
    pub fn owned_count(&self, account_id: &str) -> (count: usize)
        requires
            self.wf(),
        ensures
            count == self@.owned(account_id@).len(),
    {
        let mut count: usize = 0;
        let mut at: usize = 0;
        let total = self.sessions.len();
        let ghost mut found = Set::<Seq<char>>::empty();
        let ghost keys = self.sessions.keys();
        proof {
            self.sessions.positions();
        }
        while at < total
            invariant
                self.wf(),
                keys == self.sessions.keys(),
                keys.no_duplicates(),
                total == keys.len(),
                at <= total,
                count <= at,
                found.finite(),
                found.len() == count,
                forall|id: Seq<char>|
                    found.contains(id) <==> exists|i: int|
                        0 <= i < at && #[trigger] keys[i] == id && self.sessions@[id].account_id@
                            == account_id@,
            decreases total - at,
        {
            let owner = self.sessions.value_at(at);
            let ghost id = keys[at as int];
            if text::same_text(owner.account_id.as_str(), account_id) {
                count += 1;
                proof {
                    assert(!found.contains(id)) by {
                        if found.contains(id) {
                            let i = choose|i: int|
                                0 <= i < at && #[trigger] keys[i] == id
                                    && self.sessions@[id].account_id@ == account_id@;
                            assert(keys[i] != keys[at as int]);
                        }
                    }
                    found = found.insert(id);
                }
            }
            at += 1;
            proof {
                assert forall|k: Seq<char>| found.contains(k) implies exists|i: int|
                    0 <= i < at && #[trigger] keys[i] == k && self.sessions@[k].account_id@
                        == account_id@ by {
                    if k == id {
                        assert(keys[at - 1] == k);
                    }
                }
            }
        }
        proof {
            self.sessions.positions();
            assert(found =~= self@.owned(account_id@)) by {
                assert forall|id: Seq<char>| self@.owned(account_id@).contains(
                    id,
                ) implies found.contains(id) by {
                    assert(self.sessions@.contains_key(id));
                    let i = keys.index_of(id);
                    assert(keys.contains(id));
                    assert(keys[i] == id);
                }
                assert forall|id: Seq<char>| found.contains(id) implies self@.owned(
                    account_id@,
                ).contains(id) by {
                    let i = choose|i: int|
                        0 <= i < at && #[trigger] keys[i] == id && self.sessions@[id].account_id@
                            == account_id@;
                    assert(self.sessions@.contains_key(keys[i]));
                }
            }
        }
        count
    }
}

// ---------------------------------------------------------------------------
// The document
// ---------------------------------------------------------------------------

/// An owner as it stands in the document.
pub open spec fn owner_json(owner: OwnerView) -> JsonView {
    JsonView::Object(Map::empty()).with_field(
        "account_id"@,
        JsonView::Text(owner.account_id),
    ).with_field(
        "assigned_at"@,
        JsonView::Text(
            clock::moment_text(owner.assigned_at.seconds as int, owner.assigned_at.nanos as int),
        ),
    )
}

/// All sessions as they stand in the document.
pub open spec fn sessions_json(sessions: Map<Seq<char>, OwnerView>) -> JsonView {
    JsonView::Object(sessions.map_values(|owner: OwnerView| owner_json(owner)))
}

/// The fields of the document, in their order.
pub open spec fn state_fields(state: StateView) -> Seq<(Seq<char>, JsonView)> {
    seq![
        ("version"@, JsonView::Number(json::integer_number(state.version as int))),
        ("sessions"@, sessions_json(state.sessions)),
    ]
}

/// The text of the document.
pub open spec fn document_text(state: StateView) -> Seq<char> {
    json::pretty_fields(state_fields(state))
}

/// The owner that two trees name: its account and its moment.
pub open spec fn owner_of(account_id: JsonView, assigned_at: JsonView) -> Option<OwnerView> {
    match (account_id, assigned_at) {
        (JsonView::Text(id), JsonView::Text(moment)) => match clock::parsed_moment(moment) {
            Some(at) => Some(OwnerView { account_id: id, assigned_at: at }),
            None => None,
        },
        _ => None,
    }
}

/// The owner in a tree: an object with the two fields, or an array of the two values.
pub open spec fn owner_in(tree: JsonView) -> Option<OwnerView> {
    match tree {
        JsonView::Object(fields) => if fields.contains_key("account_id"@) && fields.contains_key(
            "assigned_at"@,
        ) {
            owner_of(fields["account_id"@], fields["assigned_at"@])
        } else {
            None
        },
        JsonView::Array(items) => if items.len() == 2 {
            owner_of(items[0], items[1])
        } else {
            None
        },
        _ => None,
    }
}

/// The sessions in a tree: an object in which every field holds an owner.
pub open spec fn sessions_in(tree: JsonView) -> Option<Map<Seq<char>, OwnerView>> {
    match tree {
        JsonView::Object(fields) => if forall|id: Seq<char>|
            fields.contains_key(id) ==> owner_in(#[trigger] fields[id]) is Some {
            Some(fields.map_values(|owner: JsonView| owner_in(owner)->0))
        } else {
            None
        },
        _ => None,
    }
}

/// Whether a tree is an integer of 32 bits.
pub open spec fn is_version(tree: JsonView, version: u32) -> bool {
    tree == JsonView::Number(json::integer_number(version as int))
}

/// The version in a tree: an integer of 32 bits.
pub open spec fn version_in(tree: JsonView) -> Option<u32> {
    if exists|version: u32| is_version(tree, version) {
        Some(choose|version: u32| is_version(tree, version))
    } else {
        None
    }
}

/// The state that two trees name; without a version it is the first, without sessions there are
/// none.
pub open spec fn state_of(version: Option<JsonView>, sessions: Option<JsonView>) -> Option<
    StateView,
> {
    let number = match version {
        Some(tree) => version_in(tree),
        None => Some(1u32),
    };
    let owners = match sessions {
        Some(tree) => sessions_in(tree),
        None => Some(Map::empty()),
    };
    match (number, owners) {
        (Some(n), Some(o)) => Some(StateView { version: n, sessions: o }),
        _ => None,
    }
}

/// The state in a tree: an object, in which other fields are passed over, or an array of at most
/// the two values. Of a field that a document gives more than once, the last counts; the document is
/// read as a whole, what is passed over too.
pub open spec fn state_in(tree: JsonView) -> Option<StateView> {
    match tree {
        JsonView::Object(fields) => state_of(tree.field("version"@), tree.field("sessions"@)),
        JsonView::Array(items) => if items.len() <= 2 {
            state_of(
                if items.len() > 0 {
                    Some(items[0])
                } else {
                    None
                },
                if items.len() > 1 {
                    Some(items[1])
                } else {
                    None
                },
            )
        } else {
            None
        },
        _ => None,
    }
}

/// The state that a document holds.
pub open spec fn state_in_document(document: Seq<char>) -> Option<StateView> {
    match json::parsed_json(document) {
        Ok(tree) => state_in(tree),
        Err(_) => None,
    }
}

fn read_owner_of(account_id: &Json, assigned_at: &Json) -> (owner: Option<SessionOwner>)
    ensures
        owner is Some == owner_of(account_id@, assigned_at@) is Some,
        owner matches Some(o) ==> owner_of(account_id@, assigned_at@) == Some(o@)
            && o.assigned_at.valid(),
{
    match (account_id, assigned_at) {
        (Json::Text(id), Json::Text(moment)) => match Timestamp::parse(moment.as_str()) {
            Some(at) => Some(SessionOwner { account_id: id.clone(), assigned_at: at }),
            None => None,
        },
        _ => None,
    }
}

fn read_owner(tree: &Json) -> (owner: Option<SessionOwner>)
    ensures
        owner is Some == owner_in(tree@) is Some,
        owner matches Some(o) ==> owner_in(tree@) == Some(o@) && o.assigned_at.valid(),
{
    match tree {
        Json::Object(_) => {
            match (tree.field("account_id"), tree.field("assigned_at")) {
                (Some(id), Some(at)) => read_owner_of(id, at),
                _ => None,
            }
        },
        Json::Array(items) => {
            if items.len() == 2 {
                read_owner_of(&items[0], &items[1])
            } else {
                None
            }
        },
        _ => None,
    }
}

/// Reads the owners of sessions.
pub fn read_sessions(tree: &Json) -> (sessions: Option<Table<SessionOwner>>)
    ensures
        sessions is Some == sessions_in(tree@) is Some,
        sessions matches Some(table) ==> {
            &&& table.wf()
            &&& sessions_in(tree@) == Some(owners_view(table@))
            &&& StateView { version: 1, sessions: owners_view(table@) }.valid()
        },
{
    match tree {
        Json::Object(fields) => read_owners(fields),
        _ => None,
    }
}

fn read_owners(fields: &Vec<(String, Json)>) -> (sessions: Option<Table<SessionOwner>>)
    ensures
        sessions is Some == sessions_in(JsonView::Object(json::fields_view(fields@))) is Some,
        sessions matches Some(table) ==> {
            &&& table.wf()
            &&& sessions_in(JsonView::Object(json::fields_view(fields@))) == Some(
                owners_view(table@),
            )
            &&& StateView { version: 1, sessions: owners_view(table@) }.valid()
        },
{
    let ghost trees = json::fields_view(fields@);
    let mut sessions: Table<SessionOwner> = Table::new();
    let mut at: usize = 0;
    while at < fields.len()
        invariant
            at <= fields@.len(),
            trees == json::fields_view(fields@),
            sessions.wf(),
            forall|id: Seq<char>|
                sessions@.contains_key(id) <==> exists|i: int|
                    0 <= i < at && (#[trigger] fields@[i]).0@ == id,
            forall|id: Seq<char>| #[trigger]
                sessions@.contains_key(id) ==> trees.contains_key(id) && owner_in(trees[id])
                    == Some(sessions@[id]@) && sessions@[id].assigned_at.valid(),
        decreases fields@.len() - at,
    {
        let ghost before = sessions@;
        let ghost id = fields@[at as int].0@;
        if !sessions.contains(fields[at].0.as_str()) {
            let tree = json::get_field(fields, fields[at].0.as_str());
            proof {
                json::fields_view_keys(fields@, id);
                assert(trees.contains_key(id));
            }
            let owner = match tree {
                Some(tree) => read_owner(tree),
                None => None,
            };
            match owner {
                Some(owner) => {
                    sessions.insert(fields[at].0.clone(), owner);
                },
                None => {
                    proof {
                        assert(owner_in(trees[id]) is None);
                    }
                    return None;
                },
            }
        }
        at += 1;
        proof {
            assert(fields@[at - 1].0@ == id);
            assert forall|k: Seq<char>| sessions@.contains_key(k) <==> exists|i: int|
                0 <= i < at && (#[trigger] fields@[i]).0@ == k by {
                if before.contains_key(k) {
                    let i = choose|i: int| 0 <= i < at - 1 && (#[trigger] fields@[i]).0@ == k;
                    assert(0 <= i < at && fields@[i].0@ == k);
                }
                if exists|i: int| 0 <= i < at && (#[trigger] fields@[i]).0@ == k {
                    let i = choose|i: int| 0 <= i < at && (#[trigger] fields@[i]).0@ == k;
                    if i < at - 1 {
                        assert(before.contains_key(k));
                    }
                }
            }
        }
    }
    proof {
        assert forall|id: Seq<char>| trees.contains_key(id) == sessions@.contains_key(id) by {
            json::fields_view_keys(fields@, id);
        }
        assert(trees.map_values(|owner: JsonView| owner_in(owner)->0) =~= owners_view(sessions@));
        let state = StateView { version: 1, sessions: owners_view(sessions@) };
        assert forall|id: Seq<char>| state.sessions.contains_key(id) implies (
        #[trigger] state.sessions[id]).assigned_at.valid() by {
            assert(sessions@.contains_key(id));
        }
    }
    Some(sessions)
}

fn read_version(tree: &Json) -> (version: Option<u32>)
    ensures
        version == version_in(tree@),
{
    match tree.as_u64() {
        Some(n) => {
            if n <= 0xffff_ffff {
                let version: u32 = n as u32;
                proof {
                    assert(is_version(tree@, version));
                    let other = choose|v: u32| is_version(tree@, v);
                    assert(tree@ == JsonView::Number(json::integer_number((other as u64) as int)));
                }
                Some(version)
            } else {
                proof {
                    if exists|v: u32| is_version(tree@, v) {
                        let v = choose|v: u32| is_version(tree@, v);
                        assert(tree@ == JsonView::Number(json::integer_number((v as u64) as int)));
                    }
                }
                None
            }
        },
        None => {
            proof {
                if exists|v: u32| is_version(tree@, v) {
                    let v = choose|v: u32| is_version(tree@, v);
                    assert(tree@ == JsonView::Number(json::integer_number((v as u64) as int)));
                }
            }
            None
        },
    }
}

fn read_state_of(version: Option<&Json>, sessions: Option<&Json>) -> (state: Option<RouterState>)
    ensures
        ({
            let read = state_of(
                match version {
                    Some(tree) => Some(tree@),
                    None => None,
                },
                match sessions {
                    Some(tree) => Some(tree@),
                    None => None,
                },
            );
            &&& state is Some == read is Some
            &&& state matches Some(s) ==> s.wf() && read == Some(s@)
        }),
{
    let number = match version {
        Some(tree) => read_version(tree),
        None => Some(state_version()),
    };
    let owners = match sessions {
        Some(tree) => read_sessions(tree),
        None => {
            let table: Table<SessionOwner> = Table::new();
            proof {
                assert(owners_view(table@) =~= Map::<Seq<char>, OwnerView>::empty());
            }
            Some(table)
        },
    };
    match (number, owners) {
        (Some(version), Some(sessions)) => {
            let state = RouterState { version, sessions };
            proof {
                let plain = StateView { version: 1, sessions: owners_view(sessions@) };
                assert(plain.valid());
                assert forall|id: Seq<char>| state@.sessions.contains_key(id) implies (
                #[trigger] state@.sessions[id]).assigned_at.valid() by {
                    assert(plain.sessions[id].assigned_at.valid());
                }
            }
            Some(state)
        },
        _ => None,
    }
}

impl RouterState {
    /// Reads a state from a tree.
    pub fn from_json(tree: &Json) -> (state: Option<RouterState>)
        ensures
            state is Some == state_in(tree@) is Some,
            state matches Some(s) ==> s.wf() && state_in(tree@) == Some(s@),
    {
        match tree {
            Json::Object(_) => read_state_of(tree.field("version"), tree.field("sessions")),
            Json::Array(items) => {
                if items.len() > 2 {
                    None
                } else {
                    let version = if items.len() > 0 {
                        Some(&items[0])
                    } else {
                        None
                    };
                    let sessions = if items.len() > 1 {
                        Some(&items[1])
                    } else {
                        None
                    };
                    read_state_of(version, sessions)
                }
            },
            _ => None,
        }
    }
}

/// An owner is read back from what was written of it.
proof fn owner_reads_back(owner: OwnerView)
    requires
        clock::parsed_moment(
            clock::moment_text(owner.assigned_at.seconds as int, owner.assigned_at.nanos as int),
        ) == Some(owner.assigned_at),
    ensures
        owner_in(owner_json(owner)) == Some(owner),
{
    reveal_strlit("account_id");
    reveal_strlit("assigned_at");
    assert("account_id"@.len() != "assigned_at"@.len());
}

/// What is written of an owner holds no number and is not nested.
proof fn owner_json_is_exact(owner: OwnerView)
    ensures
        owner_json(owner).is_exact(1),
{
    let fields = owner_json(owner)->Object_0;
    assert forall|key: Seq<char>| fields.contains_key(key) implies (
    #[trigger] fields[key]).is_exact(0) by {
    }
}

fn print_owner(owner: &SessionOwner) -> (tree: Json)
    requires
        owner.assigned_at.valid(),
    ensures
        tree@ == owner_json(owner@),
        owner_in(owner_json(owner@)) == Some(owner@),
{
    let moment = owner.assigned_at.to_text();
    proof {
        owner_reads_back(owner@);
    }
    Json::empty_object().and("account_id", Json::text(owner.account_id.as_str())).and(
        "assigned_at",
        Json::Text(moment),
    )
}

fn print_sessions(sessions: &Table<SessionOwner>) -> (tree: Json)
    requires
        sessions.wf(),
        (StateView { version: 1, sessions: owners_view(sessions@) }).valid(),
    ensures
        tree@ == sessions_json(owners_view(sessions@)),
        sessions_in(tree@) == Some(owners_view(sessions@)),
{
    let ghost owners = owners_view(sessions@);
    let ghost state = StateView { version: 1, sessions: owners };
    let ghost keys = sessions.keys();
    let mut fields: Vec<(String, Json)> = Vec::new();
    let mut at: usize = 0;
    let total = sessions.len();
    proof {
        sessions.positions();
    }
    while at < total
        invariant
            sessions.wf(),
            keys == sessions.keys(),
            keys.no_duplicates(),
            total == keys.len(),
            at <= total,
            owners == owners_view(sessions@),
            state == (StateView { version: 1, sessions: owners }),
            state.valid(),
            forall|id: Seq<char>|
                json::fields_view(fields@).contains_key(id) <==> exists|i: int|
                    0 <= i < at && #[trigger] keys[i] == id,
            forall|id: Seq<char>| #[trigger]
                json::fields_view(fields@).contains_key(id) ==> owners.contains_key(id)
                    && json::fields_view(fields@)[id] == owner_json(owners[id]),
            forall|id: Seq<char>| #[trigger]
                json::fields_view(fields@).contains_key(id) ==> owner_in(
                    json::fields_view(fields@)[id],
                ) == Some(owners[id]),
        decreases total - at,
    {
        let ghost before = fields@;
        let owner = sessions.value_at(at);
        let ghost id = keys[at as int];
        proof {
            assert(owners.contains_key(id));
            assert(state.sessions[id].assigned_at.valid());
        }
        let tree = print_owner(owner);
        fields.push((sessions.key_at(at).clone(), tree));
        at += 1;
        proof {
            assert(fields@.drop_last() =~= before);
            assert(json::fields_view(fields@) == json::fields_view(before).insert(id, tree@));
            assert forall|k: Seq<char>| json::fields_view(fields@).contains_key(k) <==> exists|
                i: int,
            |
                0 <= i < at && #[trigger] keys[i] == k by {
                if json::fields_view(before).contains_key(k) {
                    let i = choose|i: int| 0 <= i < at - 1 && #[trigger] keys[i] == k;
                    assert(0 <= i < at && keys[i] == k);
                }
                if k == id {
                    assert(keys[at - 1] == k);
                }
            }
        }
    }
    proof {
        sessions.positions();
        assert forall|id: Seq<char>| owners.contains_key(id) == json::fields_view(
            fields@,
        ).contains_key(id) by {
            if owners.contains_key(id) {
                assert(sessions@.contains_key(id));
                assert(keys.contains(id));
                assert(keys[keys.index_of(id)] == id);
            }
        }
        assert(json::fields_view(fields@) =~= owners.map_values(
            |owner: OwnerView| owner_json(owner),
        ));
        assert(json::fields_view(fields@).map_values(|owner: JsonView| owner_in(owner)->0)
            =~= owners);
    }
    Json::Object(fields)
}

/// A state is written with integers only, and nested but a little.
proof fn state_is_exact(state: StateView)
    ensures
        sessions_json(state.sessions).is_exact(2),
        JsonView::Number(json::integer_number(state.version as int)).is_exact(2),
{
    let fields = sessions_json(state.sessions)->Object_0;
    assert forall|id: Seq<char>| fields.contains_key(id) implies (#[trigger] fields[id]).is_exact(
        1,
    ) by {
        owner_json_is_exact(state.sessions[id]);
    }
}

/// A tree that may be nested so deep may be nested deeper.
proof fn exact_when_deeper(tree: JsonView, depth: nat, deeper: nat)
    requires
        tree.is_exact(depth),
        depth <= deeper,
    ensures
        tree.is_exact(deeper),
    decreases depth,
{
    match tree {
        JsonView::Array(items) => {
            assert forall|i: int| 0 <= i < items.len() implies (#[trigger] items[i]).is_exact(
                (deeper - 1) as nat,
            ) by {
                exact_when_deeper(items[i], (depth - 1) as nat, (deeper - 1) as nat);
            }
        },
        JsonView::Object(fields) => {
            assert forall|key: Seq<char>| fields.contains_key(key) implies (
            #[trigger] fields[key]).is_exact((deeper - 1) as nat) by {
                exact_when_deeper(fields[key], (depth - 1) as nat, (deeper - 1) as nat);
            }
        },
        _ => {},
    }
}

impl RouterState {
    /// The document that keeps the state: a file that holds it is loaded as this very state.
    pub fn document(&self) -> (document: String)
        requires
            self.wf(),
        ensures
            document@ == document_text(self@),
            state_in_document(document@) == Some(self@),
            loaded_text(document@) == Some(self@),
            loaded_state(ReadOutcome::Text(document)) == Some(self@),
    {
        let ghost state = self@;
        proof {
            let plain = StateView { version: 1, sessions: state.sessions };
            assert forall|id: Seq<char>| plain.sessions.contains_key(id) implies (
            #[trigger] plain.sessions[id]).assigned_at.valid() by {
                assert(state.sessions[id].assigned_at.valid());
            }
        }
        let version = Json::integer(self.version as i64);
        let sessions = print_sessions(&self.sessions);
        let ghost version_tree = version@;
        let ghost sessions_tree = sessions@;
        let mut fields: Vec<(String, Json)> = Vec::new();
        fields.push(("version".to_owned(), version));
        let ghost one = fields@;
        fields.push(("sessions".to_owned(), sessions));
        let ghost both = json::fields_view(fields@);
        proof {
            reveal_strlit("version");
            reveal_strlit("sessions");
            assert("version"@.len() != "sessions"@.len());
            assert(fields@.drop_last() =~= one);
            assert(one.drop_last() =~= Seq::<(String, Json)>::empty());
            assert(json::fields_view(one.drop_last()) =~= Map::empty());
            assert(one.last().0@ == "version"@ && one.last().1@ == version_tree);
            assert(json::fields_view(one) == json::fields_view(one.drop_last()).insert(
                "version"@,
                version_tree,
            ));
            assert(fields@.last().0@ == "sessions"@ && fields@.last().1@ == sessions_tree);
            assert(both =~= Map::empty().insert("version"@, version_tree).insert(
                "sessions"@,
                sessions_tree,
            ));
            assert(json::listed_fields(fields@) =~= state_fields(state));
            state_is_exact(state);
            assert forall|key: Seq<char>| both.contains_key(key) implies (
            #[trigger] both[key]).is_exact((json::nesting_limit() - 1) as nat) by {
                exact_when_deeper(both[key], 2, (json::nesting_limit() - 1) as nat);
            }
            assert(JsonView::Object(both).is_exact(json::nesting_limit()));
            assert(is_version(version_tree, state.version));
            assert(version_in(version_tree) == Some(state.version)) by {
                let other = choose|v: u32| is_version(version_tree, v);
                assert(json::integer_number(state.version as int) == json::integer_number(
                    other as int,
                ));
            }
        }
        let document = json::print_fields(&fields);
        proof {
            text::solid_start_is_not_blank(document@);
        }
        document
    }
}

// ---------------------------------------------------------------------------
// The file
// ---------------------------------------------------------------------------

/// What came of an attempt to read a file whole.
pub enum ReadOutcome {
    Text(String),
    NotFound,
    Failed(String),
}

/// Why the state could not be loaded.
pub enum StateError {
    /// The file holds something else than a state; where it is no JSON text, the words that say so.
    Malformed(Option<String>),
    /// The file could not be read, with the words of the system.
    Unreadable(String),
}

/// The steps by which a document is put in its place.
pub open spec fn save_steps(document: Seq<char>, process_id: u32, unix: bool) -> Seq<FileStepView> {
    seq![
        FileStepView::CreateParent,
        FileStepView::WriteTemporary {
            extension: "json."@ + text::decimal(process_id as nat) + ".tmp"@,
            contents: document,
        },
    ] + (if unix {
        seq![FileStepView::RestrictTemporary { mode: 0o600 }]
    } else {
        Seq::empty()
    }) + seq![FileStepView::RenameTemporary]
}

/// What the text of a file says of the state: a blank text says that it is fresh.
pub open spec fn loaded_text(raw: Seq<char>) -> Option<StateView> {
    if text::trimmed(raw).len() == 0 {
        Some(fresh_state())
    } else {
        state_in_document(raw)
    }
}

/// What a file that was read says of the state, if it says anything.
pub open spec fn loaded_state(outcome: ReadOutcome) -> Option<StateView> {
    match outcome {
        ReadOutcome::Text(raw) => loaded_text(raw@),
        ReadOutcome::NotFound => Some(fresh_state()),
        ReadOutcome::Failed(_) => None,
    }
}

/// The place of the state on disk.
pub struct StateStore {
    path: std::path::PathBuf,
}

impl StateStore {
    /// The file that keeps the state.
    pub closed spec fn location(self) -> std::path::PathBuf {
        self.path
    }

    /// A store that keeps the state in the file at `path`.
    pub fn new(path: std::path::PathBuf) -> (store: StateStore)
        ensures
            store.location() == path,
    {
        StateStore { path }
    }

    /// The file that keeps the state.
    pub fn path(&self) -> (path: &std::path::PathBuf)
        ensures
            *path == self.location(),
    {
        &self.path
    }

    /// The state that the file keeps, from what reading the file gave. A file that is missing or
    /// blank keeps the fresh state.
    pub fn load(&self, outcome: ReadOutcome) -> (loaded: Result<RouterState, StateError>)
        ensures
            loaded is Ok == loaded_state(outcome) is Some,
            loaded matches Ok(state) ==> state.wf() && loaded_state(outcome) == Some(state@),
            loaded matches Err(StateError::Unreadable(words)) ==> outcome == ReadOutcome::Failed(
                words,
            ),
            loaded matches Err(StateError::Malformed(words)) ==> outcome is Text && (
            words is None == json::parsed_json(outcome->Text_0@) is Ok),
            loaded matches Err(StateError::Malformed(Some(words))) ==> json::parsed_json(
                outcome->Text_0@,
            ) == Err::<JsonView, Seq<char>>(words@),
    {
        match outcome {
            ReadOutcome::Text(raw) => {
                let short = text::trim(raw.as_str());
                if short.as_str().is_empty() {
                    return Ok(RouterState::default());
                }
                match Json::parse(raw.as_str()) {
                    Ok(tree) => match RouterState::from_json(&tree) {
                        Some(state) => Ok(state),
                        None => Err(StateError::Malformed(None)),
                    },
                    Err(words) => Err(StateError::Malformed(Some(words))),
                }
            },
            ReadOutcome::NotFound => Ok(RouterState::default()),
            ReadOutcome::Failed(words) => Err(StateError::Unreadable(words)),
        }
    }

    /// The steps by which a document is put in the file. Until the last of them the file keeps what
    /// it held.
    pub fn put(&self, document: String, process_id: u32, unix: bool) -> (steps: Vec<FileStep>)
        ensures
            private_fs::steps_view(steps@) == save_steps(document@, process_id, unix),
    {
        let number = text::decimal_text(process_id as u64);
        let extension = text::join3("json.", number.as_str(), ".tmp");
        let mut steps: Vec<FileStep> = Vec::new();
        steps.push(FileStep::CreateParent);
        steps.push(FileStep::WriteTemporary { extension, contents: document });
        if unix {
            steps.push(FileStep::RestrictTemporary { mode: 0o600 });
        }
        steps.push(FileStep::RenameTemporary);
        proof {
            assert(private_fs::steps_view(steps@) =~= save_steps(document@, process_id, unix));
        }
        steps
    }

    /// The steps by which a state is put in the file. When they are done, whatever the file held
    /// before, it is loaded as this very state.
    pub fn save(&self, state: &RouterState, process_id: u32, unix: bool) -> (steps: Vec<FileStep>)
        requires
            state.wf(),
        ensures
            private_fs::steps_view(steps@) == save_steps(document_text(state@), process_id, unix),
            loaded_text(document_text(state@)) == Some(state@),
            forall|i: int|
                0 <= i < steps@.len() && #[trigger] steps@[i] is WriteTemporary ==> loaded_state(
                    ReadOutcome::Text(steps@[i]->contents),
                ) == Some(state@),
    {
        let document = state.document();
        let steps = self.put(document, process_id, unix);
        proof {
            let views = private_fs::steps_view(steps@);
            assert forall|i: int|
                0 <= i < steps@.len() && #[trigger] steps@[i] is WriteTemporary implies loaded_state(
                ReadOutcome::Text(steps@[i]->contents),
            ) == Some(state@) by {
                assert(views[i] == steps@[i]@);
                let planned = save_steps(document_text(state@), process_id, unix);
                assert(views == planned);
                assert(planned.last() is RenameTemporary);
                assert(unix ==> planned[2] is RestrictTemporary);
                assert(planned[i] is WriteTemporary);
                assert(i == 1);
                assert(planned[1]->contents == document_text(state@));
            }
        }
        steps
    }
}

impl StateError {
    /// What the user is told, with the place of the file.
    pub fn message(&self, path: &str) -> (message: String)
        ensures
            message@ == (match *self {
                StateError::Malformed(_) => "parse router state "@,
                StateError::Unreadable(_) => "read router state "@,
            }) + path@,
    {
        match self {
            StateError::Malformed(_) => text::join("parse router state ", path),
            StateError::Unreadable(_) => text::join("read router state ", path),
        }
    }
}

// ---------------------------------------------------------------------------
// Laws
// ---------------------------------------------------------------------------

/// After a session was given to an account, that account owns it, and every other session has the
/// owner that it had.
pub proof fn assignment_is_sticky(
    state: StateView,
    session_id: Seq<char>,
    account_id: Seq<char>,
    now: Timestamp,
    other: Seq<char>,
)
    ensures
        state.assigned(session_id, account_id, now).owner(session_id) == Some(account_id),
        other != session_id ==> state.assigned(session_id, account_id, now).owner(other)
            == state.owner(other),
{
}

/// After a session was forgotten, it has no owner, and every other session has the owner that it
/// had.
pub proof fn removal_forgets_one(state: StateView, session_id: Seq<char>, other: Seq<char>)
    ensures
        state.without(session_id).owner(session_id) is None,
        other != session_id ==> state.without(session_id).owner(other) == state.owner(other),
{
}

/// To give a new session to an account raises the number of its sessions by one, and that of no
/// other account.
pub proof fn assignment_counts_once(
    state: StateView,
    session_id: Seq<char>,
    account_id: Seq<char>,
    now: Timestamp,
    other: Seq<char>,
)
    requires
        state.sessions.dom().finite(),
        state.owner(session_id) is None,
    ensures
        state.assigned(session_id, account_id, now).owned(account_id).len() == state.owned(
            account_id,
        ).len() + 1,
        other != account_id ==> state.assigned(session_id, account_id, now).owned(other)
            == state.owned(other),
{
    let after = state.assigned(session_id, account_id, now);
    assert(after.owned(account_id) =~= state.owned(account_id).insert(session_id));
    assert(!state.owned(account_id).contains(session_id));
    if other != account_id {
        assert(after.owned(other) =~= state.owned(other));
    }
}

}
