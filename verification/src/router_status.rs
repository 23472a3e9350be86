//! What others can see of the router: whether it runs, and which sessions it has assigned.

use vstd::prelude::*;

use crate::clock::Timestamp;
use crate::json;
use crate::json::{Json, JsonView};
use crate::state;
use crate::state::{OwnerView, ReadOutcome, SessionOwner, StateView};
use crate::table;
use crate::table::Table;
use crate::text;

verus! {

/// A session and the account that it is assigned to.
pub struct SessionAssignment {
    pub session_id: String,
    pub account_id: String,
    pub assigned_at: Timestamp,
}

/// What an assignment says.
pub struct AssignmentView {
    pub session_id: Seq<char>,
    pub account_id: Seq<char>,
    pub assigned_at: Timestamp,
}

impl SessionAssignment {
    pub open spec fn view(&self) -> AssignmentView {
        AssignmentView {
            session_id: self.session_id@,
            account_id: self.account_id@,
            assigned_at: self.assigned_at,
        }
    }
}

/// What others can see of the router.
pub struct RouterStatusSnapshot {
    pub running: bool,
    pub session_count: usize,
    pub account_session_counts: Table<usize>,
    pub sessions: Vec<SessionAssignment>,
}

/// What assignments say, one by one.
pub open spec fn assignments_view(sessions: Seq<SessionAssignment>) -> Seq<AssignmentView> {
    sessions.map_values(|session: SessionAssignment| session@)
}

/// All sessions in the order of their ids, each with its owner.
pub open spec fn assignments(sessions: Map<Seq<char>, OwnerView>) -> Seq<AssignmentView> {
    table::in_order(sessions.dom()).map_values(
        |id: Seq<char>|
            AssignmentView {
                session_id: id,
                account_id: sessions[id].account_id,
                assigned_at: sessions[id].assigned_at,
            },
    )
}

/// The sessions of an account.
pub open spec fn sessions_of(
    sessions: Map<Seq<char>, OwnerView>,
    account_id: Seq<char>,
) -> Set<Seq<char>> {
    StateView { version: 1, sessions }.owned(account_id)
}

/// Whether counts tell how many sessions each account has: every account with a session, and no
/// other, stands there with the number of its sessions.
pub open spec fn counts_sessions(
    counts: Map<Seq<char>, usize>,
    sessions: Map<Seq<char>, OwnerView>,
) -> bool {
    &&& forall|account_id: Seq<char>|
        counts.contains_key(account_id) <==> exists|id: Seq<char>|
            sessions.contains_key(id) && (#[trigger] sessions[id]).account_id == account_id
    &&& forall|account_id: Seq<char>| #[trigger]
        counts.contains_key(account_id) ==> counts[account_id] == sessions_of(
            sessions,
            account_id,
        ).len()
}

impl RouterStatusSnapshot {
    /// The tables are in order.
    pub open spec fn wf(self) -> bool {
        self.account_session_counts.wf()
    }

    /// Whether the snapshot shows these sessions.
    pub open spec fn shows(self, sessions: Map<Seq<char>, OwnerView>) -> bool {
        &&& self.wf()
        &&& assignments_view(self.sessions@) == assignments(sessions)
        &&& self.session_count == sessions.dom().len()
        &&& counts_sessions(self.account_session_counts@, sessions)
    }
}

impl Default for RouterStatusSnapshot {
    /// A router that does not run and has assigned nothing.
    fn default() -> (status: RouterStatusSnapshot)
        ensures
            status.wf(),
            !status.running,
            status.session_count == 0,
            status.account_session_counts@ == Map::<Seq<char>, usize>::empty(),
            status.sessions@ == Seq::<SessionAssignment>::empty(),
    {
        RouterStatusSnapshot {
            running: false,
            session_count: 0,
            account_session_counts: Table::new(),
            sessions: Vec::new(),
        }
    }
}

// ---------------------------------------------------------------------------
// The sessions
// ---------------------------------------------------------------------------

/// Why the status could not be told.
pub enum StatusError {
    /// The file holds something else than a state; where it is no JSON text, the words that say so.
    Malformed(Option<String>),
    /// The system refused, with its words.
    System(String),
}

/// The sessions in a tree: an object, in which other fields are passed over, or an array of at most
/// that one value.
pub open spec fn persisted_in(tree: JsonView) -> Option<Map<Seq<char>, OwnerView>> {
    match tree {
        JsonView::Object(fields) => match tree.field("sessions"@) {
            Some(sessions) => state::sessions_in(sessions),
            None => Some(Map::empty()),
        },
        JsonView::Array(items) => if items.len() == 0 {
            Some(Map::empty())
        } else if items.len() == 1 {
            state::sessions_in(items[0])
        } else {
            None
        },
        _ => None,
    }
}

/// The sessions that a file keeps, from what reading it gave.
pub open spec fn persisted_sessions(outcome: ReadOutcome) -> Option<Map<Seq<char>, OwnerView>> {
    match outcome {
        ReadOutcome::Text(raw) => if text::trimmed(raw@).len() == 0 {
            Some(Map::empty())
        } else {
            match json::parsed_json(raw@) {
                Ok(tree) => persisted_in(tree),
                Err(_) => None,
            }
        },
        ReadOutcome::NotFound => Some(Map::empty()),
        ReadOutcome::Failed(_) => None,
    }
}

fn no_sessions() -> (sessions: Table<SessionOwner>)
    ensures
        sessions.wf(),
        state::owners_view(sessions@) == Map::<Seq<char>, OwnerView>::empty(),
{
    let sessions: Table<SessionOwner> = Table::new();
    proof {
        assert(state::owners_view(sessions@) =~= Map::<Seq<char>, OwnerView>::empty());
    }
    sessions
}

fn read_persisted(tree: &Json) -> (sessions: Option<Table<SessionOwner>>)
    ensures
        sessions is Some == persisted_in(tree@) is Some,
        sessions matches Some(table) ==> table.wf() && persisted_in(tree@) == Some(
            state::owners_view(table@),
        ),
{
    match tree {
        Json::Object(_) => match tree.field("sessions") {
            Some(sessions) => state::read_sessions(sessions),
            None => Some(no_sessions()),
        },
        Json::Array(items) => {
            if items.len() == 0 {
                Some(no_sessions())
            } else if items.len() == 1 {
                state::read_sessions(&items[0])
            } else {
                None
            }
        },
        _ => None,
    }
}

/// The sessions that a file keeps, from what reading it gave. A file that is missing or blank keeps
/// none.
pub fn read_persisted_sessions(outcome: ReadOutcome) -> (sessions: Result<
    Table<SessionOwner>,
    StatusError,
>)
    ensures
        sessions is Ok == persisted_sessions(outcome) is Some,
        sessions matches Ok(table) ==> table.wf() && persisted_sessions(outcome) == Some(
            state::owners_view(table@),
        ),
        sessions matches Err(StatusError::System(words)) ==> outcome == ReadOutcome::Failed(words),
        sessions matches Err(StatusError::Malformed(words)) ==> outcome is Text && (
        words is None == json::parsed_json(outcome->Text_0@) is Ok),
        sessions matches Err(StatusError::Malformed(Some(words))) ==> json::parsed_json(
            outcome->Text_0@,
        ) == Err::<JsonView, Seq<char>>(words@),
{
    match outcome {
        ReadOutcome::Text(raw) => {
            let short = text::trim(raw.as_str());
            if short.as_str().is_empty() {
                return Ok(no_sessions());
            }
            match Json::parse(raw.as_str()) {
                Ok(tree) => match read_persisted(&tree) {
                    Some(sessions) => Ok(sessions),
                    None => Err(StatusError::Malformed(None)),
                },
                Err(words) => Err(StatusError::Malformed(Some(words))),
            }
        },
        ReadOutcome::NotFound => Ok(no_sessions()),
        ReadOutcome::Failed(words) => Err(StatusError::System(words)),
    }
}

// ---------------------------------------------------------------------------
// The lock
// ---------------------------------------------------------------------------

/// What came of an attempt to take the lock of the router.
pub enum LockProbe {
    /// The lock was free, and is free again.
    Free,
    /// The lock was refused: whether because it would have blocked, the number of the system's
    /// error if it has one, and its words.
    Refused { would_block: bool, code: Option<i32>, words: String },
    /// The lock could not be tried for, with the words of the system.
    Failed(String),
}

/// Whether a refusal says that another holds the lock. On Windows two errors say so too: that the
/// file is in use, and that a part of it is locked.
pub open spec fn is_conflict(would_block: bool, code: Option<i32>, windows: bool) -> bool {
    would_block || (windows && (code == Some(32i32) || code == Some(33i32)))
}

/// Whether a refusal says that another holds the lock.
pub fn lock_conflict(would_block: bool, code: Option<i32>, windows: bool) -> (conflict: bool)
    ensures
        conflict == is_conflict(would_block, code, windows),
{
    if would_block {
        return true;
    }
    match code {
        Some(number) => windows && (number == 32 || number == 33),
        None => false,
    }
}

/// Whether another holds the lock.
pub fn lock_is_held(probe: LockProbe, windows: bool) -> (held: Result<bool, StatusError>)
    ensures
        match probe {
            LockProbe::Free => held == Ok::<bool, StatusError>(false),
            LockProbe::Refused { would_block, code, words } => if is_conflict(
                would_block,
                code,
                windows,
            ) {
                held == Ok::<bool, StatusError>(true)
            } else {
                held == Err::<bool, StatusError>(StatusError::System(words))
            },
            LockProbe::Failed(words) => held == Err::<bool, StatusError>(
                StatusError::System(words),
            ),
        },
{
    match probe {
        LockProbe::Free => Ok(false),
        LockProbe::Refused { would_block, code, words } => {
            if lock_conflict(would_block, code, windows) {
                Ok(true)
            } else {
                Err(StatusError::System(words))
            }
        },
        LockProbe::Failed(words) => Err(StatusError::System(words)),
    }
}

// ---------------------------------------------------------------------------
// The snapshot
// ---------------------------------------------------------------------------

/// The sessions among the first of the ids.
spec fn among(sessions: Map<Seq<char>, OwnerView>, ids: Seq<Seq<char>>) -> Map<
    Seq<char>,
    OwnerView,
> {
    sessions.restrict(ids.to_set())
}

/// To look at one more session is to add it to its account.
proof fn one_more(
    sessions: Map<Seq<char>, OwnerView>,
    ids: Seq<Seq<char>>,
    at: int,
    account_id: Seq<char>,
)
    requires
        0 <= at < ids.len(),
        ids.no_duplicates(),
        sessions.dom().finite(),
        forall|i: int| 0 <= i < ids.len() ==> sessions.contains_key(#[trigger] ids[i]),
    ensures
        ({
            let before = sessions_of(among(sessions, ids.take(at)), account_id);
            let after = sessions_of(among(sessions, ids.take(at + 1)), account_id);
            &&& before.finite()
            &&& sessions[ids[at]].account_id == account_id ==> after.len() == before.len() + 1
            &&& sessions[ids[at]].account_id != account_id ==> after == before
        }),
{
    let shorter = ids.take(at);
    let longer = ids.take(at + 1);
    let id = ids[at];
    let before = sessions_of(among(sessions, shorter), account_id);
    let after = sessions_of(among(sessions, longer), account_id);
    assert(!shorter.contains(id)) by {
        if shorter.contains(id) {
            let p = shorter.index_of(id);
            assert(ids[p] == ids[at]);
        }
    }
    assert(longer =~= shorter.push(id));
    assert forall|k: Seq<char>| longer.to_set().contains(k) == (shorter.to_set().contains(k) || k
        == id) by {
        if shorter.contains(k) {
            assert(longer[shorter.index_of(k)] == k);
        }
        if k == id {
            assert(longer[at] == k);
        }
    }
    assert(before.finite()) by {
        assert(before.subset_of(sessions.dom()));
        vstd::set_lib::lemma_len_subset(before, sessions.dom());
    }
    if sessions[id].account_id == account_id {
        assert(after =~= before.insert(id));
        assert(!before.contains(id));
    } else {
        assert(after =~= before);
    }
}

/// What others can see of the router, from the sessions that it keeps and whether it runs.
pub fn load_router_status_from(persisted: &Table<SessionOwner>, running: bool) -> (status:
    RouterStatusSnapshot)
    requires
        persisted.wf(),
    ensures
        status.shows(state::owners_view(persisted@)),
        status.running == running,
{
    let ghost owners = state::owners_view(persisted@);
    let ghost ids = persisted.keys();
    let mut counts: Table<usize> = Table::new();
    let mut sessions: Vec<SessionAssignment> = Vec::new();
    let mut at: usize = 0;
    let total = persisted.len();
    proof {
        persisted.positions();
        ids.unique_seq_to_set();
        assert(owners.dom() =~= ids.to_set());
        assert(owners.dom().finite());
        assert(ids.take(0).to_set() =~= Set::empty());
        assert(among(owners, ids.take(0)) =~= Map::empty());
    }
    while at < total
        invariant
            persisted.wf(),
            owners == state::owners_view(persisted@),
            owners.dom().finite(),
            ids == persisted.keys(),
            ids.no_duplicates(),
            total == ids.len(),
            at <= total,
            forall|i: int| 0 <= i < ids.len() ==> owners.contains_key(#[trigger] ids[i]),
            sessions@.len() == at,
            forall|i: int|
                0 <= i < at ==> (#[trigger] sessions@[i])@ == (AssignmentView {
                    session_id: ids[i],
                    account_id: owners[ids[i]].account_id,
                    assigned_at: owners[ids[i]].assigned_at,
                }),
            counts.wf(),
            counts_sessions(counts@, among(owners, ids.take(at as int))),
            forall|account_id: Seq<char>| #[trigger]
                counts@.contains_key(account_id) ==> counts@[account_id] <= at,
        decreases total - at,
    {
        let owner = persisted.value_at(at);
        let account_id = owner.account_id.clone();
        let ghost name = account_id@;
        let ghost id = ids[at as int];
        let ghost before = counts@;
        let ghost seen = among(owners, ids.take(at as int));
        let ghost next = among(owners, ids.take(at + 1));
        proof {
            assert(owners.contains_key(id));
            assert(owners[id] == owner@);
        }
        let known = match counts.get(account_id.as_str()) {
            Some(count) => *count,
            None => 0,
        };
        proof {
            if !before.contains_key(name) {
                assert(sessions_of(seen, name) =~= Set::empty()) by {
                    assert forall|k: Seq<char>| !sessions_of(seen, name).contains(k) by {
                        if seen.contains_key(k) && seen[k].account_id == name {
                            assert(before.contains_key(name));
                        }
                    }
                }
            }
            assert(known == sessions_of(seen, name).len());
            assert(known <= at);
        }
        counts.insert(account_id, known + 1);
        sessions.push(
            SessionAssignment {
                session_id: persisted.key_at(at).clone(),
                account_id: owner.account_id.clone(),
                assigned_at: owner.assigned_at,
            },
        );
        proof {
            let shorter = ids.take(at as int);
            let longer = ids.take(at + 1);
            assert(longer =~= shorter.push(id));
            assert(longer[at as int] == id);
            assert forall|k: Seq<char>| longer.to_set().contains(k)
                == (shorter.to_set().contains(k) || k == id) by {
                if shorter.contains(k) {
                    assert(longer[shorter.index_of(k)] == k);
                }
            }
            assert forall|k: Seq<char>| seen.contains_key(k) implies next.contains_key(k)
                && next[k] == seen[k] by {
            }
            assert(next.contains_key(id) && next[id].account_id == name);
            assert forall|other: Seq<char>|
                counts@.contains_key(other) <==> exists|k: Seq<char>|
                    next.contains_key(k) && (#[trigger] next[k]).account_id == other by {
                if before.contains_key(other) {
                    let k = choose|k: Seq<char>|
                        seen.contains_key(k) && (#[trigger] seen[k]).account_id == other;
                    assert(next.contains_key(k) && next[k].account_id == other);
                }
                if exists|k: Seq<char>|
                    next.contains_key(k) && (#[trigger] next[k]).account_id == other {
                    let k = choose|k: Seq<char>|
                        next.contains_key(k) && (#[trigger] next[k]).account_id == other;
                    if k != id {
                        assert(seen.contains_key(k) && seen[k].account_id == other);
                    }
                }
            }
            assert forall|other: Seq<char>| #[trigger]
                counts@.contains_key(other) implies counts@[other] == sessions_of(
                next,
                other,
            ).len() by {
                one_more(owners, ids, at as int, other);
                if other != name {
                    assert(before.contains_key(other));
                }
            }
        }
        at += 1;
    }
    proof {
        assert(ids.take(ids.len() as int) =~= ids);
        assert(among(owners, ids) =~= owners);
        assert(assignments_view(sessions@) =~= assignments(owners));
    }
    RouterStatusSnapshot {
        running,
        session_count: sessions.len(),
        account_session_counts: counts,
        sessions,
    }
}

// ---------------------------------------------------------------------------
// Laws
// ---------------------------------------------------------------------------

/// The sum of counts.
pub open spec fn total(counts: Map<Seq<char>, usize>) -> nat
    decreases counts.dom().len(),
    when counts.dom().finite()
{
    if counts.dom().is_empty() {
        0
    } else {
        let account_id = counts.dom().choose();
        counts[account_id] as nat + total(counts.remove(account_id))
    }
}

/// The sessions of one account, and those of the others, are all the sessions.
proof fn split_off(
    counts: Map<Seq<char>, usize>,
    sessions: Map<Seq<char>, OwnerView>,
    account_id: Seq<char>,
)
    requires
        sessions.dom().finite(),
        counts_sessions(counts, sessions),
        counts.contains_key(account_id),
    ensures
        ({
            let rest = sessions.remove_keys(sessions_of(sessions, account_id));
            &&& counts_sessions(counts.remove(account_id), rest)
            &&& rest.dom().finite()
            &&& rest.dom().len() + counts[account_id] == sessions.dom().len()
        }),
{
    let mine = sessions_of(sessions, account_id);
    let rest = sessions.remove_keys(mine);
    assert(mine.subset_of(sessions.dom()));
    vstd::set_lib::lemma_len_subset(mine, sessions.dom());
    assert(rest.dom() =~= sessions.dom().difference(mine));
    assert(sessions.dom() =~= rest.dom().union(mine));
    assert(rest.dom().disjoint(mine));
    vstd::set_lib::lemma_set_disjoint_lens(rest.dom(), mine);
    let others = counts.remove(account_id);
    assert forall|other: Seq<char>|
        others.contains_key(other) <==> exists|id: Seq<char>|
            rest.contains_key(id) && (#[trigger] rest[id]).account_id == other by {
        if others.contains_key(other) {
            let id = choose|id: Seq<char>|
                sessions.contains_key(id) && (#[trigger] sessions[id]).account_id == other;
            assert(rest.contains_key(id) && rest[id].account_id == other);
        }
        if exists|id: Seq<char>|
            rest.contains_key(id) && (#[trigger] rest[id]).account_id == other {
            let id = choose|id: Seq<char>|
                rest.contains_key(id) && (#[trigger] rest[id]).account_id == other;
            assert(sessions.contains_key(id) && sessions[id].account_id == other);
        }
    }
    assert forall|other: Seq<char>| #[trigger]
        others.contains_key(other) implies others[other] == sessions_of(rest, other).len() by {
        assert(sessions_of(rest, other) =~= sessions_of(sessions, other));
    }
}

/// The numbers of sessions of all accounts add up to the number of sessions.
pub proof fn counts_add_up(counts: Map<Seq<char>, usize>, sessions: Map<Seq<char>, OwnerView>)
    requires
        sessions.dom().finite(),
        counts.dom().finite(),
        counts_sessions(counts, sessions),
    ensures
        total(counts) == sessions.dom().len(),
    decreases counts.dom().len(),
{
    if counts.dom().is_empty() {
        assert(sessions.dom() =~= Set::empty()) by {
            assert forall|id: Seq<char>| !sessions.contains_key(id) by {
                if sessions.contains_key(id) {
                    assert(counts.contains_key(sessions[id].account_id));
                }
            }
        }
    } else {
        let account_id = counts.dom().choose();
        split_off(counts, sessions, account_id);
        counts_add_up(
            counts.remove(account_id),
            sessions.remove_keys(sessions_of(sessions, account_id)),
        );
    }
}

/// Sessions are shown in the order of their ids, each once.
pub proof fn sessions_are_listed_in_order(sessions: Map<Seq<char>, OwnerView>, i: int, j: int)
    requires
        sessions.dom().finite(),
        0 <= i < j < assignments(sessions).len(),
    ensures
        text::text_less(assignments(sessions)[i].session_id, assignments(sessions)[j].session_id),
{
    table::in_order_holds(sessions.dom());
    let ids = table::in_order(sessions.dom());
    assert(text::text_less(ids[i], ids[j]));
}

/// A state file shows the sessions of the state that it keeps.
pub proof fn status_shows_the_state(outcome: ReadOutcome)
    requires
        state::loaded_state(outcome) is Some,
        outcome matches ReadOutcome::Text(raw) ==> text::trimmed(raw@).len() == 0 || (
        json::parsed_json(raw@) is Ok && json::parsed_json(raw@)->Ok_0 is Object),
    ensures
        persisted_sessions(outcome) == Some((state::loaded_state(outcome)->0).sessions),
{
}

}
