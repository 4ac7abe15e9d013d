//! Ingestion of a federated transaction (`/send`).
//!
//! Each PDU goes through [`PduIngest`], a state machine: the caller performs
//! the action that [`PduIngest::action`] names (a store lookup, a request to
//! the sending server, a state resolution, an append) and hands the answer
//! back to [`PduIngest::advance`]. Outcomes are collected per event id in
//! [`TransactionResults`]. EDUs are decided by [`typing_action`].

use vstd::prelude::*;
use vstd::string::*;
use vstd::utf8::encode_utf8;
use crate::backfill::{contains_id, lists};
use crate::pdu_id::{append_key, append_pdu_id, insert_key, insert_pdu_id};

verus! {

/// Why a PDU of a transaction was not accepted.
pub enum PduError {
    /// The room is not known to this server.
    RoomUnknown,
    /// The sender of a non-state event is not joined to the room.
    NotJoined,
    /// State resolution left the event out.
    NotInResolvedSet,
    /// The store could neither append the event nor place it after a known one.
    Unsequenceable,
    /// Fetching the remote state failed, with this message.
    RemoteState(String),
    /// The state resolver failed, with this message.
    Resolver(String),
}

/// The text of an error, as reported to the sending server.
pub open spec fn error_text(e: PduError) -> Seq<char> {
    match e {
        PduError::RoomUnknown => "Room is unknown to this server"@,
        PduError::NotJoined => "User is not in this room"@,
        PduError::NotInResolvedSet => "This event failed authentication, not found in resolved set"@,
        PduError::Unsequenceable => "unsequenceable event"@,
        PduError::RemoteState(m) => m@,
        PduError::Resolver(m) => m@,
    }
}

impl PduError {
    /// The text reported to the sending server.
    pub fn message(&self) -> (r: String)
        ensures
            r@ == error_text(*self),
    {
        match self {
            PduError::RoomUnknown => String::from_str("Room is unknown to this server"),
            PduError::NotJoined => String::from_str("User is not in this room"),
            PduError::NotInResolvedSet => String::from_str(
                "This event failed authentication, not found in resolved set",
            ),
            PduError::Unsequenceable => String::from_str("unsequenceable event"),
            PduError::RemoteState(m) => m.clone(),
            PduError::Resolver(m) => m.clone(),
        }
    }
}

fn copy_outcome(outcome: &Result<(), PduError>) -> (r: Result<(), PduError>)
    ensures
        r == *outcome,
{
    match outcome {
        Ok(u) => Ok(*u),
        Err(PduError::RoomUnknown) => Err(PduError::RoomUnknown),
        Err(PduError::NotJoined) => Err(PduError::NotJoined),
        Err(PduError::NotInResolvedSet) => Err(PduError::NotInResolvedSet),
        Err(PduError::Unsequenceable) => Err(PduError::Unsequenceable),
        Err(PduError::RemoteState(m)) => Err(PduError::RemoteState(m.clone())),
        Err(PduError::Resolver(m)) => Err(PduError::Resolver(m.clone())),
    }
}

/// What the store's placement oracle says of a PDU's parents.
pub enum Placement {
    /// The parents are the current tips: append with a fresh count.
    Append,
    /// The PDU belongs after the event that holds `old_count`, and after the
    /// `prior` events already inserted there.
    Insert { old_count: u64, prior: usize },
    /// Neither.
    Unknown,
}

/// Where the ingestion of one PDU stands.
pub enum PduStage {
    CheckRoom,
    FetchRemoteState,
    CheckMembership,
    ResolveState,
    FindPlacement,
    AllocateCount,
    /// The PDU is accepted and is to be stored with this count, under an
    /// appended key (`inserted` is `None`) or under an inserted key after
    /// this many earlier insertions.
    Store { count: u64, inserted: Option<usize> },
    Finished(Result<(), PduError>),
}

/// An answer that the caller hands back.
pub enum IngestEvent {
    /// Whether the room is known locally.
    RoomKnown(bool),
    /// Whether the remote state at the event could be fetched (the state
    /// itself goes to the resolver and the placement oracle).
    RemoteState(Result<(), String>),
    /// Whether the sender is joined to the room.
    SenderJoined(bool),
    /// The event ids of the resolved state, or the resolver's error.
    Resolution(Result<Vec<String>, String>),
    /// The placement oracle's answer.
    Placed(Placement),
    /// A fresh count from the global counter.
    FreshCount(u64),
}

/// What the caller is to do next.
pub enum IngestAction {
    /// Look up whether the room is known.
    CheckRoom,
    /// Fetch the state at the event from the sending server.
    FetchRemoteState,
    /// Look up whether the sender is joined.
    CheckMembership,
    /// Run state resolution between our state and the remote one.
    ResolveState,
    /// Ask the store where the PDU goes.
    FindPlacement,
    /// Take a fresh count.
    AllocateCount,
    /// Store the PDU with this count under this key, then call `stored`.
    Store { count: u64, pdu_id: Vec<u8> },
    /// Record this outcome for the event.
    Record(Result<(), PduError>),
}

/// The ingestion of one PDU.
pub struct PduIngest {
    pub room_id: String,
    /// The derived event id.
    pub event_id: String,
    /// Whether the PDU has a `state_key`.
    pub is_state: bool,
    pub stage: PduStage,
}

/// Whether an answer is the one that a stage waits for.
pub open spec fn accepts(stage: PduStage, event: IngestEvent) -> bool {
    match (stage, event) {
        (PduStage::CheckRoom, IngestEvent::RoomKnown(_)) => true,
        (PduStage::FetchRemoteState, IngestEvent::RemoteState(_)) => true,
        (PduStage::CheckMembership, IngestEvent::SenderJoined(_)) => true,
        (PduStage::ResolveState, IngestEvent::Resolution(_)) => true,
        (PduStage::FindPlacement, IngestEvent::Placed(_)) => true,
        (PduStage::AllocateCount, IngestEvent::FreshCount(_)) => true,
        _ => false,
    }
}

/// The stage that follows an answer.
pub open spec fn stage_after(
    stage: PduStage,
    is_state: bool,
    event_id: Seq<char>,
    event: IngestEvent,
) -> PduStage {
    match event {
        IngestEvent::RoomKnown(known) => if known {
            PduStage::FetchRemoteState
        } else {
            PduStage::Finished(Err(PduError::RoomUnknown))
        },
        IngestEvent::RemoteState(r) => match r {
            Err(m) => PduStage::Finished(Err(PduError::RemoteState(m))),
            Ok(_) => if is_state {
                PduStage::ResolveState
            } else {
                PduStage::CheckMembership
            },
        },
        IngestEvent::SenderJoined(joined) => if joined {
            PduStage::FindPlacement
        } else {
            PduStage::Finished(Err(PduError::NotJoined))
        },
        IngestEvent::Resolution(r) => match r {
            Err(m) => PduStage::Finished(Err(PduError::Resolver(m))),
            Ok(ids) => if lists(ids@, event_id) {
                PduStage::FindPlacement
            } else {
                PduStage::Finished(Err(PduError::NotInResolvedSet))
            },
        },
        IngestEvent::Placed(p) => match p {
            Placement::Append => PduStage::AllocateCount,
            Placement::Insert { old_count, prior } => PduStage::Store {
                count: old_count,
                inserted: Some(prior),
            },
            Placement::Unknown => PduStage::Finished(Err(PduError::Unsequenceable)),
        },
        IngestEvent::FreshCount(c) => PduStage::Store { count: c, inserted: None },
    }
}

impl PduIngest {
    /// The ingestion of the PDU `event_id` of room `room_id`, which starts
    /// by checking that the room is known.
    pub fn new(room_id: String, event_id: String, is_state: bool) -> (r: Self)
        ensures
            r.room_id == room_id,
            r.event_id == event_id,
            r.is_state == is_state,
            r.stage == PduStage::CheckRoom,
    {
        PduIngest { room_id, event_id, is_state, stage: PduStage::CheckRoom }
    }

    /// Takes the answer that the current stage waits for.
    pub fn advance(&mut self, event: IngestEvent)
        requires
            accepts(old(self).stage, event),
        ensures
            final(self).room_id == old(self).room_id,
            final(self).event_id == old(self).event_id,
            final(self).is_state == old(self).is_state,
            final(self).stage == stage_after(
                old(self).stage,
                old(self).is_state,
                old(self).event_id@,
                event,
            ),
    {
        let next = match event {
            IngestEvent::RoomKnown(known) => if known {
                PduStage::FetchRemoteState
            } else {
                PduStage::Finished(Err(PduError::RoomUnknown))
            },
            IngestEvent::RemoteState(r) => match r {
                Err(m) => PduStage::Finished(Err(PduError::RemoteState(m))),
                Ok(_) => if self.is_state {
                    PduStage::ResolveState
                } else {
                    PduStage::CheckMembership
                },
            },
            IngestEvent::SenderJoined(joined) => if joined {
                PduStage::FindPlacement
            } else {
                PduStage::Finished(Err(PduError::NotJoined))
            },
            IngestEvent::Resolution(r) => match r {
                Err(m) => PduStage::Finished(Err(PduError::Resolver(m))),
                Ok(ids) => if contains_id(&ids, &self.event_id) {
                    PduStage::FindPlacement
                } else {
                    PduStage::Finished(Err(PduError::NotInResolvedSet))
                },
            },
            IngestEvent::Placed(p) => match p {
                Placement::Append => PduStage::AllocateCount,
                Placement::Insert { old_count, prior } => PduStage::Store {
                count: old_count,
                inserted: Some(prior),
            },
                Placement::Unknown => PduStage::Finished(Err(PduError::Unsequenceable)),
            },
            IngestEvent::FreshCount(c) => PduStage::Store { count: c, inserted: None },
        };
        self.stage = next;
    }

    /// The PDU has been stored as the `Store` action asked: it is accepted.
    pub fn stored(&mut self)
        requires
            old(self).stage is Store,
        ensures
            final(self).room_id == old(self).room_id,
            final(self).event_id == old(self).event_id,
            final(self).is_state == old(self).is_state,
            final(self).stage == PduStage::Finished(Ok(())),
    {
        self.stage = PduStage::Finished(Ok(()));
    }

    /// What the caller is to do at the current stage. A PDU is stored
    /// under `room_id || 0xFF || count`, followed, where it is inserted after
    /// an older event, by one `0x01` more than the insertions already there.
    pub fn action(&self) -> (r: IngestAction)
        ensures
            match self.stage {
                PduStage::CheckRoom => r is CheckRoom,
                PduStage::FetchRemoteState => r is FetchRemoteState,
                PduStage::CheckMembership => r is CheckMembership,
                PduStage::ResolveState => r is ResolveState,
                PduStage::FindPlacement => r is FindPlacement,
                PduStage::AllocateCount => r is AllocateCount,
                PduStage::Store { count, inserted } => r matches IngestAction::Store {
                    count: c,
                    pdu_id,
                } && c == count && pdu_id@ == match inserted {
                    Some(prior) => insert_key(encode_utf8(self.room_id@), count, prior as nat),
                    None => append_key(encode_utf8(self.room_id@), count),
                },
                PduStage::Finished(outcome) => r == IngestAction::Record(outcome),
            },
    {
        match &self.stage {
            PduStage::CheckRoom => IngestAction::CheckRoom,
            PduStage::FetchRemoteState => IngestAction::FetchRemoteState,
            PduStage::CheckMembership => IngestAction::CheckMembership,
            PduStage::ResolveState => IngestAction::ResolveState,
            PduStage::FindPlacement => IngestAction::FindPlacement,
            PduStage::AllocateCount => IngestAction::AllocateCount,
            PduStage::Store { count, inserted } => {
                let pdu_id = match inserted {
                    Some(prior) => insert_pdu_id(self.room_id.as_str(), *count, *prior),
                    None => append_pdu_id(self.room_id.as_str(), *count),
                };
                IngestAction::Store { count: *count, pdu_id }
            },
            PduStage::Finished(outcome) => IngestAction::Record(copy_outcome(outcome)),
        }
    }
}

/// The map from event id to outcome that a list of records gives: a later
/// record for an id replaces an earlier one.
pub open spec fn outcome_map(log: Seq<(String, Result<(), PduError>)>) -> Map<
    Seq<char>,
    Result<(), PduError>,
>
    decreases log.len(),
{
    if log.len() == 0 {
        Map::empty()
    } else {
        outcome_map(log.drop_last()).insert(log.last().0@, log.last().1)
    }
}

/// The per-PDU outcomes of a transaction, keyed by event id.
pub struct TransactionResults {
    /// The records, oldest first.
    pub log: Vec<(String, Result<(), PduError>)>,
}

impl View for TransactionResults {
    type V = Map<Seq<char>, Result<(), PduError>>;

    open spec fn view(&self) -> Map<Seq<char>, Result<(), PduError>> {
        outcome_map(self.log@)
    }
}

/// Whether some record of the list is for `id`.
pub open spec fn recorded(log: Seq<(String, Result<(), PduError>)>, id: Seq<char>) -> bool {
    exists|j: int| 0 <= j < log.len() && (#[trigger] log[j]).0@ == id
}

/// The ids that a map of recorded outcomes holds are those of the records.
proof fn lemma_one_entry_per_event(log: Seq<(String, Result<(), PduError>)>)
    ensures
        forall|id: Seq<char>| #[trigger] outcome_map(log).contains_key(id) == recorded(log, id),
    decreases log.len(),
{
    if log.len() > 0 {
        let rest = log.drop_last();
        lemma_one_entry_per_event(rest);
        assert forall|id: Seq<char>| #[trigger] outcome_map(log).contains_key(id) == recorded(log, id) by {
            if recorded(rest, id) {
                let j = choose|j: int| 0 <= j < rest.len() && (#[trigger] rest[j]).0@ == id;
                assert(log[j] == rest[j]);
            }
            if recorded(log, id) && id != log.last().0@ {
                let j = choose|j: int| 0 <= j < log.len() && (#[trigger] log[j]).0@ == id;
                assert(j < rest.len());
                assert(rest[j] == log[j]);
                assert(recorded(rest, id));
            }
            if id == log.last().0@ {
                assert(log[log.len() - 1].0@ == id);
            }
            assert(outcome_map(log) == outcome_map(rest).insert(log.last().0@, log.last().1));
        }
    }
}

/// Recording one outcome for each PDU of a transaction, in turn, under its
/// derived event id leaves exactly one entry for each of those event ids and
/// no other; with pairwise distinct ids there are as many entries as PDUs.
pub proof fn lemma_one_entry_per_pdu(
    event_ids: Seq<Seq<char>>,
    log: Seq<(String, Result<(), PduError>)>,
)
    requires
        log.len() == event_ids.len(),
        forall|i: int| 0 <= i < log.len() ==> (#[trigger] log[i]).0@ == event_ids[i],
    ensures
        outcome_map(log).dom() == event_ids.to_set(),
        event_ids.no_duplicates() ==> outcome_map(log).dom().len() == event_ids.len(),
{
    lemma_one_entry_per_event(log);
    assert forall|id: Seq<char>| outcome_map(log).dom().contains(id) == event_ids.to_set().contains(id) by {
        assert(outcome_map(log).contains_key(id) == recorded(log, id));
        if recorded(log, id) {
            let j = choose|j: int| 0 <= j < log.len() && (#[trigger] log[j]).0@ == id;
            assert(event_ids[j] == id);
        }
        if event_ids.contains(id) {
            let j = choose|j: int| 0 <= j < event_ids.len() && event_ids[j] == id;
            assert(log[j].0@ == id);
        }
    }
    assert(outcome_map(log).dom() =~= event_ids.to_set());
    if event_ids.no_duplicates() {
        event_ids.unique_seq_to_set();
    }
}

/// Whether some record from index `from` on is for `id`.
pub open spec fn recorded_from(log: Seq<(String, Result<(), PduError>)>, from: int, id: Seq<char>) -> bool {
    exists|j: int| from <= j < log.len() && (#[trigger] log[j]).0@ == id
}

/// The outcome of the last record for an id is the one that the map holds.
proof fn lemma_last_record(log: Seq<(String, Result<(), PduError>)>, j: int)
    requires
        0 <= j < log.len(),
        !recorded_from(log, j + 1, log[j].0@),
    ensures
        outcome_map(log).contains_key(log[j].0@),
        outcome_map(log)[log[j].0@] == log[j].1,
    decreases log.len(),
{
    if j < log.len() - 1 {
        let rest = log.drop_last();
        assert(log[log.len() - 1].0@ != log[j].0@);
        assert(rest[j] == log[j]);
        assert forall|m: int| j + 1 <= m < rest.len() implies (#[trigger] rest[m]).0@ != rest[j].0@ by {
            assert(rest[m] == log[m]);
        }
        lemma_last_record(rest, j);
    }
}

/// Whether one of `entries` is for `id`.
fn has_entry(entries: &Vec<(String, Result<(), PduError>)>, id: &String) -> (r: bool)
    ensures
        r == recorded(entries@, id@),
{
    let mut i: usize = 0;
    while i < entries.len()
        invariant
            i <= entries@.len(),
            forall|j: int| 0 <= j < i ==> entries@[j].0@ != id@,
        decreases entries@.len() - i,
    {
        if entries[i].0 == *id {
            assert(entries@[i as int].0@ == id@);
            return true;
        }
        i += 1;
    }
    false
}

impl TransactionResults {
    /// No outcome yet.
    pub fn new() -> (r: Self)
        ensures
            r@ == Map::<Seq<char>, Result<(), PduError>>::empty(),
    {
        TransactionResults { log: Vec::new() }
    }

    /// Records the outcome of the PDU `event_id`.
    pub fn record(&mut self, event_id: String, outcome: Result<(), PduError>)
        ensures
            final(self)@ == old(self)@.insert(event_id@, outcome),
    {
        let ghost before = self.log@;
        self.log.push((event_id, outcome));
        assert(self.log@.drop_last() =~= before);
    }

    /// Whether no outcome has been recorded.
    pub fn is_empty(&self) -> (r: bool)
        ensures
            r == (self@.dom() == Set::<Seq<char>>::empty()),
    {
        if self.log.len() == 0 {
            assert(self@.dom() =~= Set::<Seq<char>>::empty());
            true
        } else {
            assert(self@.dom().contains(self.log@.last().0@));
            false
        }
    }

    /// One entry for each event id that has an outcome, with that outcome:
    /// what is reported to the sending server.
    pub fn entries(&self) -> (r: Vec<(String, Result<(), PduError>)>)
        ensures
            forall|a: int, b: int| 0 <= a < b < r@.len() ==> r@[a].0@ != r@[b].0@,
            forall|a: int|
                0 <= a < r@.len() ==> self@.contains_key(#[trigger] r@[a].0@) && self@[r@[a].0@]
                    == r@[a].1,
            forall|id: Seq<char>| #[trigger] self@.contains_key(id) == recorded(r@, id),
    {
        let mut out: Vec<(String, Result<(), PduError>)> = Vec::new();
        let mut i = self.log.len();
        while i > 0
            invariant
                i <= self.log@.len(),
                forall|a: int, b: int| 0 <= a < b < out@.len() ==> out@[a].0@ != out@[b].0@,
                forall|a: int|
                    0 <= a < out@.len() ==> self@.contains_key(#[trigger] out@[a].0@)
                        && self@[out@[a].0@] == out@[a].1,
                forall|id: Seq<char>| #[trigger] recorded(out@, id) == recorded_from(self.log@, i as int, id),
            decreases i,
        {
            let id = &self.log[i - 1].0;
            let ghost before = out@;
            if !has_entry(&out, id) {
                proof {
                    lemma_last_record(self.log@, i - 1);
                }
                out.push((id.clone(), copy_outcome(&self.log[i - 1].1)));
                assert(out@.last() == out@[out@.len() - 1]);
                assert forall|id2: Seq<char>| #[trigger] recorded(out@, id2) == recorded(before, id2) || id2 == id@ by {
                    if recorded(before, id2) {
                        let a = choose|a: int| 0 <= a < before.len() && (#[trigger] before[a]).0@ == id2;
                        assert(out@[a] == before[a]);
                    }
                    if id2 == id@ {
                        assert(out@[before.len() as int].0@ == id2);
                    }
                    if recorded(out@, id2) && id2 != id@ {
                        let a = choose|a: int| 0 <= a < out@.len() && (#[trigger] out@[a]).0@ == id2;
                        assert(before[a] == out@[a]);
                    }
                }
            }
            assert forall|id2: Seq<char>| #[trigger] recorded_from(self.log@, i - 1, id2) == (recorded_from(self.log@, i as int, id2) || id2 == id@) by {
                if id2 == id@ {
                    assert(self.log@[i - 1].0@ == id2);
                }
                if recorded_from(self.log@, i - 1, id2) && id2 != id@ {
                    let j = choose|j: int| i - 1 <= j < self.log@.len() && (#[trigger] self.log@[j]).0@ == id2;
                    assert(j >= i);
                }
            }
            i -= 1;
        }
        proof {
            lemma_one_entry_per_event(self.log@);
            assert forall|id: Seq<char>| #[trigger] self@.contains_key(id) == recorded(out@, id) by {
                assert(recorded(out@, id) == recorded_from(self.log@, 0, id));
            }
        }
        out
    }

    /// The outcome recorded for `event_id`, if any.
    pub fn get(&self, event_id: &String) -> (r: Option<Result<(), PduError>>)
        ensures
            r is None ==> !self@.contains_key(event_id@),
            r matches Some(o) ==> self@.contains_key(event_id@) && self@[event_id@] == o,
    {
        let mut i = self.log.len();
        assert(self.log@.subrange(0, i as int) =~= self.log@);
        while i > 0
            invariant
                i <= self.log@.len(),
                self@.contains_key(event_id@) == outcome_map(
                    self.log@.subrange(0, i as int),
                ).contains_key(event_id@),
                self@.contains_key(event_id@) ==> self@[event_id@] == outcome_map(
                    self.log@.subrange(0, i as int),
                )[event_id@],
            decreases i,
        {
            assert(self.log@.subrange(0, i as int).drop_last() =~= self.log@.subrange(0, i - 1));
            if self.log[i - 1].0 == *event_id {
                return Some(copy_outcome(&self.log[i - 1].1));
            }
            i -= 1;
        }
        None
    }
}

/// How long a typing notice lasts, in milliseconds.
pub const TYPING_TIMEOUT_MS: u64 = 3000;

/// What an EDU asks of the typing store.
pub enum EduAction {
    /// The user types in the room until `expires_at` (milliseconds).
    TypingStart { user_id: String, room_id: String, expires_at: u64 },
    /// The user stopped typing in the room.
    TypingStop { user_id: String, room_id: String },
    /// Nothing: presence, receipts, other kinds, or an incomplete typing EDU.
    Ignore,
}

/// The action for an EDU of type `edu_type` whose content has the members
/// `typing` (`None` where absent; a member that is not a boolean counts as
/// `false`), `user_id` and `room_id`, received at `now_ms`. Only a typing
/// EDU with all three members does something.
pub fn typing_action(
    edu_type: &str,
    typing: Option<bool>,
    user_id: Option<String>,
    room_id: Option<String>,
    now_ms: u64,
) -> (r: EduAction)
    requires
        now_ms <= u64::MAX - TYPING_TIMEOUT_MS,
    ensures
        ({
            if edu_type@ == "m.typing"@ && typing is Some && user_id is Some && room_id is Some {
                if typing == Some(true) {
                    r == EduAction::TypingStart {
                        user_id: user_id->0,
                        room_id: room_id->0,
                        expires_at: (now_ms + TYPING_TIMEOUT_MS) as u64,
                    }
                } else {
                    r == EduAction::TypingStop { user_id: user_id->0, room_id: room_id->0 }
                }
            } else {
                r is Ignore
            }
        }),
{
    if String::from_str(edu_type) != String::from_str("m.typing") {
        return EduAction::Ignore;
    }
    match (typing, user_id, room_id) {
        (Some(t), Some(user_id), Some(room_id)) => if t {
            EduAction::TypingStart { user_id, room_id, expires_at: now_ms + TYPING_TIMEOUT_MS }
        } else {
            EduAction::TypingStop { user_id, room_id }
        },
        _ => EduAction::Ignore,
    }
}

} // verus!
