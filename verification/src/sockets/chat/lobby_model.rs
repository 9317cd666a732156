//! What the room hub holds and what each request does to it, as
//! mathematics: the state, the transitions, the events that go out and who
//! receives them.

use crate::message::{MessageType, WireEvent};
use crate::text::{debug_quoted, decimal, id_list};
use vstd::prelude::*;

verus! {

/// One event addressed to one user: the content of a delivery.
pub struct Dispatch {
    pub target: i64,
    pub event: WireEvent,
}

/// The members of a room after `id` has joined: unchanged where `id` is one
/// of them, else with `id` at the end.
pub open spec fn with_member(members: Seq<i64>, id: i64) -> Seq<i64> {
    if members.contains(id) {
        members
    } else {
        members.push(id)
    }
}

/// The members of a room after `id` has left: the others, in their order.
pub open spec fn without_member(members: Seq<i64>, id: i64) -> Seq<i64>
    decreases members.len(),
{
    if members.len() == 0 {
        members
    } else if members.last() == id {
        without_member(members.drop_last(), id)
    } else {
        without_member(members.drop_last(), id).push(members.last())
    }
}

/// Who receives a broadcast to `members`: each member that has a session,
/// but for `skip`, in the members' order.
pub open spec fn recipients(members: Seq<i64>, skip: Option<i64>, online: Set<i64>) -> Seq<i64>
    decreases members.len(),
{
    if members.len() == 0 {
        Seq::<i64>::empty()
    } else {
        let before = recipients(members.drop_last(), skip, online);
        let last = members.last();
        if skip != Some(last) && online.contains(last) {
            before.push(last)
        } else {
            before
        }
    }
}

/// One dispatch of `event` to each of `targets`, in order.
pub open spec fn broadcast(targets: Seq<i64>, event: WireEvent) -> Seq<Dispatch> {
    Seq::new(targets.len(), |i: int| Dispatch { target: targets[i], event })
}

/// The event that tells a room that `id` has joined.
pub open spec fn join_event(id: i64, date: Seq<char>) -> WireEvent {
    WireEvent {
        kind: MessageType::JOIN,
        body: decimal(id as int),
        origin: Some(id),
        timestamp: date,
    }
}

/// The event that tells a room that `id` has left.
pub open spec fn leave_event(id: i64, date: Seq<char>) -> WireEvent {
    WireEvent {
        kind: MessageType::LEAVE,
        body: decimal(id as int),
        origin: Some(id),
        timestamp: date,
    }
}

/// The event that tells a newcomer who is in the room.
pub open spec fn init_event(id: i64, members: Seq<i64>, date: Seq<char>) -> WireEvent {
    WireEvent {
        kind: MessageType::INIT,
        body: id_list(members),
        origin: Some(id),
        timestamp: date,
    }
}

/// The event that carries what `id` said.
pub open spec fn text_event(id: i64, text: Seq<char>, date: Seq<char>) -> WireEvent {
    WireEvent { kind: MessageType::TEXT, body: text, origin: Some(id), timestamp: date }
}

/// The notice to a channel that a newer session of `id` has replaced it.
pub open spec fn evicted_event(id: i64, date: Seq<char>) -> WireEvent {
    WireEvent {
        kind: MessageType::DISCONNECTED,
        body: "Logado de outra localizacao"@,
        origin: Some(id),
        timestamp: date,
    }
}

/// The notice to a sender whose message the store did not keep.
pub open spec fn write_failed_event(room: Seq<char>, date: Seq<char>) -> WireEvent {
    WireEvent {
        kind: MessageType::CHAT_DELETED,
        body: "Chat "@ + debug_quoted(room) + " foi deletado!"@,
        origin: None,
        timestamp: date,
    }
}

/// The notice to the members of a room that was removed.
pub open spec fn room_deleted_event(room: Seq<char>, date: Seq<char>) -> WireEvent {
    WireEvent {
        kind: MessageType::CHAT_DELETED,
        body: "Chat "@ + debug_quoted(room) + " deletado."@,
        origin: None,
        timestamp: date,
    }
}

/// What a room hub holds: the channel of each user with a session, and the
/// members of each live room in the order in which they joined.
pub struct LobbyState<C> {
    pub sessions: Map<i64, C>,
    pub rooms: Map<Seq<char>, Seq<i64>>,
}

impl<C> LobbyState<C> {
    /// The members of `room` in the order in which they joined; empty where
    /// the hub knows no such room.
    pub open spec fn members(self, room: Seq<char>) -> Seq<i64> {
        if self.rooms.contains_key(room) {
            self.rooms[room]
        } else {
            Seq::<i64>::empty()
        }
    }

    /// The users that have a session.
    pub open spec fn online(self) -> Set<i64> {
        self.sessions.dom()
    }

    /// Every live room has a member, and none is listed twice.
    pub open spec fn valid(self) -> bool {
        forall|room: Seq<char>| #[trigger]
            self.rooms.contains_key(room) ==> self.rooms[room].len() > 0
                && self.rooms[room].no_duplicates()
    }

    /// The state after `id` has connected to `room` on channel `addr`: `id`
    /// is a member of the room, which now exists, and `addr` is its session.
    pub open spec fn after_connect(self, room: Seq<char>, id: i64, addr: C) -> Self {
        LobbyState {
            sessions: self.sessions.insert(id, addr),
            rooms: self.rooms.insert(room, with_member(self.members(room), id)),
        }
    }

    /// What a connect sends at time `date`: a JOIN to every other member
    /// that has a session, then the INIT to the newcomer.
    pub open spec fn connect_dispatches(self, room: Seq<char>, id: i64, date: Seq<char>) -> Seq<
        Dispatch,
    > {
        let members = with_member(self.members(room), id);
        broadcast(recipients(members, Some(id), self.online()), join_event(id, date)).push(
            Dispatch { target: id, event: init_event(id, members, date) },
        )
    }

    /// The state after `id` has disconnected from `room`. Without a session
    /// of `id` nothing changes. Else the session is gone, and `id` is no
    /// longer a member of the room, which is gone too once it is empty.
    pub open spec fn after_disconnect(self, room: Seq<char>, id: i64) -> Self {
        if !self.sessions.contains_key(id) {
            self
        } else if !self.rooms.contains_key(room) {
            LobbyState { sessions: self.sessions.remove(id), rooms: self.rooms }
        } else {
            let rest = without_member(self.rooms[room], id);
            LobbyState {
                sessions: self.sessions.remove(id),
                rooms: if rest.len() == 0 {
                    self.rooms.remove(room)
                } else {
                    self.rooms.insert(room, rest)
                },
            }
        }
    }

    /// What a disconnect sends at time `date`: nothing without a session of
    /// `id`, else a LEAVE to every other member that has a session.
    pub open spec fn disconnect_dispatches(self, room: Seq<char>, id: i64, date: Seq<char>) -> Seq<
        Dispatch,
    > {
        if self.sessions.contains_key(id) {
            broadcast(
                recipients(self.members(room), Some(id), self.online()),
                leave_event(id, date),
            )
        } else {
            Seq::<Dispatch>::empty()
        }
    }

    /// What a message of `id` to `room` sends at time `date`, once the store
    /// has answered. Kept: the text to every other member that has a
    /// session. Not kept: one notice to the sender, if it has a session, and
    /// nothing else.
    pub open spec fn message_dispatches(
        self,
        room: Seq<char>,
        id: i64,
        text: Seq<char>,
        kept: bool,
        date: Seq<char>,
    ) -> Seq<Dispatch> {
        if kept {
            broadcast(
                recipients(self.members(room), Some(id), self.online()),
                text_event(id, text, date),
            )
        } else if self.sessions.contains_key(id) {
            seq![Dispatch { target: id, event: write_failed_event(room, date) }]
        } else {
            Seq::<Dispatch>::empty()
        }
    }

    /// The state after `room` was removed: the hub no longer knows it.
    pub open spec fn after_room_deleted(self, room: Seq<char>) -> Self {
        LobbyState { sessions: self.sessions, rooms: self.rooms.remove(room) }
    }

    /// What the removal of `room` sends at time `date`: a notice to every
    /// member that has a session.
    pub open spec fn room_deleted_dispatches(self, room: Seq<char>, date: Seq<char>) -> Seq<
        Dispatch,
    > {
        broadcast(recipients(self.members(room), None, self.online()), room_deleted_event(room, date))
    }
}

pub(crate) proof fn lemma_recipients_step(members: Seq<i64>, n: int, skip: Option<i64>, online: Set<i64>)
    requires
        0 <= n < members.len(),
    ensures
        recipients(members.take(n + 1), skip, online) == if skip != Some(members[n])
            && online.contains(members[n]) {
            recipients(members.take(n), skip, online).push(members[n])
        } else {
            recipients(members.take(n), skip, online)
        },
{
    assert(members.take(n + 1).drop_last() =~= members.take(n));
}

pub(crate) proof fn lemma_without_step(members: Seq<i64>, n: int, id: i64)
    requires
        0 <= n < members.len(),
    ensures
        without_member(members.take(n + 1), id) == if members[n] == id {
            without_member(members.take(n), id)
        } else {
            without_member(members.take(n), id).push(members[n])
        },
{
    assert(members.take(n + 1).drop_last() =~= members.take(n));
}

/// What is left of a list without duplicates when `id` leaves: the members
/// other than `id`, none of them twice.
pub proof fn lemma_without_member(members: Seq<i64>, id: i64)
    requires
        members.no_duplicates(),
    ensures
        without_member(members, id).no_duplicates(),
        forall|m: i64|
            without_member(members, id).contains(m) <==> members.contains(m) && m != id,
    decreases members.len(),
{
    let rest = without_member(members, id);
    if members.len() > 0 {
        let before = members.drop_last();
        lemma_without_member(before, id);
        let shorter = without_member(before, id);
        assert forall|m: i64| rest.contains(m) <==> members.contains(m) && m != id by {
            if members.contains(m) && m != id {
                let i = choose|i: int| 0 <= i < members.len() && members[i] == m;
                if i < members.len() - 1 {
                    assert(before[i] == m);
                    assert(before.contains(m));
                    assert(shorter.contains(m));
                    let j = choose|j: int| 0 <= j < shorter.len() && shorter[j] == m;
                    assert(rest[j] == m);
                } else {
                    assert(rest[rest.len() - 1] == m);
                }
            }
            if rest.contains(m) {
                let j = choose|j: int| 0 <= j < rest.len() && rest[j] == m;
                if j < shorter.len() {
                    assert(shorter[j] == m);
                    assert(shorter.contains(m));
                    assert(before.contains(m));
                    let i = choose|i: int| 0 <= i < before.len() && before[i] == m;
                    assert(members[i] == m);
                } else {
                    assert(members[members.len() - 1] == m);
                }
            }
        }
        if members.last() != id {
            assert forall|i: int, j: int| 0 <= i < j < rest.len() implies rest[i] != rest[j] by {
                if j == rest.len() - 1 {
                    assert(shorter[i] == rest[i]);
                    assert(shorter.contains(rest[i]));
                    assert(before.contains(rest[i]));
                    let k = choose|k: int| 0 <= k < before.len() && before[k] == rest[i];
                    assert(members[k] != members[members.len() - 1]);
                } else {
                    assert(shorter[i] != shorter[j]);
                }
            }
        }
    }
}

/// A broadcast never reaches the user that it skips.
pub proof fn lemma_recipients_skip(members: Seq<i64>, skip: i64, online: Set<i64>)
    ensures
        !recipients(members, Some(skip), online).contains(skip),
    decreases members.len(),
{
    let all = recipients(members, Some(skip), online);
    if members.len() > 0 {
        lemma_recipients_skip(members.drop_last(), skip, online);
        let before = recipients(members.drop_last(), Some(skip), online);
        if all.contains(skip) {
            let j = choose|j: int| 0 <= j < all.len() && all[j] == skip;
            if j < before.len() {
                assert(before[j] == skip);
                assert(before.contains(skip));
            }
        }
    }
}

/// Whether the skipped user has a session makes no difference to a
/// broadcast.
pub(crate) proof fn lemma_recipients_same(members: Seq<i64>, skip: i64, a: Set<i64>, b: Set<i64>)
    requires
        forall|m: i64| m != skip ==> (a.contains(m) <==> b.contains(m)),
    ensures
        recipients(members, Some(skip), a) == recipients(members, Some(skip), b),
    decreases members.len(),
{
    if members.len() > 0 {
        lemma_recipients_same(members.drop_last(), skip, a, b);
    }
}

} // verus!
