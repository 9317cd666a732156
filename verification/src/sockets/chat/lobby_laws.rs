//! Laws of the room hub, stated over the states and the transitions of
//! [`LobbyState`].

use crate::sockets::chat::lobby_model::{
    lemma_without_member, recipients, with_member, without_member, Dispatch, LobbyState,
};
use vstd::prelude::*;

verus! {

/// A connect or a disconnect addressed to one room.
pub enum RoomEvent<C> {
    Connect { id: i64, addr: C },
    Disconnect { id: i64 },
}

/// The state that a hub reaches from `start` when it handles `events`, all
/// addressed to `room`, in order.
pub open spec fn replay<C>(start: LobbyState<C>, room: Seq<char>, events: Seq<RoomEvent<C>>)
    -> LobbyState<C>
    decreases events.len(),
{
    if events.len() == 0 {
        start
    } else {
        let before = replay(start, room, events.drop_last());
        match events.last() {
            RoomEvent::Connect { id, addr } => before.after_connect(room, id, addr),
            RoomEvent::Disconnect { id } => before.after_disconnect(room, id),
        }
    }
}

/// Whether `events` hold a connect of `id` that no later disconnect of `id`
/// answers.
pub open spec fn still_connected<C>(events: Seq<RoomEvent<C>>, id: i64) -> bool
    decreases events.len(),
{
    if events.len() == 0 {
        false
    } else {
        match events.last() {
            RoomEvent::Connect { id: who, addr } => who == id || still_connected(
                events.drop_last(),
                id,
            ),
            RoomEvent::Disconnect { id: who } => who != id && still_connected(
                events.drop_last(),
                id,
            ),
        }
    }
}

spec fn tracks<C>(state: LobbyState<C>, room: Seq<char>, events: Seq<RoomEvent<C>>) -> bool {
    &&& forall|id: i64| #[trigger]
        state.members(room).contains(id) <==> still_connected(events, id)
    &&& forall|id: i64| #[trigger]
        state.members(room).contains(id) ==> state.sessions.contains_key(id)
    &&& state.rooms.contains_key(room) ==> state.rooms[room].len() > 0
        && state.rooms[room].no_duplicates()
}

proof fn lemma_with_member(members: Seq<i64>, id: i64)
    requires
        members.no_duplicates(),
    ensures
        with_member(members, id).no_duplicates(),
        with_member(members, id).len() > 0,
        forall|m: i64| with_member(members, id).contains(m) <==> members.contains(m) || m == id,
{
    let after = with_member(members, id);
    if members.contains(id) {
        let i = choose|i: int| 0 <= i < members.len() && members[i] == id;
    } else {
        assert(after[members.len() as int] == id);
        assert forall|m: i64| after.contains(m) <==> members.contains(m) || m == id by {
            if after.contains(m) {
                let j = choose|j: int| 0 <= j < after.len() && after[j] == m;
                if j < members.len() {
                    assert(members[j] == m);
                }
            }
            if members.contains(m) {
                let j = choose|j: int| 0 <= j < members.len() && members[j] == m;
                assert(after[j] == m);
            }
        }
        assert forall|i: int, j: int| 0 <= i < j < after.len() implies after[i] != after[j] by {
            if j == members.len() {
                assert(members[i] == after[i]);
                assert(members.contains(after[i]));
            }
        }
    }
}

proof fn lemma_replay_tracks<C>(start: LobbyState<C>, room: Seq<char>, events: Seq<RoomEvent<C>>)
    requires
        !start.rooms.contains_key(room),
    ensures
        tracks(replay(start, room, events), room, events),
    decreases events.len(),
{
    if events.len() == 0 {
        assert(start.members(room) =~= Seq::<i64>::empty());
    } else {
        let earlier = events.drop_last();
        lemma_replay_tracks(start, room, earlier);
        let before = replay(start, room, earlier);
        let after = replay(start, room, events);
        let members = before.members(room);
        assert(members.no_duplicates());
        match events.last() {
            RoomEvent::Connect { id, addr } => {
                lemma_with_member(members, id);
                assert(after.members(room) == with_member(members, id));
                assert forall|m: i64| #[trigger]
                    after.members(room).contains(m) <==> still_connected(events, m) by {
                    assert(members.contains(m) <==> still_connected(earlier, m));
                }
                assert forall|m: i64| #[trigger]
                    after.members(room).contains(m) implies after.sessions.contains_key(m) by {
                    if m != id {
                        assert(members.contains(m));
                    }
                }
            },
            RoomEvent::Disconnect { id } => {
                if !before.sessions.contains_key(id) {
                    assert(after == before);
                    assert(!members.contains(id));
                    assert forall|m: i64| #[trigger]
                        after.members(room).contains(m) <==> still_connected(events, m) by {
                        assert(members.contains(m) <==> still_connected(earlier, m));
                    }
                } else if !before.rooms.contains_key(room) {
                    assert(after.members(room) == members);
                    assert forall|m: i64| #[trigger]
                        after.members(room).contains(m) <==> still_connected(events, m) by {
                        assert(members.contains(m) <==> still_connected(earlier, m));
                    }
                } else {
                    lemma_without_member(members, id);
                    let rest = without_member(members, id);
                    assert(after.members(room) =~= rest);
                    assert forall|m: i64| #[trigger]
                        after.members(room).contains(m) <==> still_connected(events, m) by {
                        assert(members.contains(m) <==> still_connected(earlier, m));
                        assert(rest.contains(m) <==> members.contains(m) && m != id);
                    }
                    assert forall|m: i64| #[trigger]
                        after.members(room).contains(m) implies after.sessions.contains_key(
                        m,
                    ) by {
                        assert(rest.contains(m) <==> members.contains(m) && m != id);
                        assert(members.contains(m));
                    }
                }
            },
        }
    }
}

/// Membership follows the connections. When a hub that does not know a room
/// handles any sequence of connects and disconnects addressed to that room,
/// the room's members are then exactly the users with a connect that no
/// later disconnect answers, and the hub knows the room if and only if there
/// is such a user.
pub proof fn law_membership_follows_connections<C>(
    start: LobbyState<C>,
    room: Seq<char>,
    events: Seq<RoomEvent<C>>,
)
    requires
        !start.rooms.contains_key(room),
    ensures
        forall|id: i64| #[trigger]
            replay(start, room, events).members(room).contains(id) <==> still_connected(
                events,
                id,
            ),
        replay(start, room, events).rooms.contains_key(room) <==> exists|id: i64| #[trigger]
            still_connected(events, id),
{
    lemma_replay_tracks(start, room, events);
    let end = replay(start, room, events);
    if end.rooms.contains_key(room) {
        let first = end.rooms[room][0];
        assert(end.members(room).contains(first));
        assert(still_connected(events, first));
    }
    if exists|id: i64| #[trigger] still_connected(events, id) {
        let who = choose|id: i64| #[trigger] still_connected(events, id);
        assert(end.members(room).contains(who));
    }
}

/// A second disconnect is idle. Once a disconnect of a user has been
/// handled, another one for the same room and user changes nothing and sends
/// nothing.
pub proof fn law_second_disconnect_is_idle<C>(
    state: LobbyState<C>,
    room: Seq<char>,
    id: i64,
    date: Seq<char>,
)
    ensures
        state.after_disconnect(room, id).after_disconnect(room, id) == state.after_disconnect(
            room,
            id,
        ),
        state.after_disconnect(room, id).disconnect_dispatches(room, id, date) == Seq::<
            Dispatch,
        >::empty(),
{
}

/// Every transition keeps the state valid: a room that the hub knows has a
/// member, and no member is listed twice.
pub proof fn law_transitions_keep_rooms_valid<C>(
    state: LobbyState<C>,
    room: Seq<char>,
    id: i64,
    addr: C,
)
    requires
        state.valid(),
    ensures
        state.after_connect(room, id, addr).valid(),
        state.after_disconnect(room, id).valid(),
        state.after_room_deleted(room).valid(),
{
    let members = state.members(room);
    assert(members.no_duplicates());
    lemma_with_member(members, id);
    lemma_without_member(members, id);
    let joined = state.after_connect(room, id, addr);
    assert forall|r: Seq<char>| #[trigger] joined.rooms.contains_key(r) implies joined.rooms[r].len()
        > 0 && joined.rooms[r].no_duplicates() by {
        if r != room {
            assert(state.rooms.contains_key(r));
        }
    }
    let left = state.after_disconnect(room, id);
    assert forall|r: Seq<char>| #[trigger] left.rooms.contains_key(r) implies left.rooms[r].len()
        > 0 && left.rooms[r].no_duplicates() by {
        if r != room {
            assert(state.rooms.contains_key(r));
        } else {
            assert(state.rooms.contains_key(r));
        }
    }
    let gone = state.after_room_deleted(room);
    assert forall|r: Seq<char>| #[trigger] gone.rooms.contains_key(r) implies gone.rooms[r].len()
        > 0 && gone.rooms[r].no_duplicates() by {
        assert(state.rooms.contains_key(r));
    }
}

/// A broadcast reaches exactly the members with a session, but for the one
/// it skips, and each of them once where no member is listed twice.
pub proof fn law_broadcast_reaches_the_others(members: Seq<i64>, skip: Option<i64>, online: Set<i64>)
    ensures
        forall|m: i64|
            recipients(members, skip, online).contains(m) <==> members.contains(m) && online.contains(
                m,
            ) && skip != Some(m),
        members.no_duplicates() ==> recipients(members, skip, online).no_duplicates(),
    decreases members.len(),
{
    let all = recipients(members, skip, online);
    if members.len() > 0 {
        let shorter = members.drop_last();
        law_broadcast_reaches_the_others(shorter, skip, online);
        let before = recipients(shorter, skip, online);
        let last = members.last();
        assert forall|m: i64|
            all.contains(m) <==> members.contains(m) && online.contains(m) && skip != Some(
                m,
            ) by {
            if all.contains(m) {
                let j = choose|j: int| 0 <= j < all.len() && all[j] == m;
                if j < before.len() {
                    assert(before[j] == m);
                    assert(before.contains(m));
                    assert(shorter.contains(m));
                    let i = choose|i: int| 0 <= i < shorter.len() && shorter[i] == m;
                    assert(members[i] == m);
                } else {
                    assert(members[members.len() - 1] == m);
                }
            }
            if members.contains(m) && online.contains(m) && skip != Some(m) {
                let i = choose|i: int| 0 <= i < members.len() && members[i] == m;
                if i < members.len() - 1 {
                    assert(shorter[i] == m);
                    assert(shorter.contains(m));
                    assert(before.contains(m));
                    let j = choose|j: int| 0 <= j < before.len() && before[j] == m;
                    assert(all[j] == m);
                } else {
                    assert(all[all.len() - 1] == m);
                }
            }
        }
        if members.no_duplicates() {
            assert(shorter.no_duplicates());
            assert forall|i: int, j: int| 0 <= i < j < all.len() implies all[i] != all[j] by {
                if j < before.len() {
                    assert(before[i] != before[j]);
                } else {
                    assert(before[i] == all[i]);
                    assert(before.contains(all[i]));
                    assert(shorter.contains(all[i]));
                    let k = choose|k: int| 0 <= k < shorter.len() && shorter[k] == all[i];
                    assert(members[k] != members[members.len() - 1]);
                }
            }
        }
    }
}

} // verus!
