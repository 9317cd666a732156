//! The room hub: which users are connected to which room, which channel
//! each user is reached on, and who receives what when a user joins, leaves
//! or speaks.

use crate::db::chat_message_db::{InsertChatMessage, InsertError, InsertRequest};
use crate::message::{current_date, is_date_text, MessageType, SocketMessage};
use crate::sockets::chat::lobby_model::{
    broadcast, evicted_event, init_event, lemma_recipients_same, lemma_recipients_skip,
    lemma_recipients_step, lemma_without_member, lemma_without_step, recipients, with_member,
    without_member, Dispatch, LobbyState,
};
use crate::text::{debug_quoted, id_text, json_id_list, quote};
use std::collections::HashMap;
use vstd::prelude::*;
use vstd::string::StringExecFns;

verus! {

/// A connection asks to be put into a room.
pub struct Connect<C> {
    pub addr: C,
    pub room_id: String,
    pub id: i64,
}

/// A connection asks to be taken out of a room.
pub struct Disconnect {
    pub room_id: String,
    pub id: i64,
}

/// Text that a user sent to a room.
#[derive(Debug)]
pub struct ClientActorMessage {
    pub id: i64,
    pub msg: String,
    pub room_id: String,
}

/// A room was removed from the store.
pub struct ChatDeleted {
    pub chat_id: String,
}

/// An event on its way to the channel of one user.
#[derive(Debug)]
pub struct Delivery {
    pub target: i64,
    pub message: SocketMessage,
}

impl View for Delivery {
    type V = Dispatch;

    open spec fn view(&self) -> Dispatch {
        Dispatch { target: self.target, event: self.message@ }
    }
}

/// The contents of a list of deliveries, in order.
pub open spec fn dispatches(deliveries: Seq<Delivery>) -> Seq<Dispatch> {
    Seq::new(deliveries.len(), |i: int| deliveries[i]@)
}

/// A session that a newer one of the same user has replaced: its channel,
/// and the one notice owed to it.
pub struct Eviction<C> {
    pub channel: C,
    pub notice: SocketMessage,
}

/// What the hub owes after a connect.
pub struct Connected<C> {
    /// The session that the connect replaced, if the user had one.
    pub evicted: Option<Eviction<C>>,
    /// What goes to the users with a session, in order.
    pub deliveries: Vec<Delivery>,
}

impl ClientActorMessage {
    /// The TEXT event that carries `msg` from this message's sender,
    /// stamped with the current time.
    pub fn new_message(&self, msg: String) -> (r: SocketMessage)
        ensures
            r@.kind == MessageType::TEXT,
            r@.body == msg@,
            r@.origin == Some(self.id),
            is_date_text(r@.timestamp),
    {
        SocketMessage::new(msg, MessageType::TEXT, Some(self.id))
    }

    /// The request to store this message, which arrived at time `date`.
    pub fn insert_request(&self, date: String) -> (r: InsertChatMessage<'_>)
        ensures
            r@ == (InsertRequest {
                room: self.room_id@,
                user: self.id,
                text: self.msg@,
                timestamp: date@,
            }),
    {
        InsertChatMessage {
            chat_id: self.room_id.clone(),
            user_id: self.id,
            message: self.msg.as_str(),
            date_created: date,
        }
    }
}

struct Room {
    id: String,
    members: Vec<i64>,
}

/// The room hub. `C` is the channel on which a user is reached.
///
/// A user has at most one session. A connect of a user that has one evicts
/// it: the older channel is owed one notice and the newer one takes its
/// place. The newer connection is never the one that is turned away.
pub struct Lobby<C> {
    sessions: HashMap<i64, C>,
    rooms: Vec<Room>,
}

spec fn holds(rooms: Seq<Room>, i: int, room: Seq<char>) -> bool {
    0 <= i < rooms.len() && rooms[i].id@ == room
}

spec fn rooms_wf(rooms: Seq<Room>) -> bool {
    &&& forall|i: int, j: int|
        0 <= i < j < rooms.len() ==> #[trigger] rooms[i].id@ != #[trigger] rooms[j].id@
    &&& forall|i: int|
        0 <= i < rooms.len() ==> (#[trigger] rooms[i]).members@.len() > 0
            && rooms[i].members@.no_duplicates()
}

spec fn rooms_map(rooms: Seq<Room>) -> Map<Seq<char>, Seq<i64>> {
    Map::new(
        |room: Seq<char>| exists|i: int| holds(rooms, i, room),
        |room: Seq<char>| rooms[choose|i: int| holds(rooms, i, room)].members@,
    )
}

impl<C> View for Lobby<C> {
    type V = LobbyState<C>;

    closed spec fn view(&self) -> LobbyState<C> {
        LobbyState { sessions: self.sessions@, rooms: rooms_map(self.rooms@) }
    }
}

impl<C> Lobby<C> {
    /// The invariant of the hub's representation.
    pub closed spec fn wf(&self) -> bool {
        rooms_wf(self.rooms@)
    }

    /// A well-formed hub holds a valid state.
    pub proof fn lemma_valid(&self)
        requires
            self.wf(),
        ensures
            self@.valid(),
    {
        let rooms = self.rooms@;
        assert forall|room: Seq<char>| #[trigger]
            self@.rooms.contains_key(room) implies self@.rooms[room].len() > 0
            && self@.rooms[room].no_duplicates() by {
            let i = choose|i: int| holds(rooms, i, room);
            lemma_rooms_map_at(rooms, i);
        }
    }

    /// A hub without rooms and without sessions.
    pub fn new() -> (r: Self)
        ensures
            r.wf(),
            r@.sessions == Map::<i64, C>::empty(),
            r@.rooms == Map::<Seq<char>, Seq<i64>>::empty(),
    {
        let r = Lobby { sessions: HashMap::new(), rooms: Vec::new() };
        assert(r@.rooms =~= Map::<Seq<char>, Seq<i64>>::empty());
        r
    }

    /// The channel on which `id` is reached, if it has a session.
    pub fn session(&self, id: &i64) -> (r: Option<&C>)
        ensures
            r.is_some() == self@.sessions.contains_key(*id),
            r matches Some(c) ==> *c == self@.sessions[*id],
    {
        broadcast use vstd::std_specs::hash::group_hash_axioms;

        self.sessions.get(id)
    }

    /// The members of a room in the order in which they joined; empty where
    /// the hub does not know the room.
    pub fn members(&self, room_id: &String) -> (r: Vec<i64>)
        requires
            self.wf(),
        ensures
            r@ == self@.members(room_id@),
    {
        match self.find_room(room_id) {
            Some(at) => {
                proof {
                    lemma_rooms_map_at(self.rooms@, at as int);
                }
                copy_ids(&self.rooms[at].members)
            },
            None => {
                proof {
                    lemma_rooms_map_absent(self.rooms@, room_id@);
                }
                Vec::new()
            },
        }
    }

    /// Whether the hub knows the room, that is, whether it has a member.
    pub fn has_room(&self, room_id: &String) -> (r: bool)
        requires
            self.wf(),
        ensures
            r == self@.rooms.contains_key(room_id@),
    {
        match self.find_room(room_id) {
            Some(at) => {
                proof {
                    lemma_rooms_map_at(self.rooms@, at as int);
                }
                true
            },
            None => {
                proof {
                    lemma_rooms_map_absent(self.rooms@, room_id@);
                }
                false
            },
        }
    }

    /// How many rooms the hub knows.
    pub fn room_count(&self) -> (r: usize)
        requires
            self.wf(),
        ensures
            r == self@.rooms.dom().len(),
            self@.rooms.dom().finite(),
    {
        proof {
            lemma_rooms_map_len(self.rooms@);
        }
        self.rooms.len()
    }

    fn find_room(&self, room_id: &String) -> (r: Option<usize>)
        ensures
            match r {
                Some(i) => i < self.rooms@.len() && self.rooms@[i as int].id@ == room_id@,
                None => forall|i: int|
                    0 <= i < self.rooms@.len() ==> (#[trigger] self.rooms@[i]).id@ != room_id@,
            },
    {
        let mut i: usize = 0;
        while i < self.rooms.len()
            invariant
                i <= self.rooms@.len(),
                forall|j: int| 0 <= j < i ==> (#[trigger] self.rooms@[j]).id@ != room_id@,
            decreases self.rooms@.len() - i,
        {
            if self.rooms[i].id == *room_id {
                return Some(i);
            }
            i = i + 1;
        }
        None
    }

    /// Addresses `message` to the session of `target_id`. Without such a
    /// session the message is dropped: `None`.
    pub fn send_message(&self, message: SocketMessage, target_id: &i64) -> (r: Option<Delivery>)
        ensures
            r.is_some() == self@.sessions.contains_key(*target_id),
            r matches Some(d) ==> d@ == (Dispatch { target: *target_id, event: message@ }),
    {
        broadcast use vstd::std_specs::hash::group_hash_axioms;

        if self.sessions.contains_key(target_id) {
            Some(Delivery { target: *target_id, message })
        } else {
            None
        }
    }

    fn deliver_all(&self, members: &Vec<i64>, skip: Option<i64>, message: &SocketMessage) -> (r:
        Vec<Delivery>)
        ensures
            dispatches(r@) == broadcast(
                recipients(members@, skip, self@.online()),
                message@,
            ),
    {
        let mut out: Vec<Delivery> = Vec::new();
        let mut i: usize = 0;
        assert(members@.take(0) =~= Seq::<i64>::empty());
        assert(dispatches(out@) =~= broadcast(
            recipients(members@.take(0), skip, self@.online()),
            message@,
        ));
        while i < members.len()
            invariant
                i <= members@.len(),
                dispatches(out@) == broadcast(
                    recipients(members@.take(i as int), skip, self@.online()),
                    message@,
                ),
            decreases members@.len() - i,
        {
            let target: i64 = members[i];
            proof {
                lemma_recipients_step(members@, i as int, skip, self@.online());
            }
            let skipped = match skip {
                Some(s) => s == target,
                None => false,
            };
            if !skipped {
                let ghost before = out@;
                match self.send_message(message.clone(), &target) {
                    Some(delivery) => {
                        out.push(delivery);
                        assert(dispatches(out@) =~= dispatches(before).push(
                            Dispatch { target, event: message@ },
                        ));
                        assert(dispatches(out@) =~= broadcast(
                            recipients(members@.take(i as int + 1), skip, self@.online()),
                            message@,
                        ));
                    },
                    None => {},
                }
            }
            i = i + 1;
        }
        assert(members@.take(members@.len() as int) =~= members@);
        out
    }
}

impl<C> Lobby<C> {
    /// Handles a connect at time `date`. The user becomes a member of the
    /// room, which is created where the hub did not know it. Every other
    /// member with a session is told of the newcomer. A session that the
    /// user already had is evicted: its channel comes back with the one
    /// notice owed to it, and the new channel takes its place. Last, the
    /// newcomer is told who is in the room.
    pub fn connect_at(&mut self, msg: Connect<C>, date: String) -> (r: Connected<C>)
        requires
            old(self).wf(),
        ensures
            final(self).wf(),
            final(self)@ == old(self)@.after_connect(msg.room_id@, msg.id, msg.addr),
            dispatches(r.deliveries@) == old(self)@.connect_dispatches(
                msg.room_id@,
                msg.id,
                date@,
            ),
            r.evicted.is_some() == old(self)@.sessions.contains_key(msg.id),
            r.evicted matches Some(e) ==> e.channel == old(self)@.sessions[msg.id] && e.notice@
                == evicted_event(msg.id, date@),
            forall|i: int|
                0 <= i < r.deliveries@.len() && (#[trigger] r.deliveries@[i])@.event.kind
                    == MessageType::JOIN ==> r.deliveries@[i].target != msg.id,
            r.deliveries@.len() > 0,
            r.deliveries@.last()@ == (Dispatch {
                target: msg.id,
                event: init_event(msg.id, final(self)@.members(msg.room_id@), date@),
            }),
    {
        broadcast use vstd::std_specs::hash::group_hash_axioms;

        let Connect { addr, room_id, id } = msg;
        let ghost before = self@;
        let ghost old_rooms = self.rooms@;
        let members: Vec<i64> = match self.find_room(&room_id) {
            Some(at) => {
                proof {
                    lemma_rooms_map_at(old_rooms, at as int);
                }
                let mut members = copy_ids(&self.rooms[at].members);
                if !has_member(&members, id) {
                    members.push(id);
                    let changed = Room { id: room_id.clone(), members: copy_ids(&members) };
                    proof {
                        lemma_rooms_map_update(old_rooms, at as int, changed);
                    }
                    self.rooms.set(at, changed);
                } else {
                    assert(self@.rooms =~= before.rooms.insert(room_id@, members@));
                }
                members
            },
            None => {
                let mut members: Vec<i64> = Vec::new();
                members.push(id);
                let added = Room { id: room_id.clone(), members: copy_ids(&members) };
                proof {
                    lemma_rooms_map_absent(old_rooms, room_id@);
                    lemma_rooms_map_push(old_rooms, added);
                    assert(members@ =~= with_member(before.members(room_id@), id));
                }
                self.rooms.push(added);
                members
            },
        };
        assert(members@ == with_member(before.members(room_id@), id));
        assert(self@.rooms == before.rooms.insert(room_id@, members@));

        let join = SocketMessage::dated(id_text(id), MessageType::JOIN, Some(id), date.clone());
        let mut deliveries = self.deliver_all(&members, Some(id), &join);
        proof {
            lemma_recipients_skip(members@, id, before.online());
            let targets = recipients(members@, Some(id), before.online());
            assert(dispatches(deliveries@).len() == deliveries@.len());
            assert(broadcast(targets, join@).len() == targets.len());
            assert forall|i: int| 0 <= i < deliveries@.len() implies (
            #[trigger] deliveries@[i]).target != id by {
                assert(dispatches(deliveries@)[i] == broadcast(targets, join@)[i]);
                assert(targets[i] == deliveries@[i].target);
                assert(targets.contains(targets[i]));
            }
        }

        let evicted = match self.sessions.insert(id, addr) {
            Some(channel) => Some(
                Eviction {
                    channel,
                    notice: SocketMessage::dated(
                        String::from_str("Logado de outra localizacao"),
                        MessageType::DISCONNECTED,
                        Some(id),
                        date.clone(),
                    ),
                },
            ),
            None => None,
        };

        let init = SocketMessage::dated(json_id_list(&members), MessageType::INIT, Some(id), date);
        let ghost joins = deliveries@;
        match self.send_message(init, &id) {
            Some(delivery) => {
                deliveries.push(delivery);
            },
            None => {},
        }
        assert(dispatches(deliveries@) =~= dispatches(joins).push(
            Dispatch { target: id, event: init_event(id, members@, date@) },
        ));
        Connected { evicted, deliveries }
    }

    /// Handles a disconnect at time `date`. Without a session of the user
    /// nothing happens. Else the session is removed; where the hub knows the
    /// room, every other member with a session is told that the user left,
    /// the user leaves the room, and the room goes once it is empty.
    pub fn disconnect_at(&mut self, msg: Disconnect, date: String) -> (r: Vec<Delivery>)
        requires
            old(self).wf(),
        ensures
            final(self).wf(),
            final(self)@ == old(self)@.after_disconnect(msg.room_id@, msg.id),
            dispatches(r@) == old(self)@.disconnect_dispatches(msg.room_id@, msg.id, date@),
            !old(self)@.sessions.contains_key(msg.id) ==> final(self)@ == old(self)@ && r@.len()
                == 0,
            forall|i: int| 0 <= i < r@.len() ==> (#[trigger] r@[i]).target != msg.id,
    {
        broadcast use vstd::std_specs::hash::group_hash_axioms;

        let Disconnect { room_id, id } = msg;
        let ghost before = self@;
        let ghost old_rooms = self.rooms@;
        if self.sessions.remove(&id).is_none() {
            assert(self@.sessions =~= before.sessions);
            return Vec::new();
        }
        let at = match self.find_room(&room_id) {
            Some(at) => at,
            None => {
                proof {
                    assert(self.rooms@ == old_rooms);
                    lemma_rooms_map_absent(old_rooms, room_id@);
                    assert(recipients(before.members(room_id@), Some(id), before.online())
                        =~= Seq::<i64>::empty());
                }
                return Vec::new();
            },
        };
        proof {
            lemma_rooms_map_at(old_rooms, at as int);
        }
        let leave = SocketMessage::dated(id_text(id), MessageType::LEAVE, Some(id), date);
        let members = copy_ids(&self.rooms[at].members);
        let deliveries = self.deliver_all(&members, Some(id), &leave);
        proof {
            lemma_recipients_same(members@, id, before.online(), self@.online());
            lemma_recipients_skip(members@, id, before.online());
            let targets = recipients(members@, Some(id), before.online());
            assert(dispatches(deliveries@).len() == deliveries@.len());
            assert(broadcast(targets, leave@).len() == targets.len());
            assert forall|i: int| 0 <= i < deliveries@.len() implies (
            #[trigger] deliveries@[i]).target != id by {
                assert(dispatches(deliveries@)[i] == broadcast(targets, leave@)[i]);
                assert(targets.contains(targets[i]));
            }
        }
        let rest = remove_member(&members, id);
        if rest.len() == 0 {
            proof {
                lemma_rooms_map_remove(old_rooms, at as int);
            }
            self.rooms.remove(at);
        } else {
            let changed = Room { id: room_id, members: rest };
            proof {
                lemma_without_member(members@, id);
                lemma_rooms_map_update(old_rooms, at as int, changed);
            }
            self.rooms.set(at, changed);
        }
        deliveries
    }

    /// Handles a message at time `date`, once the store has answered the
    /// request to keep it. `Ok`: the text goes to every other member of the
    /// room that has a session. `Err`: nobody receives the text; the sender
    /// alone is told, by one notice. The hub's state is not touched.
    pub fn client_message_at(
        &self,
        msg: ClientActorMessage,
        stored: Result<String, InsertError>,
        date: String,
    ) -> (r: Vec<Delivery>)
        requires
            self.wf(),
        ensures
            dispatches(r@) == self@.message_dispatches(
                msg.room_id@,
                msg.id,
                msg.msg@,
                stored.is_ok(),
                date@,
            ),
            forall|i: int|
                0 <= i < r@.len() && (#[trigger] r@[i])@.event.kind == MessageType::TEXT
                    ==> stored.is_ok() && r@[i].target != msg.id,
            stored.is_err() ==> r@.len() <= 1 && forall|i: int|
                0 <= i < r@.len() ==> (#[trigger] r@[i])@.event.kind == MessageType::CHAT_DELETED
                    && r@[i].target == msg.id,
            stored.is_err() && self@.sessions.contains_key(msg.id) ==> r@.len() == 1,
    {
        let ClientActorMessage { id, msg: text, room_id } = msg;
        match stored {
            Err(_) => {
                let notice = SocketMessage::dated(
                    write_failed_notice(&room_id),
                    MessageType::CHAT_DELETED,
                    None,
                    date,
                );
                let mut out: Vec<Delivery> = Vec::new();
                match self.send_message(notice, &id) {
                    Some(delivery) => {
                        out.push(delivery);
                    },
                    None => {},
                }
                assert(dispatches(out@) =~= self@.message_dispatches(
                    room_id@,
                    id,
                    text@,
                    false,
                    date@,
                ));
                out
            },
            Ok(_) => {
                let event = SocketMessage::dated(text, MessageType::TEXT, Some(id), date);
                let deliveries = match self.find_room(&room_id) {
                    Some(at) => {
                        proof {
                            lemma_rooms_map_at(self.rooms@, at as int);
                        }
                        self.deliver_all(&self.rooms[at].members, Some(id), &event)
                    },
                    None => {
                        proof {
                            lemma_rooms_map_absent(self.rooms@, room_id@);
                        }
                        let none: Vec<Delivery> = Vec::new();
                        assert(dispatches(none@) =~= broadcast(
                            recipients(Seq::<i64>::empty(), Some(id), self@.online()),
                            event@,
                        ));
                        none
                    },
                };
                proof {
                    let members = self@.members(room_id@);
                    lemma_recipients_skip(members, id, self@.online());
                    let targets = recipients(members, Some(id), self@.online());
                    assert(dispatches(deliveries@).len() == deliveries@.len());
                    assert(broadcast(targets, event@).len() == targets.len());
                    assert forall|i: int| 0 <= i < deliveries@.len() implies (
                    #[trigger] deliveries@[i]).target != id by {
                        assert(dispatches(deliveries@)[i] == broadcast(targets, event@)[i]);
                        assert(targets.contains(targets[i]));
                    }
                }
                deliveries
            },
        }
    }

    /// Handles the removal of a room at time `date`: every member with a
    /// session is told, and the hub forgets the room. Sessions stay.
    pub fn chat_deleted_at(&mut self, msg: ChatDeleted, date: String) -> (r: Vec<Delivery>)
        requires
            old(self).wf(),
        ensures
            final(self).wf(),
            final(self)@ == old(self)@.after_room_deleted(msg.chat_id@),
            dispatches(r@) == old(self)@.room_deleted_dispatches(msg.chat_id@, date@),
    {
        let ghost before = self@;
        let ghost old_rooms = self.rooms@;
        match self.find_room(&msg.chat_id) {
            Some(at) => {
                proof {
                    lemma_rooms_map_at(old_rooms, at as int);
                    lemma_rooms_map_remove(old_rooms, at as int);
                }
                let notice = SocketMessage::dated(
                    room_deleted_notice(&msg.chat_id),
                    MessageType::CHAT_DELETED,
                    None,
                    date,
                );
                let deliveries = self.deliver_all(&self.rooms[at].members, None, &notice);
                self.rooms.remove(at);
                deliveries
            },
            None => {
                proof {
                    lemma_rooms_map_absent(old_rooms, msg.chat_id@);
                    assert(self@.rooms =~= before.rooms.remove(msg.chat_id@));
                }
                let none: Vec<Delivery> = Vec::new();
                assert(dispatches(none@) =~= before.room_deleted_dispatches(msg.chat_id@, date@));
                none
            },
        }
    }
}

impl<C> Lobby<C> {
    /// Handles a connect now: [`Lobby::connect_at`] at the time that the
    /// clock shows.
    pub fn handle_connect(&mut self, msg: Connect<C>) -> (r: Connected<C>)
        requires
            old(self).wf(),
        ensures
            final(self).wf(),
            final(self)@ == old(self)@.after_connect(msg.room_id@, msg.id, msg.addr),
            r.evicted.is_some() == old(self)@.sessions.contains_key(msg.id),
            exists|date: Seq<char>|
                {
                    &&& is_date_text(date)
                    &&& dispatches(r.deliveries@) == #[trigger] old(self)@.connect_dispatches(
                        msg.room_id@,
                        msg.id,
                        date,
                    )
                    &&& r.evicted matches Some(e) ==> e.channel == old(self)@.sessions[msg.id]
                        && e.notice@ == evicted_event(msg.id, date)
                },
            forall|i: int|
                0 <= i < r.deliveries@.len() && (#[trigger] r.deliveries@[i])@.event.kind
                    == MessageType::JOIN ==> r.deliveries@[i].target != msg.id,
    {
        let date = current_date();
        let ghost room = msg.room_id@;
        let ghost id = msg.id;
        let r = self.connect_at(msg, date);
        assert(dispatches(r.deliveries@) == old(self)@.connect_dispatches(room, id, date@));
        r
    }

    /// Handles a disconnect now: [`Lobby::disconnect_at`] at the time that
    /// the clock shows.
    pub fn handle_disconnect(&mut self, msg: Disconnect) -> (r: Vec<Delivery>)
        requires
            old(self).wf(),
        ensures
            final(self).wf(),
            final(self)@ == old(self)@.after_disconnect(msg.room_id@, msg.id),
            exists|date: Seq<char>|
                is_date_text(date) && dispatches(r@) == #[trigger] old(self)@.disconnect_dispatches(
                    msg.room_id@,
                    msg.id,
                    date,
                ),
            !old(self)@.sessions.contains_key(msg.id) ==> final(self)@ == old(self)@ && r@.len()
                == 0,
            forall|i: int| 0 <= i < r@.len() ==> (#[trigger] r@[i]).target != msg.id,
    {
        let date = current_date();
        let ghost room = msg.room_id@;
        let ghost id = msg.id;
        let r = self.disconnect_at(msg, date);
        assert(dispatches(r@) == old(self)@.disconnect_dispatches(room, id, date@));
        r
    }

    /// Handles a message now, once the store has answered:
    /// [`Lobby::client_message_at`] at the time that the clock shows.
    pub fn handle_client_message(
        &self,
        msg: ClientActorMessage,
        stored: Result<String, InsertError>,
    ) -> (r: Vec<Delivery>)
        requires
            self.wf(),
        ensures
            exists|date: Seq<char>|
                is_date_text(date) && dispatches(r@) == #[trigger] self@.message_dispatches(
                    msg.room_id@,
                    msg.id,
                    msg.msg@,
                    stored.is_ok(),
                    date,
                ),
            forall|i: int|
                0 <= i < r@.len() && (#[trigger] r@[i])@.event.kind == MessageType::TEXT
                    ==> stored.is_ok() && r@[i].target != msg.id,
            stored.is_err() ==> r@.len() <= 1 && forall|i: int|
                0 <= i < r@.len() ==> (#[trigger] r@[i])@.event.kind == MessageType::CHAT_DELETED
                    && r@[i].target == msg.id,
            stored.is_err() && self@.sessions.contains_key(msg.id) ==> r@.len() == 1,
    {
        let date = current_date();
        let ghost room = msg.room_id@;
        let ghost id = msg.id;
        let ghost text = msg.msg@;
        let r = self.client_message_at(msg, stored, date);
        assert(dispatches(r@) == self@.message_dispatches(room, id, text, stored.is_ok(), date@));
        r
    }

    /// Handles the removal of a room now: [`Lobby::chat_deleted_at`] at the
    /// time that the clock shows.
    pub fn handle_chat_deleted(&mut self, msg: ChatDeleted) -> (r: Vec<Delivery>)
        requires
            old(self).wf(),
        ensures
            final(self).wf(),
            final(self)@ == old(self)@.after_room_deleted(msg.chat_id@),
            exists|date: Seq<char>|
                is_date_text(date) && dispatches(r@) == #[trigger] old(self)@.room_deleted_dispatches(
                    msg.chat_id@,
                    date,
                ),
    {
        let date = current_date();
        let ghost room = msg.chat_id@;
        let r = self.chat_deleted_at(msg, date);
        assert(dispatches(r@) == old(self)@.room_deleted_dispatches(room, date@));
        r
    }
}

/// The body of the notice to a sender whose message was not kept, around
/// the room's name as `quoted` gives it.
pub fn write_failed_body(quoted: &str) -> (r: String)
    ensures
        r@ == "Chat "@ + quoted@ + " foi deletado!"@,
{
    let mut body = String::from_str("Chat ");
    body.append(quoted);
    body.append(" foi deletado!");
    body
}

/// The body of the notice to the members of a removed room, around the
/// room's name as `quoted` gives it.
pub fn room_deleted_body(quoted: &str) -> (r: String)
    ensures
        r@ == "Chat "@ + quoted@ + " deletado."@,
{
    let mut body = String::from_str("Chat ");
    body.append(quoted);
    body.append(" deletado.");
    body
}

fn write_failed_notice(room_id: &String) -> (r: String)
    ensures
        r@ == "Chat "@ + debug_quoted(room_id@) + " foi deletado!"@,
{
    let quoted = quote(room_id.as_str());
    write_failed_body(quoted.as_str())
}

fn room_deleted_notice(room_id: &String) -> (r: String)
    ensures
        r@ == "Chat "@ + debug_quoted(room_id@) + " deletado."@,
{
    let quoted = quote(room_id.as_str());
    room_deleted_body(quoted.as_str())
}

fn copy_ids(ids: &Vec<i64>) -> (r: Vec<i64>)
    ensures
        r@ == ids@,
{
    let r = ids.clone();
    assert(r@ =~= ids@);
    r
}

fn has_member(members: &Vec<i64>, id: i64) -> (r: bool)
    ensures
        r == members@.contains(id),
{
    let mut i: usize = 0;
    while i < members.len()
        invariant
            i <= members@.len(),
            forall|j: int| 0 <= j < i ==> members@[j] != id,
        decreases members@.len() - i,
    {
        if members[i] == id {
            return true;
        }
        i = i + 1;
    }
    false
}

fn remove_member(members: &Vec<i64>, id: i64) -> (r: Vec<i64>)
    ensures
        r@ == without_member(members@, id),
{
    let mut out: Vec<i64> = Vec::new();
    let mut i: usize = 0;
    assert(members@.take(0) =~= Seq::<i64>::empty());
    while i < members.len()
        invariant
            i <= members@.len(),
            out@ == without_member(members@.take(i as int), id),
        decreases members@.len() - i,
    {
        proof {
            lemma_without_step(members@, i as int, id);
        }
        if members[i] != id {
            out.push(members[i]);
        }
        i = i + 1;
    }
    assert(members@.take(members@.len() as int) =~= members@);
    out
}

proof fn lemma_rooms_map_at(rooms: Seq<Room>, i: int)
    requires
        rooms_wf(rooms),
        0 <= i < rooms.len(),
    ensures
        rooms_map(rooms).contains_key(rooms[i].id@),
        rooms_map(rooms)[rooms[i].id@] == rooms[i].members@,
{
    let room = rooms[i].id@;
    assert(holds(rooms, i, room));
    let j = choose|j: int| holds(rooms, j, room);
    assert(holds(rooms, j, room));
    if j < i {
        assert(rooms[j].id@ != rooms[i].id@);
    }
    if i < j {
        assert(rooms[i].id@ != rooms[j].id@);
    }
}

proof fn lemma_rooms_map_absent(rooms: Seq<Room>, room: Seq<char>)
    requires
        forall|i: int| 0 <= i < rooms.len() ==> (#[trigger] rooms[i]).id@ != room,
    ensures
        !rooms_map(rooms).contains_key(room),
{
    if rooms_map(rooms).contains_key(room) {
        let i = choose|i: int| holds(rooms, i, room);
        assert(rooms[i].id@ == room);
    }
}

proof fn lemma_rooms_map_push(rooms: Seq<Room>, added: Room)
    requires
        rooms_wf(rooms),
        forall|i: int| 0 <= i < rooms.len() ==> (#[trigger] rooms[i]).id@ != added.id@,
        added.members@.len() > 0,
        added.members@.no_duplicates(),
    ensures
        rooms_wf(rooms.push(added)),
        rooms_map(rooms.push(added)) == rooms_map(rooms).insert(added.id@, added.members@),
{
    let after = rooms.push(added);
    assert(rooms_wf(after));
    let expected = rooms_map(rooms).insert(added.id@, added.members@);
    assert forall|room: Seq<char>| rooms_map(after).contains_key(room) implies (
    #[trigger] expected.contains_key(room)) by {
        let i = choose|i: int| holds(after, i, room);
        if i < rooms.len() {
            assert(holds(rooms, i, room));
        }
    }
    assert forall|room: Seq<char>| expected.contains_key(room) implies (#[trigger] rooms_map(
        after,
    ).contains_key(room)) by {
        if room == added.id@ {
            assert(holds(after, rooms.len() as int, room));
        } else {
            let i = choose|i: int| holds(rooms, i, room);
            assert(holds(after, i, room));
        }
    }
    assert forall|room: Seq<char>| #[trigger] expected.contains_key(room) implies rooms_map(
        after,
    )[room] == expected[room] by {
        if room == added.id@ {
            lemma_rooms_map_at(after, rooms.len() as int);
        } else {
            let i = choose|i: int| holds(rooms, i, room);
            lemma_rooms_map_at(rooms, i);
            lemma_rooms_map_at(after, i);
        }
    }
    assert(rooms_map(after) =~= expected);
}

proof fn lemma_rooms_map_update(rooms: Seq<Room>, at: int, changed: Room)
    requires
        rooms_wf(rooms),
        0 <= at < rooms.len(),
        changed.id@ == rooms[at].id@,
        changed.members@.len() > 0,
        changed.members@.no_duplicates(),
    ensures
        rooms_wf(rooms.update(at, changed)),
        rooms_map(rooms.update(at, changed)) == rooms_map(rooms).insert(
            changed.id@,
            changed.members@,
        ),
{
    let after = rooms.update(at, changed);
    assert(rooms_wf(after)) by {
        assert forall|i: int, j: int| 0 <= i < j < after.len() implies #[trigger] after[i].id@
            != #[trigger] after[j].id@ by {
            assert(rooms[i].id@ != rooms[j].id@);
        }
    }
    let expected = rooms_map(rooms).insert(changed.id@, changed.members@);
    assert forall|room: Seq<char>| rooms_map(after).contains_key(room) implies (
    #[trigger] expected.contains_key(room)) by {
        let i = choose|i: int| holds(after, i, room);
        if i != at {
            assert(holds(rooms, i, room));
        }
    }
    assert forall|room: Seq<char>| expected.contains_key(room) implies (#[trigger] rooms_map(
        after,
    ).contains_key(room)) by {
        if room == changed.id@ {
            assert(holds(after, at, room));
        } else {
            let i = choose|i: int| holds(rooms, i, room);
            assert(holds(after, i, room));
        }
    }
    assert forall|room: Seq<char>| #[trigger] expected.contains_key(room) implies rooms_map(
        after,
    )[room] == expected[room] by {
        if room == changed.id@ {
            lemma_rooms_map_at(after, at);
        } else {
            let i = choose|i: int| holds(rooms, i, room);
            lemma_rooms_map_at(rooms, i);
            lemma_rooms_map_at(after, i);
        }
    }
    assert(rooms_map(after) =~= expected);
}

proof fn lemma_rooms_map_remove(rooms: Seq<Room>, at: int)
    requires
        rooms_wf(rooms),
        0 <= at < rooms.len(),
    ensures
        rooms_wf(rooms.remove(at)),
        rooms_map(rooms.remove(at)) == rooms_map(rooms).remove(rooms[at].id@),
{
    let after = rooms.remove(at);
    let gone = rooms[at].id@;
    assert forall|i: int| 0 <= i < after.len() implies #[trigger] after[i] == rooms[if i < at {
        i
    } else {
        i + 1
    }] by {}
    assert(rooms_wf(after)) by {
        assert forall|i: int, j: int| 0 <= i < j < after.len() implies #[trigger] after[i].id@
            != #[trigger] after[j].id@ by {
            let a = if i < at {
                i
            } else {
                i + 1
            };
            let b = if j < at {
                j
            } else {
                j + 1
            };
            assert(rooms[a].id@ != rooms[b].id@);
        }
        assert forall|i: int| 0 <= i < after.len() implies (#[trigger] after[i]).members@.len() > 0
            && after[i].members@.no_duplicates() by {
            let a = if i < at {
                i
            } else {
                i + 1
            };
            assert(rooms[a].members@.len() > 0);
        }
    }
    let expected = rooms_map(rooms).remove(gone);
    assert forall|room: Seq<char>| rooms_map(after).contains_key(room) implies (
    #[trigger] expected.contains_key(room)) by {
        let i = choose|i: int| holds(after, i, room);
        let a = if i < at {
            i
        } else {
            i + 1
        };
        assert(holds(rooms, a, room));
        if a < at {
            assert(rooms[a].id@ != rooms[at].id@);
        } else {
            assert(rooms[at].id@ != rooms[a].id@);
        }
    }
    assert forall|room: Seq<char>| expected.contains_key(room) implies (#[trigger] rooms_map(
        after,
    ).contains_key(room)) by {
        let i = choose|i: int| holds(rooms, i, room);
        let a = if i < at {
            i
        } else {
            i - 1
        };
        assert(holds(after, a, room));
    }
    assert forall|room: Seq<char>| #[trigger] expected.contains_key(room) implies rooms_map(
        after,
    )[room] == expected[room] by {
        let i = choose|i: int| holds(rooms, i, room);
        let a = if i < at {
            i
        } else {
            i - 1
        };
        lemma_rooms_map_at(rooms, i);
        lemma_rooms_map_at(after, a);
    }
    assert(rooms_map(after) =~= expected);
}

proof fn lemma_rooms_map_len(rooms: Seq<Room>)
    requires
        rooms_wf(rooms),
    ensures
        rooms_map(rooms).dom().finite(),
        rooms_map(rooms).dom().len() == rooms.len(),
    decreases rooms.len(),
{
    if rooms.len() == 0 {
        assert(rooms_map(rooms).dom() =~= Set::<Seq<char>>::empty());
    } else {
        let shorter = rooms.drop_last();
        let last = rooms.last();
        assert(rooms_wf(shorter)) by {
            assert forall|i: int, j: int| 0 <= i < j < shorter.len() implies #[trigger] shorter[i].id@
                != #[trigger] shorter[j].id@ by {
                assert(rooms[i].id@ != rooms[j].id@);
            }
            assert forall|i: int| 0 <= i < shorter.len() implies (
            #[trigger] shorter[i]).members@.len() > 0 && shorter[i].members@.no_duplicates() by {
                assert(rooms[i].members@.len() > 0);
            }
        }
        lemma_rooms_map_len(shorter);
        assert forall|i: int| 0 <= i < shorter.len() implies (#[trigger] shorter[i]).id@
            != last.id@ by {
            assert(rooms[i].id@ != rooms[rooms.len() - 1].id@);
        }
        assert(last.members@.len() > 0 && last.members@.no_duplicates()) by {
            assert(rooms[rooms.len() - 1].members@.len() > 0);
        }
        lemma_rooms_map_absent(shorter, last.id@);
        lemma_rooms_map_push(shorter, last);
        assert(shorter.push(last) =~= rooms);
        assert(rooms_map(rooms).dom() =~= rooms_map(shorter).dom().insert(last.id@));
    }
}

} // verus!
