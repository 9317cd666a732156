//! The notification hub: one session per connected user, and a broadcast to
//! all of them but the originator when a room is created or removed.

use crate::message::{current_date, is_date_text};
use std::collections::HashMap;
use vstd::prelude::*;
use vstd::std_specs::hash::spec_keys_iter;
use vstd::std_specs::iter::IteratorSpec;

verus! {

/// The kind of a notification.
#[derive(Clone, Copy, Debug, PartialEq, Eq, Structural)]
pub enum MessageType {
    ChatCreated,
    ChatRemoved,
}

/// A notification as it travels to a socket.
#[derive(Debug)]
pub struct InfoMessage {
    pub message_type: MessageType,
    pub message: String,
    pub id: Option<i64>,
    pub date: String,
}

/// The content of an [`InfoMessage`].
pub struct InfoEvent {
    pub kind: MessageType,
    pub body: Seq<char>,
    pub origin: Option<i64>,
    pub timestamp: Seq<char>,
}

impl View for InfoMessage {
    type V = InfoEvent;

    open spec fn view(&self) -> InfoEvent {
        InfoEvent {
            kind: self.message_type,
            body: self.message@,
            origin: self.id,
            timestamp: self.date@,
        }
    }
}

impl Clone for InfoMessage {
    fn clone(&self) -> (r: Self)
        ensures
            r@ == self@,
    {
        InfoMessage {
            message_type: self.message_type,
            message: self.message.clone(),
            id: self.id,
            date: self.date.clone(),
        }
    }
}

/// A room was created by `user_id`.
pub struct ChatCreated {
    pub user_id: i64,
    pub room_id: String,
}

/// A room was removed by `user_id`.
pub struct ChatDeleted {
    pub user_id: i64,
    pub room_id: String,
}

/// A connection asks for notifications.
pub struct Connect<C> {
    pub user_id: i64,
    pub addr: C,
}

/// A connection no longer wants notifications.
pub struct Disconnect {
    pub user_id: i64,
}

/// A notification on its way to the channel of one user.
#[derive(Debug)]
pub struct Notification {
    pub target: i64,
    pub message: InfoMessage,
}

/// The content of a [`Notification`].
pub struct Notice {
    pub target: i64,
    pub event: InfoEvent,
}

impl View for Notification {
    type V = Notice;

    open spec fn view(&self) -> Notice {
        Notice { target: self.target, event: self.message@ }
    }
}

/// The notification hub. `C` is the channel on which a user is reached.
pub struct Info<C> {
    sessions: HashMap<i64, C>,
}

/// The event that announces a new room.
pub open spec fn created_event(room: Seq<char>, date: Seq<char>) -> InfoEvent {
    InfoEvent { kind: MessageType::ChatCreated, body: room, origin: None, timestamp: date }
}

/// The event that announces that a room is gone.
pub open spec fn removed_event(room: Seq<char>, date: Seq<char>) -> InfoEvent {
    InfoEvent { kind: MessageType::ChatRemoved, body: room, origin: None, timestamp: date }
}

/// `out` announces `event` to everyone in `online` but `originator`: each
/// of them is addressed once, nobody else is, and every notification
/// carries `event`. The order is left open.
pub open spec fn announces(
    out: Seq<Notification>,
    online: Set<i64>,
    originator: i64,
    event: InfoEvent,
) -> bool {
    &&& forall|i: int|
        0 <= i < out.len() ==> (#[trigger] out[i])@.event == event && online.contains(
            out[i].target,
        ) && out[i].target != originator
    &&& forall|i: int, j: int|
        0 <= i < j < out.len() ==> (#[trigger] out[i]).target != (#[trigger] out[j]).target
    &&& forall|user: i64|
        online.contains(user) && user != originator ==> exists|i: int|
            0 <= i < out.len() && (#[trigger] out[i]).target == user
}

impl<C> View for Info<C> {
    type V = Map<i64, C>;

    closed spec fn view(&self) -> Map<i64, C> {
        self.sessions@
    }
}

impl<C> Info<C> {
    /// A hub without sessions.
    pub fn new() -> (r: Self)
        ensures
            r@ == Map::<i64, C>::empty(),
    {
        Info { sessions: HashMap::new() }
    }

    /// Addresses `message` to the session of `target_id`. Without such a
    /// session the message is dropped: `None`.
    pub fn send_message(&self, message: InfoMessage, target_id: &i64) -> (r: Option<Notification>)
        ensures
            r.is_some() == self@.contains_key(*target_id),
            r matches Some(n) ==> n@ == (Notice { target: *target_id, event: message@ }),
    {
        broadcast use vstd::std_specs::hash::group_hash_axioms;

        if self.sessions.contains_key(target_id) {
            Some(Notification { target: *target_id, message })
        } else {
            None
        }
    }

    fn session_ids(&self) -> (r: Vec<i64>)
        ensures
            r@.no_duplicates(),
            forall|user: i64| r@.contains(user) <==> self@.contains_key(user),
    {
        broadcast use vstd::std_specs::hash::group_hash_axioms;

        let mut out: Vec<i64> = Vec::new();
        for key in it: self.sessions.keys()
            invariant
                out@.len() == it.index(),
                forall|j: int| 0 <= j < out@.len() ==> out@[j] == *it.seq()[j],
        {
            out.push(*key);
        }
        proof {
            let keys = spec_keys_iter(&self.sessions).remaining();
            assert(keys.len() == out@.len());
            assert forall|i: int, j: int| 0 <= i < j < out@.len() implies out@[i] != out@[j] by {
                assert(keys[i] != keys[j]);
            }
            assert forall|user: i64| out@.contains(user) <==> self@.contains_key(user) by {
                if out@.contains(user) {
                    let j = choose|j: int| 0 <= j < out@.len() && out@[j] == user;
                    assert(keys.unref()[j] == user);
                    assert(keys.unref().to_set().contains(user));
                }
                if self@.contains_key(user) {
                    assert(keys.unref().to_set().contains(user));
                    let j = choose|j: int| 0 <= j < keys.unref().len() && keys.unref()[j] == user;
                    assert(out@[j] == user);
                }
            }
        }
        out
    }
}

/// Whether one of `out` is addressed to `user`.
spec fn reaches(out: Seq<Notification>, user: i64) -> bool {
    exists|i: int| 0 <= i < out.len() && (#[trigger] out[i]).target == user
}

impl<C> Info<C> {
    fn announce(&self, originator: i64, message: &InfoMessage) -> (r: Vec<Notification>)
        ensures
            announces(r@, self@.dom(), originator, message@),
    {
        let ids = self.session_ids();
        let mut out: Vec<Notification> = Vec::new();
        let mut i: usize = 0;
        while i < ids.len()
            invariant
                i <= ids@.len(),
                ids@.no_duplicates(),
                forall|user: i64| ids@.contains(user) <==> self@.contains_key(user),
                forall|k: int|
                    0 <= k < out@.len() ==> (#[trigger] out@[k])@.event == message@
                        && out@[k].target != originator && exists|j: int|
                        0 <= j < i && ids@[j] == out@[k].target,
                forall|k: int, l: int|
                    0 <= k < l < out@.len() ==> (#[trigger] out@[k]).target != (
                    #[trigger] out@[l]).target,
                forall|j: int|
                    0 <= j < i && ids@[j] != originator ==> reaches(out@, #[trigger] ids@[j]),
            decreases ids@.len() - i,
        {
            let target: i64 = ids[i];
            assert(ids@.contains(target));
            if target != originator {
                let ghost before = out@;
                match self.send_message(message.clone(), &target) {
                    Some(notification) => {
                        out.push(notification);
                        assert forall|k: int| 0 <= k < before.len() implies (
                        #[trigger] out@[k]).target != target by {
                            assert(out@[k] == before[k]);
                            let j = choose|j: int| 0 <= j < i && ids@[j] == before[k].target;
                            assert(ids@[j] != ids@[i as int]);
                        }
                        assert forall|j: int|
                            0 <= j < i + 1 && ids@[j] != originator implies reaches(
                            out@,
                            #[trigger] ids@[j],
                        ) by {
                            if j < i {
                                assert(reaches(before, ids@[j]));
                                let k = choose|k: int|
                                    0 <= k < before.len() && (#[trigger] before[k]).target
                                        == ids@[j];
                                assert(out@[k].target == ids@[j]);
                            } else {
                                assert(out@[before.len() as int].target == ids@[j]);
                            }
                        }
                        assert forall|k: int| 0 <= k < out@.len() implies (
                        #[trigger] out@[k])@.event == message@ && out@[k].target != originator
                            && exists|j: int| 0 <= j < i + 1 && ids@[j] == out@[k].target by {
                            if k < before.len() {
                                assert(out@[k] == before[k]);
                                let j = choose|j: int| 0 <= j < i && ids@[j] == before[k].target;
                                assert(0 <= j < i + 1 && ids@[j] == out@[k].target);
                            } else {
                                assert(ids@[i as int] == out@[k].target);
                            }
                        }
                    },
                    None => {},
                }
            }
            i = i + 1;
        }
        proof {
            assert forall|k: int| 0 <= k < out@.len() implies self@.dom().contains(
                (#[trigger] out@[k]).target,
            ) by {
                let j = choose|j: int| 0 <= j < i && ids@[j] == out@[k].target;
                assert(ids@.contains(ids@[j]));
            }
            assert forall|user: i64|
                self@.dom().contains(user) && user != originator implies exists|k: int|
                0 <= k < out@.len() && (#[trigger] out@[k]).target == user by {
                assert(ids@.contains(user));
                let j = choose|j: int| 0 <= j < ids@.len() && ids@[j] == user;
                assert(reaches(out@, ids@[j]));
            }
        }
        out
    }

    /// Registers the channel of a user. A channel that the user had before
    /// is replaced.
    pub fn handle_connect(&mut self, msg: Connect<C>)
        ensures
            final(self)@ == old(self)@.insert(msg.user_id, msg.addr),
    {
        broadcast use vstd::std_specs::hash::group_hash_axioms;

        self.sessions.insert(msg.user_id, msg.addr);
    }

    /// Forgets the channel of a user; nothing changes where it had none.
    pub fn handle_disconnect(&mut self, msg: Disconnect)
        ensures
            final(self)@ == old(self)@.remove(msg.user_id),
    {
        broadcast use vstd::std_specs::hash::group_hash_axioms;

        self.sessions.remove(&msg.user_id);
    }

    /// Announces at time `date` that a room was created: one notification
    /// to every user with a session but the one who created it.
    pub fn chat_created_at(&self, msg: ChatCreated, date: String) -> (r: Vec<Notification>)
        ensures
            announces(r@, self@.dom(), msg.user_id, created_event(msg.room_id@, date@)),
    {
        let message = InfoMessage {
            message_type: MessageType::ChatCreated,
            message: msg.room_id,
            id: None,
            date,
        };
        self.announce(msg.user_id, &message)
    }

    /// Announces at time `date` that a room was removed: one notification
    /// to every user with a session but the one who removed it.
    pub fn chat_deleted_at(&self, msg: ChatDeleted, date: String) -> (r: Vec<Notification>)
        ensures
            announces(r@, self@.dom(), msg.user_id, removed_event(msg.room_id@, date@)),
    {
        let message = InfoMessage {
            message_type: MessageType::ChatRemoved,
            message: msg.room_id,
            id: None,
            date,
        };
        self.announce(msg.user_id, &message)
    }

    /// Announces a new room now: [`Info::chat_created_at`] at the time that
    /// the clock shows.
    pub fn handle_chat_created(&self, msg: ChatCreated) -> (r: Vec<Notification>)
        ensures
            exists|date: Seq<char>|
                is_date_text(date) && announces(
                    r@,
                    self@.dom(),
                    msg.user_id,
                    #[trigger] created_event(msg.room_id@, date),
                ),
    {
        let date = current_date();
        let ghost room = msg.room_id@;
        let r = self.chat_created_at(msg, date);
        assert(announces(r@, self@.dom(), msg.user_id, created_event(room, date@)));
        r
    }

    /// Announces a removed room now: [`Info::chat_deleted_at`] at the time
    /// that the clock shows.
    pub fn handle_chat_deleted(&self, msg: ChatDeleted) -> (r: Vec<Notification>)
        ensures
            exists|date: Seq<char>|
                is_date_text(date) && announces(
                    r@,
                    self@.dom(),
                    msg.user_id,
                    #[trigger] removed_event(msg.room_id@, date),
                ),
    {
        let date = current_date();
        let ghost room = msg.room_id@;
        let r = self.chat_deleted_at(msg, date);
        assert(announces(r@, self@.dom(), msg.user_id, removed_event(room, date@)));
        r
    }

    /// The channel on which `id` is reached, if it has a session.
    pub fn session(&self, id: &i64) -> (r: Option<&C>)
        ensures
            r.is_some() == self@.contains_key(*id),
            r matches Some(c) ==> *c == self@[*id],
    {
        broadcast use vstd::std_specs::hash::group_hash_axioms;

        self.sessions.get(id)
    }
}

} // verus!
