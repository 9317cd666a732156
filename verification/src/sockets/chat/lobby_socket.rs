//! The connection of one user to one room: what it tells the hub when it
//! starts and stops, what it does with each frame of its socket, and when
//! it gives a silent peer up.

use crate::message::SocketMessage;
use crate::sockets::chat::lobby_actor::{ClientActorMessage, Connect, Disconnect};
use crate::sockets::{heartbeat, timed_out, Frame, Heartbeat, ProtocolError, Reaction, WsMessage};
use vstd::prelude::*;

verus! {

/// One live socket of a user in a room.
#[derive(Debug)]
pub struct ChatWs {
    id: i64,
    hb: u128,
    room: String,
}

/// What a [`ChatWs`] holds: the user, the room, and the clock reading, in
/// nanoseconds, at which the peer was last heard.
pub struct ChatWsState {
    pub id: i64,
    pub room: Seq<char>,
    pub last_seen: u128,
}

impl View for ChatWs {
    type V = ChatWsState;

    closed spec fn view(&self) -> ChatWsState {
        ChatWsState { id: self.id, room: self.room@, last_seen: self.hb }
    }
}

/// The body that a text frame contributes: that of the record it holds,
/// and nothing where it holds none.
pub open spec fn inbound_text(decoded: Option<SocketMessage>) -> Seq<char> {
    match decoded {
        Some(m) => m@.body,
        None => Seq::<char>::empty(),
    }
}

impl ChatWs {
    /// The connection of user `id` to `room`, whose peer counts as heard at
    /// `now`.
    pub fn new(room: String, id: i64, now: u128) -> (r: ChatWs)
        ensures
            r@ == (ChatWsState { id, room: room@, last_seen: now }),
    {
        ChatWs { id, hb: now, room }
    }

    /// The heartbeat tick at `now`: stop where the peer has been silent for
    /// more than the timeout, else ping it.
    pub fn hb(&self, now: u128) -> (r: Heartbeat)
        ensures
            r == if timed_out(self@.last_seen, now) {
                Heartbeat::Stop
            } else {
                Heartbeat::Ping
            },
    {
        heartbeat(self.hb, now)
    }

    /// The request that puts this connection, reached on `addr`, into its
    /// room.
    pub fn started<C>(&self, addr: C) -> (r: Connect<C>)
        ensures
            r.addr == addr,
            r.room_id@ == self@.room,
            r.id == self@.id,
    {
        Connect { addr, room_id: self.room.clone(), id: self.id }
    }

    /// What follows the hub's answer to the connect: the connection goes on
    /// where the hub took the request, and stops where the hub could not be
    /// reached.
    pub fn connected(&self, acknowledged: bool) -> (r: Reaction)
        ensures
            acknowledged ==> r is Nothing,
            !acknowledged ==> r is Stop,
    {
        if acknowledged {
            Reaction::Nothing
        } else {
            Reaction::Stop
        }
    }

    /// The request that takes this connection out of its room. It is owed
    /// on every way out.
    pub fn stopping(&self) -> (r: Disconnect)
        ensures
            r.room_id@ == self@.room,
            r.id == self@.id,
    {
        Disconnect { room_id: self.room.clone(), id: self.id }
    }

    /// An event from the hub goes to the socket as a text frame, unchanged.
    pub fn deliver(&self, msg: WsMessage) -> (r: Reaction)
        ensures
            r matches Reaction::Text(text) && text@ == msg.0@,
    {
        Reaction::Text(msg.0)
    }

    /// Handles what arrived from the socket at `now`. A ping or a pong
    /// counts as a sign of life; a ping is answered with its payload. A
    /// binary frame is echoed. A text frame is read leniently and its body
    /// handed to the hub as a message of this user to this room. A close
    /// frame closes and stops; a continuation frame or a protocol error
    /// stops. Only a sign of life changes the connection.
    pub fn handle(&mut self, item: Result<Frame, ProtocolError>, now: u128) -> (r: Reaction)
        ensures
            final(self)@.id == old(self)@.id,
            final(self)@.room == old(self)@.room,
            final(self)@.last_seen == if item matches Ok(frame) && (frame is Ping || frame is Pong) {
                now
            } else {
                old(self)@.last_seen
            },
            match item {
                Ok(Frame::Ping(payload)) => r matches Reaction::Pong(p) && p@ == payload@,
                Ok(Frame::Pong(_)) => r is Nothing,
                Ok(Frame::Binary(payload)) => r matches Reaction::Binary(p) && p@ == payload@,
                Ok(Frame::Close(reason)) => r matches Reaction::Close(c) && c == reason,
                Ok(Frame::Continuation) => r is Stop,
                Ok(Frame::Nop) => r is Nothing,
                Ok(Frame::Text(decoded)) => r matches Reaction::Forward(m) && m.id == old(self)@.id
                    && m.room_id@ == old(self)@.room && m.msg@ == inbound_text(decoded),
                Err(_) => r is Stop,
            },
    {
        match item {
            Ok(Frame::Ping(payload)) => {
                self.hb = now;
                Reaction::Pong(payload)
            },
            Ok(Frame::Pong(_)) => {
                self.hb = now;
                Reaction::Nothing
            },
            Ok(Frame::Binary(payload)) => Reaction::Binary(payload),
            Ok(Frame::Close(reason)) => Reaction::Close(reason),
            Ok(Frame::Continuation) => Reaction::Stop,
            Ok(Frame::Nop) => Reaction::Nothing,
            Ok(Frame::Text(decoded)) => {
                let event = SocketMessage::parse(decoded);
                Reaction::Forward(
                    ClientActorMessage {
                        id: self.id,
                        msg: event.message,
                        room_id: self.room.clone(),
                    },
                )
            },
            Err(_) => Reaction::Stop,
        }
    }
}

} // verus!
