//! The connection of one user to the notification hub.

use crate::sockets::info::info_actor::{Connect, Disconnect};
use crate::sockets::{heartbeat, timed_out, Frame, Heartbeat, ProtocolError, Reaction, WsMessage};
use vstd::prelude::*;

verus! {

/// One live notification socket of a user.
#[derive(Debug)]
pub struct InfoWS {
    id: i64,
    hb: u128,
}

/// What an [`InfoWS`] holds: the user, and the clock reading, in
/// nanoseconds, at which the peer was last heard.
pub struct InfoWSState {
    pub id: i64,
    pub last_seen: u128,
}

impl View for InfoWS {
    type V = InfoWSState;

    closed spec fn view(&self) -> InfoWSState {
        InfoWSState { id: self.id, last_seen: self.hb }
    }
}

impl InfoWS {
    /// The notification connection of user `id`, whose peer counts as heard
    /// at `now`.
    pub fn new(id: i64, now: u128) -> (r: Self)
        ensures
            r@ == (InfoWSState { id, last_seen: now }),
    {
        InfoWS { id, hb: now }
    }

    /// The heartbeat tick at `now`: stop where the peer has been silent for
    /// more than the timeout, else ping it.
    pub fn hb(&self, now: u128) -> (r: Heartbeat)
        ensures
            r == if timed_out(self@.last_seen, now) {
                Heartbeat::Stop
            } else {
                Heartbeat::Ping
            },
    {
        heartbeat(self.hb, now)
    }

    /// The request that registers this connection, reached on `addr`.
    pub fn started<C>(&self, addr: C) -> (r: Connect<C>)
        ensures
            r.addr == addr,
            r.user_id == self@.id,
    {
        Connect { user_id: self.id, addr }
    }

    /// What follows the hub's answer to the connect: the connection goes on
    /// where the hub took the request, and stops where the hub could not be
    /// reached.
    pub fn connected(&self, acknowledged: bool) -> (r: Reaction)
        ensures
            acknowledged ==> r is Nothing,
            !acknowledged ==> r is Stop,
    {
        if acknowledged {
            Reaction::Nothing
        } else {
            Reaction::Stop
        }
    }

    /// The request that removes this connection from the hub. It is owed on
    /// every way out.
    pub fn stopping(&self) -> (r: Disconnect)
        ensures
            r.user_id == self@.id,
    {
        Disconnect { user_id: self.id }
    }

    /// A notification from the hub goes to the socket as a text frame,
    /// unchanged.
    pub fn deliver(&self, msg: WsMessage) -> (r: Reaction)
        ensures
            r matches Reaction::Text(text) && text@ == msg.0@,
    {
        Reaction::Text(msg.0)
    }

    /// Handles what arrived from the socket at `now`. A ping or a pong
    /// counts as a sign of life; a ping is answered with its payload. A
    /// binary frame is echoed. Text is ignored. A close frame closes and
    /// stops; a continuation frame or a protocol error stops. Only a sign
    /// of life changes the connection.
    pub fn handle(&mut self, item: Result<Frame, ProtocolError>, now: u128) -> (r: Reaction)
        ensures
            final(self)@.id == old(self)@.id,
            final(self)@.last_seen == if item matches Ok(frame) && (frame is Ping || frame is Pong) {
                now
            } else {
                old(self)@.last_seen
            },
            match item {
                Ok(Frame::Ping(payload)) => r matches Reaction::Pong(p) && p@ == payload@,
                Ok(Frame::Pong(_)) => r is Nothing,
                Ok(Frame::Binary(payload)) => r matches Reaction::Binary(p) && p@ == payload@,
                Ok(Frame::Close(reason)) => r matches Reaction::Close(c) && c == reason,
                Ok(Frame::Continuation) => r is Stop,
                Ok(Frame::Nop) => r is Nothing,
                Ok(Frame::Text(_)) => r is Nothing,
                Err(_) => r is Stop,
            },
    {
        match item {
            Ok(Frame::Ping(payload)) => {
                self.hb = now;
                Reaction::Pong(payload)
            },
            Ok(Frame::Pong(_)) => {
                self.hb = now;
                Reaction::Nothing
            },
            Ok(Frame::Binary(payload)) => Reaction::Binary(payload),
            Ok(Frame::Close(reason)) => Reaction::Close(reason),
            Ok(Frame::Continuation) => Reaction::Stop,
            Ok(Frame::Nop) => Reaction::Nothing,
            Ok(Frame::Text(_)) => Reaction::Nothing,
            Err(_) => Reaction::Stop,
        }
    }
}

} // verus!
