//! The hubs and the connections that feed them, and what a connection and
//! its socket say to each other.

use crate::message::SocketMessage;
use crate::sockets::chat::lobby_actor::ClientActorMessage;
use vstd::prelude::*;

pub mod chat;
pub mod info;

verus! {

/// Seconds between two pings to a peer.
pub const HEARTBEAT_INTERVAL: u64 = 5;

/// Seconds of silence after which a peer counts as gone.
pub const CLIENT_TIMEOUT: u64 = 10;

/// Nanoseconds in a second.
pub const NANOS_PER_SECOND: u128 = 1_000_000_000;

/// Text that a hub hands to a connection to be written to its socket.
pub struct WsMessage(pub String);

/// Why a peer closes: the close code and the text that came with it.
#[derive(Debug)]
pub struct CloseReason {
    pub code: u16,
    pub description: Option<String>,
}

/// A frame that arrived from the peer.
#[derive(Debug)]
pub enum Frame {
    /// A text frame, with the record that its text holds, if it holds one.
    Text(Option<SocketMessage>),
    Binary(Vec<u8>),
    Continuation,
    Ping(Vec<u8>),
    Pong(Vec<u8>),
    Close(Option<CloseReason>),
    Nop,
}

/// The peer broke the framing protocol.
#[derive(Clone, Copy, Debug, PartialEq, Eq, Structural)]
pub struct ProtocolError;

/// What a connection does next.
#[derive(Debug)]
pub enum Reaction {
    Nothing,
    /// Answer a ping with its payload.
    Pong(Vec<u8>),
    /// Write a binary frame.
    Binary(Vec<u8>),
    /// Write a text frame.
    Text(String),
    /// Hand a message to the room hub.
    Forward(ClientActorMessage),
    /// Close the socket with the peer's reason, then stop.
    Close(Option<CloseReason>),
    /// Stop the connection.
    Stop,
}

/// What a connection does on a heartbeat tick.
#[derive(Clone, Copy, Debug, PartialEq, Eq, Structural)]
pub enum Heartbeat {
    /// The peer is alive: ping it.
    Ping,
    /// The peer has been silent for too long: stop the connection.
    Stop,
}

/// Whether a peer last heard at `last_seen` counts as gone at `now`: more
/// than [`CLIENT_TIMEOUT`] seconds lie between the two clock readings, both
/// in nanoseconds.
pub open spec fn timed_out(last_seen: u128, now: u128) -> bool {
    now - last_seen > CLIENT_TIMEOUT * NANOS_PER_SECOND
}

/// The decision of a heartbeat tick at `now` for a peer last heard at
/// `last_seen`, both in nanoseconds of one monotonic clock.
pub fn heartbeat(last_seen: u128, now: u128) -> (r: Heartbeat)
    ensures
        r == if timed_out(last_seen, now) {
            Heartbeat::Stop
        } else {
            Heartbeat::Ping
        },
{
    if now > last_seen && now - last_seen > (CLIENT_TIMEOUT as u128) * NANOS_PER_SECOND {
        Heartbeat::Stop
    } else {
        Heartbeat::Ping
    }
}

} // verus!
