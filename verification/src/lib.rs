//! In-memory relay for a real-time chat service: the wire events, the room
//! hub, the notification hub and the per-connection state machines.

pub mod db;
pub mod message;
pub mod sockets;
pub mod text;
