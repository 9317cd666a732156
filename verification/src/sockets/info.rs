//! Account-wide notifications: the hub that tells every connected user when
//! a room appears or disappears, and the connection of one user to it.

pub mod info_actor;
pub mod info_socket;
