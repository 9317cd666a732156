//! Rooms: the hub that owns their membership, its model, what holds of it,
//! and the connection of one user to one room.

pub mod lobby_actor;
pub mod lobby_laws;
pub mod lobby_model;
pub mod lobby_socket;
