//! What the relay exchanges with the message store.

pub mod chat_message_db;
