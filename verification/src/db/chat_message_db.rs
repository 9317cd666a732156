//! The request to store one chat message, and how the store may refuse it.

use vstd::prelude::*;

verus! {

/// One chat message on its way to the store.
pub struct InsertChatMessage<'t> {
    pub chat_id: String,
    pub user_id: i64,
    pub message: &'t str,
    pub date_created: String,
}

/// The content of an [`InsertChatMessage`].
pub struct InsertRequest {
    pub room: Seq<char>,
    pub user: i64,
    pub text: Seq<char>,
    pub timestamp: Seq<char>,
}

impl<'t> View for InsertChatMessage<'t> {
    type V = InsertRequest;

    open spec fn view(&self) -> InsertRequest {
        InsertRequest {
            room: self.chat_id@,
            user: self.user_id,
            text: self.message@,
            timestamp: self.date_created@,
        }
    }
}

/// Why the store did not keep a message.
#[derive(Clone, Copy, Debug, PartialEq, Eq, Structural)]
pub enum InsertError {
    /// The room or the user that the message refers to is no longer there.
    Constraint,
    /// Any other failure of the store.
    Other,
}

} // verus!
