//! A chat message, and the welcome with which a room's history begins.

use vstd::prelude::*;

verus! {

/// A message as posted to a room. Once made it is never changed.
#[derive(Debug, PartialEq, Eq)]
pub struct Message {
    /// The room that the message is for.
    pub room: String,
    /// The name of the sender.
    pub username: String,
    /// The text.
    pub message: String,
    /// A tag by which listeners colour the sender's name.
    pub color: String,
}

/// What a message holds, as texts.
pub ghost struct MessageView {
    pub room: Seq<char>,
    pub username: Seq<char>,
    pub message: Seq<char>,
    pub color: Seq<char>,
}

impl View for Message {
    type V = MessageView;

    open spec fn view(&self) -> MessageView {
        MessageView {
            room: self.room@,
            username: self.username@,
            message: self.message@,
            color: self.color@,
        }
    }
}

/// The views of a list of messages.
pub open spec fn views_of(messages: Seq<Message>) -> Seq<MessageView> {
    Seq::new(messages.len(), |i: int| messages[i]@)
}

/// The message that opens the history of `room`.
pub open spec fn welcome_to(room: Seq<char>) -> MessageView {
    MessageView {
        room,
        username: "System"@,
        message: "Welcome to "@ + room,
        color: "hash"@,
    }
}

impl MessageView {
    /// The fields keep to the lengths that a posted message may have: a room
    /// of 1 to 31 characters, a user name of at most 31, a text of at most
    /// 65535 and a colour tag of at most 23.
    pub open spec fn valid(self) -> bool {
        &&& 1 <= self.room.len() <= 31
        &&& self.username.len() <= 31
        &&& self.message.len() <= 65535
        &&& self.color.len() <= 23
    }
}

impl Clone for Message {
    fn clone(&self) -> (copy: Self)
        ensures
            copy == *self,
    {
        Message {
            room: self.room.clone(),
            username: self.username.clone(),
            message: self.message.clone(),
            color: self.color.clone(),
        }
    }
}

impl Message {
    /// Whether the fields keep to the lengths that a posted message may have.
    pub fn is_valid(&self) -> (ok: bool)
        ensures
            ok == self@.valid(),
    {
        let room: usize = self.room.as_str().unicode_len();
        let username: usize = self.username.as_str().unicode_len();
        let message: usize = self.message.as_str().unicode_len();
        let color: usize = self.color.as_str().unicode_len();
        1 <= room && room <= 31 && username <= 31 && message <= 65535 && color <= 23
    }

    /// The message that opens the history of `room`.
    pub fn welcome(room: &str) -> (greeting: Message)
        ensures
            greeting@ == welcome_to(room@),
    {
        let mut text = String::from_str("Welcome to ");
        text.append(room);
        Message {
            room: String::from_str(room),
            username: String::from_str("System"),
            message: text,
            color: String::from_str("hash"),
        }
    }
}

} // verus!
