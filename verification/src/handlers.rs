//! What the server does with each kind of request, as far as it is a matter
//! of deciding: the program around this library takes the locks, encodes
//! the messages and sends what is to be sent.

use crate::filter::{accept, accepts};
use crate::message::{views_of, Message};
use crate::registry::{renamed, unrelated, with_name};
use crate::store::{history_of, keys_of, with_message, Rooms, SavedMessages, Users};
use crate::text::texts_of;
use vstd::prelude::*;

verus! {

/// How many messages may wait for one listener before the oldest are dropped.
pub const QUEUE_CAPACITY: usize = 1024;

/// How a request for a list ended.
#[derive(Debug, Clone, Copy, PartialEq, Eq, Structural)]
pub enum Status {
    /// The list is in the reply.
    Success,
    /// The list could not be had for the moment.
    Locked,
    /// There is no such room.
    NotFound,
}

/// The reply to a request for a list: how it ended and, where it ended
/// well, the encoded list.
#[derive(Debug, PartialEq, Eq)]
pub struct Reply {
    pub status: Status,
    pub body: String,
}

/// The JSON text that `rocket::serde::json::to_string` gives for a list of
/// strings with the texts `names`.
pub uninterp spec fn json_of_names(names: Seq<Seq<char>>) -> Seq<char>;

/// `reply` is the reply for a list with the encoded form `encoded`, where
/// `None` stands for a list that could not be read or encoded.
pub open spec fn replies_to(reply: Reply, encoded: Option<Seq<char>>) -> bool {
    match encoded {
        Some(body) => reply.status == Status::Success && reply.body@ == body,
        None => reply.status == Status::Locked && reply.body@ == Seq::<char>::empty(),
    }
}

/// The list `names` in JSON.
///
/// Calls `rocket::serde::json::to_string`, which hands the list to
/// `serde_json::to_string`, and drops the error where there is one. Nothing
/// is proved of the encoding. The contract claims two things of it. The
/// call succeeds: the writer is a vector of bytes in memory, and for a list
/// of strings no other step can report an error. And the text depends on
/// the texts of `names` and on nothing else, so it is given a name.
#[verifier::external_body]
fn encode_names(names: &Vec<String>) -> (encoded: Option<String>)
    ensures
        encoded is Some,
        encoded->0@ == json_of_names(texts_of(names@)),
{
    rocket::serde::json::to_string(names).ok()
}

/// The reply for a list, given its encoded form, or `None` where the list
/// could not be read or encoded: then the reply is `Locked` and its body
/// empty.
pub fn rw_lock_to_json(encoded: Option<String>) -> (reply: Reply)
    ensures
        match encoded {
            Some(body) => replies_to(reply, Some(body@)),
            None => replies_to(reply, None),
        },
{
    match encoded {
        Some(body) => Reply { status: Status::Success, body },
        None => Reply { status: Status::Locked, body: String::new() },
    }
}

/// Takes in a posted message. Its room is made known in any case. Where
/// the message is accepted it is added to what has been said in its room and
/// handed back, to be sent to the listeners; where it is not, the histories
/// stay as they are and nothing is handed back.
pub fn post(form: Message, rooms: &mut Rooms, messages: &mut SavedMessages) -> (passed: Option<
    Message,
>)
    ensures
        final(rooms)@ == with_name(old(rooms)@, form.room@),
        unrelated(old(rooms)@) ==> unrelated(final(rooms)@),
        unrelated(keys_of(old(messages)@)) ==> unrelated(keys_of(final(messages)@)),
        accepts(form@) ==> passed == Some(form) && final(messages)@ == with_message(
            old(messages)@,
            form.room@,
            form@,
        ),
        !accepts(form@) ==> passed is None && final(messages)@ == old(messages)@,
{
    rooms.ensure_room(form.room.as_str());
    if accept(&form) {
        messages.append_history(form.room.as_str(), form.clone());
        Some(form)
    } else {
        None
    }
}

/// Takes in a change of name of a user.
pub fn add_user(total_users: &mut Users, old_username: String, new_username: String)
    ensures
        final(total_users)@ == renamed(old(total_users)@, old_username@, new_username@),
{
    total_users.rename_user(&old_username, new_username);
}

/// The reply to a request for the active users: their names in JSON, in the
/// order in which they are shown.
pub fn get_users(total_users: &Users) -> (reply: Reply)
    ensures
        reply.status == Status::Success,
        reply.body@ == json_of_names(total_users@),
{
    rw_lock_to_json(encode_names(&total_users.snapshot_users()))
}

/// The reply to a request for the known rooms: their names in JSON, in the
/// order in which they were first named.
pub fn get_rooms(rooms: &Rooms) -> (reply: Reply)
    ensures
        reply.status == Status::Success,
        reply.body@ == json_of_names(rooms@),
{
    rw_lock_to_json(encode_names(&rooms.snapshot_rooms()))
}

/// What has been said in the room `room_name`, to be encoded: the messages
/// of the history that is kept under exactly that name. Where there is none,
/// also where a name that matches `room_name` has one, the reply `NotFound`
/// with an empty body.
pub fn get_messages(messages: &SavedMessages, room_name: &str) -> (found: Result<
    Vec<Message>,
    Reply,
>)
    ensures
        found is Ok <==> keys_of(messages@).contains(room_name@),
        match found {
            Ok(entries) => history_of(messages@, room_name@) == Some(views_of(entries@)),
            Err(reply) => history_of(messages@, room_name@) is None && reply.status
                == Status::NotFound && reply.body@ == Seq::<char>::empty(),
        },
{
    match messages.snapshot_history(room_name) {
        Some(entries) => Ok(entries),
        None => Err(Reply { status: Status::NotFound, body: String::new() }),
    }
}

} // verus!
