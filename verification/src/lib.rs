//! The core of a small chat server: the rule that decides which messages are
//! passed on, the registries of rooms, users and room histories, and the
//! decisions that the request handlers and the event stream take.
//!
//! Everything here works on plain values. Locks, the channel that carries
//! accepted messages to the listeners, and the encoding of messages belong
//! to the program around this library.

pub mod filter;
pub mod handlers;
pub mod message;
pub mod period;
pub mod registry;
pub mod store;
pub mod stream;
pub mod text;

pub use filter::accept;
pub use handlers::{
    add_user, get_messages, get_rooms, get_users, post, rw_lock_to_json, Reply, Status,
    QUEUE_CAPACITY,
};
pub use message::Message;
pub use period::{check_period, check_repeats};
pub use store::{Rooms, SavedMessages, Users};
pub use stream::{events, Endpoint, Signal, Step};
