//! The life of one listener's connection: which of the things that can
//! happen to it lead to an event for the listener, which are passed over,
//! and which end it.

use crate::message::Message;
use vstd::prelude::*;

verus! {

/// What can happen to a connection while it waits.
#[derive(Debug, PartialEq, Eq)]
pub enum Signal {
    /// A message has come.
    Received(Message),
    /// The listener was too slow and this many messages were dropped for it.
    Lagged(u64),
    /// No message can come any more.
    Closed,
    /// The server is shutting down.
    Shutdown,
    /// The listener has gone.
    Disconnected,
}

/// What the connection does next.
#[derive(Debug, PartialEq, Eq)]
pub enum Step {
    /// Send the message to the listener as one event, then wait again.
    Emit(Message),
    /// Send nothing and wait again.
    Wait,
    /// Stop and give up the place among the listeners.
    End,
}

/// One listener's connection. It is open from the start until something
/// ends it, and it never opens again.
pub struct Endpoint {
    open: bool,
}

/// Whether a connection that is open stays open after `signal`.
pub open spec fn stays_open(signal: Signal) -> bool {
    signal is Received || signal is Lagged
}

/// What a connection does on `signal`, given whether it is open.
pub open spec fn step_on(open: bool, signal: Signal) -> Step {
    if !open {
        Step::End
    } else {
        match signal {
            Signal::Received(message) => Step::Emit(message),
            Signal::Lagged(_) => Step::Wait,
            _ => Step::End,
        }
    }
}

impl Endpoint {
    /// Whether the connection is open.
    pub closed spec fn is_open(&self) -> bool {
        self.open
    }

    /// A connection that has just been opened.
    pub fn new() -> (endpoint: Endpoint)
        ensures
            endpoint.is_open(),
    {
        Endpoint { open: true }
    }

    /// Whether the connection is open.
    pub fn open(&self) -> (open: bool)
        ensures
            open == self.is_open(),
    {
        self.open
    }
}

/// Decides what the connection does on `signal`. A message is sent on, a
/// gap left by dropped messages is passed over in silence, and anything else
/// ends the connection. A connection that has ended stays ended.
pub fn events(endpoint: &mut Endpoint, signal: Signal) -> (step: Step)
    ensures
        step == step_on(old(endpoint).is_open(), signal),
        final(endpoint).is_open() == (old(endpoint).is_open() && stays_open(signal)),
{
    if !endpoint.open {
        return Step::End;
    }
    match signal {
        Signal::Received(message) => Step::Emit(message),
        Signal::Lagged(_) => Step::Wait,
        _ => {
            endpoint.open = false;
            Step::End
        },
    }
}

/// Once a connection has ended, nothing that happens makes it send or wait
/// again.
pub proof fn ended_stays_ended(signal: Signal)
    ensures
        step_on(false, signal) == Step::End,
{
}

} // verus!
