//! The clients that are connected, each with its way to be answered.
//!
//! The registry belongs to the one thread that drains network events. It is
//! used to acknowledge a message to its sender and for nothing else; frames
//! do not pass through it.

use crate::payload::Message;
use std::collections::HashMap;
use vstd::prelude::*;

verus! {

broadcast use vstd::std_specs::hash::group_hash_axioms;

/// Connected clients by id. `R` is the reply capability of one client: the
/// handle that sends a message back to that client and to no other.
pub struct ConnectionRegistry<R> {
    clients: HashMap<u64, R>,
}

/// A message on its way back to the client that sent it.
pub struct Echo<'a, R> {
    /// The client to answer.
    pub client_id: u64,
    /// That client's reply capability.
    pub responder: &'a R,
    /// The message to send back, as it was received.
    pub message: &'a Message,
}

/// Whom a message from `id` is echoed to: the responder registered under
/// `id`, if any.
pub open spec fn echo_target<R>(clients: Map<u64, R>, id: u64) -> Option<R> {
    if clients.contains_key(id) {
        Some(clients[id])
    } else {
        None
    }
}

impl<R> View for ConnectionRegistry<R> {
    type V = Map<u64, R>;

    closed spec fn view(&self) -> Map<u64, R> {
        self.clients@
    }
}

impl<R> ConnectionRegistry<R> {
    /// A registry without clients.
    pub fn new() -> (registry: Self)
        ensures
            registry@ == Map::<u64, R>::empty(),
    {
        ConnectionRegistry { clients: HashMap::new() }
    }

    /// Registers client `id` with its reply capability. A client already
    /// registered under `id` is replaced.
    pub fn on_connect(&mut self, id: u64, responder: R)
        ensures
            final(self)@ == old(self)@.insert(id, responder),
    {
        self.clients.insert(id, responder);
    }

    /// Removes client `id`; its reply capability is dropped. Does nothing if
    /// no such client is registered.
    pub fn on_disconnect(&mut self, id: u64)
        ensures
            final(self)@ == old(self)@.remove(id),
    {
        self.clients.remove(&id);
    }

    /// Removes client `id` after a send to it has failed: a peer that cannot
    /// be reached is treated as gone.
    pub fn on_send_failed(&mut self, id: u64)
        ensures
            final(self)@ == old(self)@.remove(id),
    {
        self.on_disconnect(id);
    }

    /// The echo owed for `message` from client `id`: the same message, to the
    /// responder registered under `id`. There is none if `id` is not
    /// registered.
    pub fn on_message<'a>(&'a self, id: u64, message: &'a Message) -> (echo: Option<Echo<'a, R>>)
        ensures
            match echo {
                Some(e) => {
                    &&& echo_target(self@, id) == Some(*e.responder)
                    &&& e.client_id == id
                    &&& e.message == message
                },
                None => echo_target(self@, id) is None,
            },
    {
        match self.clients.get(&id) {
            Some(responder) => Some(Echo { client_id: id, responder, message }),
            None => None,
        }
    }

    /// The reply capability of client `id`, if it is registered.
    pub fn responder(&self, id: u64) -> (responder: Option<&R>)
        ensures
            match responder {
                Some(r) => echo_target(self@, id) == Some(*r),
                None => echo_target(self@, id) is None,
            },
    {
        self.clients.get(&id)
    }

    /// Whether client `id` is registered.
    pub fn is_connected(&self, id: u64) -> (connected: bool)
        ensures
            connected == self@.contains_key(id),
    {
        self.clients.contains_key(&id)
    }

    /// Number of registered clients.
    pub fn len(&self) -> (n: usize)
        ensures
            n == self@.len(),
    {
        self.clients.len()
    }
}

/// A client that has connected is echoed to through the responder it
/// connected with, and other clients are echoed to as before.
pub proof fn lemma_connected_is_echoed<R>(clients: Map<u64, R>, id: u64, responder: R, other: u64)
    ensures
        echo_target(clients.insert(id, responder), id) == Some(responder),
        other != id ==> echo_target(clients.insert(id, responder), other) == echo_target(
            clients,
            other,
        ),
{
}

/// After a client has disconnected there is nobody to echo its messages to,
/// and other clients are echoed to as before.
pub proof fn lemma_disconnected_is_not_echoed<R>(clients: Map<u64, R>, id: u64, other: u64)
    ensures
        echo_target(clients.remove(id), id) is None,
        other != id ==> echo_target(clients.remove(id), other) == echo_target(clients, other),
{
}

} // verus!
