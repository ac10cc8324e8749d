//! What the network thread does with each event it is handed.
//!
//! The thread that owns the listener waits for the next event and passes it
//! to [`handle_event`], which keeps the registry current, feeds the relay and
//! says what is to be sent back. Sending is left to the caller, who reports a
//! failed send with [`ConnectionRegistry::on_send_failed`].

use crate::payload::{payload_bytes, payload_len, IngestPolicy, Message, Rejection};
use crate::registry::ConnectionRegistry;
use crate::relay::{FrameRelay, RelayState};
use vstd::prelude::*;

verus! {

/// The port the listener binds.
pub const LISTEN_PORT: u16 = 8080;

/// Something that happened on the network.
pub enum Event<R> {
    /// Client `.0` has connected and is answered through `.1`.
    Connect(u64, R),
    /// Client `.0` has disconnected.
    Disconnect(u64),
    /// Client `.0` has sent message `.1`.
    Message(u64, Message),
}

/// What became of the payload of a message.
#[derive(Debug, Clone, Copy, PartialEq, Eq, Structural)]
pub enum Disposition {
    /// It was decoded and queued on the relay.
    Forwarded,
    /// It was not a frame and was dropped.
    Dropped(Rejection),
    /// It was a frame, but the render side has gone; the frame was dropped.
    RelayClosed,
}

/// What is left to do after an event was handled.
#[derive(Debug, Clone, PartialEq, Eq)]
pub struct Reaction {
    /// The message to send back unchanged, with the client to send it to.
    pub echo: Option<(u64, Message)>,
    /// For a message event, what became of its payload.
    pub disposition: Option<Disposition>,
}

/// What becomes of the payload of `message` under `policy` when the relay is
/// in state `relay`.
pub open spec fn disposition_of(policy: IngestPolicy, relay: RelayState, message: &Message)
    -> Disposition {
    match policy.rejection(message) {
        Some(reason) => Disposition::Dropped(reason),
        None => if relay.open {
            Disposition::Forwarded
        } else {
            Disposition::RelayClosed
        },
    }
}

/// The relay after `message` was handled: its decoded payload is queued if
/// the policy lets it pass, and nothing changes otherwise.
pub open spec fn relay_after(policy: IngestPolicy, relay: RelayState, message: &Message)
    -> RelayState {
    match message {
        Message::Text(text) => if policy.rejection(message) is None {
            relay.send(payload_bytes(text@))
        } else {
            relay
        },
        Message::Binary(_) => relay,
    }
}

/// Handles one network event.
///
/// A connect registers the client, a disconnect removes it. A message is owed
/// back to its sender, unchanged, if the sender is registered; and its payload
/// goes to the relay if it is a frame.
pub fn handle_event<R>(
    registry: &mut ConnectionRegistry<R>,
    relay: &mut FrameRelay,
    policy: &IngestPolicy,
    event: Event<R>,
) -> (reaction: Reaction)
    ensures
        match event {
            Event::Connect(id, responder) => {
                &&& final(registry)@ == old(registry)@.insert(id, responder)
                &&& final(relay)@ == old(relay)@
                &&& reaction.echo is None
                &&& reaction.disposition is None
            },
            Event::Disconnect(id) => {
                &&& final(registry)@ == old(registry)@.remove(id)
                &&& final(relay)@ == old(relay)@
                &&& reaction.echo is None
                &&& reaction.disposition is None
            },
            Event::Message(id, message) => {
                &&& final(registry)@ == old(registry)@
                &&& final(relay)@ == relay_after(*policy, old(relay)@, &message)
                &&& reaction.disposition == Some(disposition_of(*policy, old(relay)@, &message))
                &&& reaction.echo == if old(registry)@.contains_key(id) {
                    Some((id, message))
                } else {
                    None
                }
            },
        },
{
    match event {
        Event::Connect(id, responder) => {
            registry.on_connect(id, responder);
            Reaction { echo: None, disposition: None }
        },
        Event::Disconnect(id) => {
            registry.on_disconnect(id);
            Reaction { echo: None, disposition: None }
        },
        Event::Message(id, message) => {
            let disposition = match policy.ingest(&message) {
                Ok(frame) => match relay.send(frame) {
                    Ok(()) => Disposition::Forwarded,
                    Err(_) => Disposition::RelayClosed,
                },
                Err(reason) => Disposition::Dropped(reason),
            };
            let owed = registry.on_message(id, &message).is_some();
            let echo = if owed {
                Some((id, message))
            } else {
                None
            };
            Reaction { echo, disposition: Some(disposition) }
        },
    }
}

/// A message that is no frame leaves the relay as it was.
pub proof fn lemma_rejected_leaves_relay(policy: IngestPolicy, relay: RelayState, message: Message)
    requires
        policy.rejection(&message) is Some,
    ensures
        relay_after(policy, relay, &message) == relay,
{
}

/// A payload no longer than the policy's minimum never reaches the relay.
pub proof fn lemma_undersized_not_forwarded(
    policy: IngestPolicy,
    relay: RelayState,
    message: Message,
)
    requires
        message matches Message::Text(text) && payload_len(text@) <= policy.min_len,
    ensures
        relay_after(policy, relay, &message) == relay,
        disposition_of(policy, relay, &message) is Dropped,
{
}

/// A closed relay stays as it is whatever is received.
pub proof fn lemma_closed_relay_unchanged(
    policy: IngestPolicy,
    relay: RelayState,
    message: Message,
)
    requires
        !relay.open,
    ensures
        relay_after(policy, relay, &message) == relay,
{
}

} // verus!
