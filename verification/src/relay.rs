//! The queue that carries frames from the network side to the render side.
//!
//! One producer sends, one consumer receives. The relay never holds a frame
//! back and never makes one up: what comes out is what went in, in the order
//! it went in. It has no capacity limit. Once the consumer is gone the relay is
//! closed and refuses further frames.
//!
//! The relay itself never waits. A consumer that has to block until a frame
//! arrives does its waiting outside and calls [`FrameRelay::recv`] once
//! [`FrameRelay::is_empty`] is false.

use crate::frame::Frame;
use std::collections::VecDeque;
use vstd::prelude::*;

verus! {

/// Returned by a send after the consumer has gone. The producer may ignore it:
/// with nobody left to show a frame to, losing it does no harm.
#[derive(Debug, Clone, Copy, PartialEq, Eq, Structural)]
pub struct ChannelClosed;

/// What a relay holds: the frames sent and not yet received, oldest first,
/// and whether the consumer still exists.
pub struct RelayState {
    pub pending: Seq<Seq<u8>>,
    pub open: bool,
}

/// One thing done to a relay.
pub enum RelayOp {
    /// The producer sends a frame.
    Send(Seq<u8>),
    /// The consumer takes a frame, if there is one.
    Recv,
    /// The consumer goes away.
    Close,
}

impl RelayState {
    /// A fresh relay: nothing pending, consumer present.
    pub open spec fn empty() -> RelayState {
        RelayState { pending: Seq::empty(), open: true }
    }

    /// A closed relay holds nothing.
    pub open spec fn wf(self) -> bool {
        !self.open ==> self.pending.len() == 0
    }

    /// The relay after `frame` was sent: appended if open, unchanged if closed.
    pub open spec fn send(self, frame: Seq<u8>) -> RelayState {
        if self.open {
            RelayState { pending: self.pending.push(frame), open: true }
        } else {
            self
        }
    }

    /// The frame that the next receive hands out.
    pub open spec fn next(self) -> Option<Seq<u8>> {
        if self.pending.len() > 0 {
            Some(self.pending[0])
        } else {
            None
        }
    }

    /// The relay after one receive: the oldest frame is gone, if there was one.
    pub open spec fn recv(self) -> RelayState {
        if self.pending.len() > 0 {
            RelayState { pending: self.pending.drop_first(), open: self.open }
        } else {
            self
        }
    }

    /// The relay after the consumer has gone: closed, pending frames dropped.
    pub open spec fn close(self) -> RelayState {
        RelayState { pending: Seq::empty(), open: false }
    }

    /// The relay after `frames` were sent one after the other.
    pub open spec fn send_all(self, frames: Seq<Seq<u8>>) -> RelayState
        decreases frames.len(),
    {
        if frames.len() == 0 {
            self
        } else {
            self.send_all(frames.drop_last()).send(frames.last())
        }
    }

    /// The frames that up to `n` receives hand out, in the order they come.
    pub open spec fn recv_many(self, n: nat) -> Seq<Seq<u8>>
        decreases n,
    {
        if n == 0 || self.pending.len() == 0 {
            Seq::empty()
        } else {
            seq![self.pending[0]] + self.recv().recv_many((n - 1) as nat)
        }
    }

    /// The relay after `ops` were applied in order.
    pub open spec fn run(self, ops: Seq<RelayOp>) -> RelayState
        decreases ops.len(),
    {
        if ops.len() == 0 {
            self
        } else {
            let before = self.run(ops.drop_last());
            match ops.last() {
                RelayOp::Send(frame) => before.send(frame),
                RelayOp::Recv => before.recv(),
                RelayOp::Close => before.close(),
            }
        }
    }

    /// The frames that the receives among `ops` hand out, in order.
    pub open spec fn received(self, ops: Seq<RelayOp>) -> Seq<Seq<u8>>
        decreases ops.len(),
    {
        if ops.len() == 0 {
            Seq::empty()
        } else {
            let before = self.run(ops.drop_last());
            let earlier = self.received(ops.drop_last());
            match ops.last() {
                RelayOp::Recv => match before.next() {
                    Some(frame) => earlier.push(frame),
                    None => earlier,
                },
                _ => earlier,
            }
        }
    }
}

/// The frames that the sends among `ops` hand in, in order.
pub open spec fn sent(ops: Seq<RelayOp>) -> Seq<Seq<u8>>
    decreases ops.len(),
{
    if ops.len() == 0 {
        Seq::empty()
    } else {
        match ops.last() {
            RelayOp::Send(frame) => sent(ops.drop_last()).push(frame),
            _ => sent(ops.drop_last()),
        }
    }
}

/// The producer's end and the consumer's end of the frame queue in one value.
pub struct FrameRelay {
    queue: VecDeque<Frame>,
    open: bool,
}

impl View for FrameRelay {
    type V = RelayState;

    closed spec fn view(&self) -> RelayState {
        RelayState { pending: self.queue@.map_values(|f: Frame| f@), open: self.open }
    }
}

impl FrameRelay {
    /// A fresh relay: nothing pending, consumer present.
    pub fn new() -> (relay: FrameRelay)
        ensures
            relay@ == RelayState::empty(),
    {
        let relay = FrameRelay { queue: VecDeque::new(), open: true };
        assert(relay@.pending =~= Seq::empty());
        relay
    }

    /// Queues `frame` behind those already pending. Fails, and leaves the
    /// relay as it was, exactly when the consumer has gone.
    pub fn send(&mut self, frame: Frame) -> (r: Result<(), ChannelClosed>)
        ensures
            final(self)@ == old(self)@.send(frame@),
            r is Ok <==> old(self)@.open,
    {
        if self.open {
            self.queue.push_back(frame);
            assert(self@.pending =~= old(self)@.pending.push(frame@));
            Ok(())
        } else {
            Err(ChannelClosed)
        }
    }

    /// Takes the oldest pending frame, or returns `None` if nothing is
    /// pending.
    pub fn try_recv(&mut self) -> (r: Option<Frame>)
        ensures
            final(self)@ == old(self)@.recv(),
            match r {
                Some(frame) => old(self)@.next() == Some(frame@),
                None => old(self)@.next() is None,
            },
    {
        let r = self.queue.pop_front();
        proof {
            if r is Some {
                assert(self@.pending =~= old(self)@.pending.drop_first());
            }
        }
        r
    }

    /// Takes the oldest pending frame. A consumer that must wait for a frame
    /// waits until the relay is not empty and then calls this.
    pub fn recv(&mut self) -> (frame: Frame)
        requires
            old(self)@.pending.len() > 0,
        ensures
            frame@ == old(self)@.pending[0],
            final(self)@ == old(self)@.recv(),
    {
        self.try_recv().unwrap()
    }

    /// Records that the consumer has gone. Frames still pending are dropped.
    pub fn close(&mut self)
        ensures
            final(self)@ == old(self)@.close(),
    {
        self.queue.clear();
        self.open = false;
        assert(self@.pending =~= Seq::empty());
    }

    /// Whether the consumer still exists.
    pub fn is_open(&self) -> (open: bool)
        ensures
            open == self@.open,
    {
        self.open
    }

    /// Number of frames sent and not yet received.
    pub fn len(&self) -> (n: usize)
        ensures
            n == self@.pending.len(),
    {
        self.queue.len()
    }

    /// Whether no frame is pending.
    pub fn is_empty(&self) -> (empty: bool)
        ensures
            empty == (self@.pending.len() == 0),
    {
        self.queue.len() == 0
    }
}

/// Sending to an open relay puts the frames behind those pending, in the
/// order they were sent.
pub proof fn lemma_send_all_appends(relay: RelayState, frames: Seq<Seq<u8>>)
    requires
        relay.open,
    ensures
        relay.send_all(frames) == (RelayState { pending: relay.pending + frames, open: true }),
    decreases frames.len(),
{
    if frames.len() == 0 {
        assert(relay.pending + frames =~= relay.pending);
    } else {
        lemma_send_all_appends(relay, frames.drop_last());
        assert((relay.pending + frames.drop_last()).push(frames.last()) =~= relay.pending
            + frames);
    }
}

/// Receiving hands out the pending frames from the oldest on.
pub proof fn lemma_recv_many_takes_prefix(relay: RelayState, n: nat)
    ensures
        relay.recv_many(n) == relay.pending.take(
            if n <= relay.pending.len() {
                n as int
            } else {
                relay.pending.len() as int
            },
        ),
    decreases n,
{
    let k: int = if n <= relay.pending.len() {
        n as int
    } else {
        relay.pending.len() as int
    };
    if n == 0 || relay.pending.len() == 0 {
        assert(relay.pending.take(k) =~= Seq::empty());
    } else {
        lemma_recv_many_takes_prefix(relay.recv(), (n - 1) as nat);
        assert(seq![relay.pending[0]] + relay.pending.drop_first().take(k - 1)
            =~= relay.pending.take(k));
    }
}

/// First in, first out: frames sent to a fresh relay are received in the
/// order they were sent, each one once.
pub proof fn lemma_fifo(frames: Seq<Seq<u8>>)
    ensures
        RelayState::empty().send_all(frames).recv_many(frames.len()) == frames,
{
    let fresh = RelayState::empty();
    lemma_send_all_appends(fresh, frames);
    lemma_recv_many_takes_prefix(fresh.send_all(frames), frames.len());
    assert(fresh.pending + frames =~= frames);
    assert(frames.take(frames.len() as int) =~= frames);
}

/// However sends, receives and the consumer's going away are interleaved on a
/// fresh relay: what was received, followed by what is pending, is the start
/// of what was sent, in the same order and without repeats; while the consumer
/// exists it is all of what was sent; and a closed relay holds nothing.
pub proof fn lemma_order_kept(ops: Seq<RelayOp>)
    ensures
        ({
            let fresh = RelayState::empty();
            let now = fresh.run(ops);
            &&& now.wf()
            &&& (fresh.received(ops) + now.pending).is_prefix_of(sent(ops))
            &&& now.open ==> fresh.received(ops) + now.pending == sent(ops)
        }),
    decreases ops.len(),
{
    let fresh = RelayState::empty();
    let now = fresh.run(ops);
    if ops.len() == 0 {
        assert(fresh.received(ops) + now.pending =~= sent(ops));
    } else {
        let earlier = ops.drop_last();
        lemma_order_kept(earlier);
        let before = fresh.run(earlier);
        let got = fresh.received(earlier);
        match ops.last() {
            RelayOp::Send(frame) => {
                if before.open {
                    assert(got + before.pending.push(frame) =~= (got + before.pending).push(
                        frame,
                    ));
                } else {
                    assert(got + now.pending =~= sent(earlier).subrange(
                        0,
                        (got + now.pending).len() as int,
                    ));
                    assert(sent(earlier) =~= sent(ops).subrange(0, sent(earlier).len() as int));
                    assert(got + now.pending =~= sent(ops).subrange(
                        0,
                        (got + now.pending).len() as int,
                    ));
                }
            },
            RelayOp::Recv => {
                if before.pending.len() > 0 {
                    assert(got.push(before.pending[0]) + before.pending.drop_first() =~= got
                        + before.pending);
                }
            },
            RelayOp::Close => {
                assert(got + now.pending =~= got);
                assert(got =~= (got + before.pending).subrange(0, got.len() as int));
                assert(got =~= sent(ops).subrange(0, got.len() as int));
            },
        }
    }
}

} // verus!
