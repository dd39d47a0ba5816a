//! The relay channel: the ordered queue between the connection driver (the
//! single producer) and the consumer (the single receiver), with the liveness
//! of each endpoint and ghost logs of everything ever enqueued and consumed.

use vstd::prelude::*;
use crate::event::{events_view, EventView, RawEvent};

verus! {

/// The queue the driver forwards raw events into and the consumer drains.
/// Unbounded: a send never waits; it fails exactly when the receiver is gone.
pub struct RelayChannel {
    buffered: Vec<RawEvent>,
    sender_open: bool,
    receiver_open: bool,
    sent: Ghost<Seq<EventView>>,
    consumed: Ghost<Seq<EventView>>,
}

impl RelayChannel {
    /// The events currently queued, oldest first.
    pub closed spec fn queued(&self) -> Seq<EventView> {
        events_view(self.buffered@)
    }

    /// Whether the producer end is still live.
    pub closed spec fn sender_is_open(&self) -> bool {
        self.sender_open
    }

    /// Whether the consumer end is still live.
    pub closed spec fn receiver_is_open(&self) -> bool {
        self.receiver_open
    }

    /// Every event ever accepted by the channel, in the order it was sent.
    pub closed spec fn sent_log(&self) -> Seq<EventView> {
        self.sent@
    }

    /// Every event the consumer has taken out, in the order it was taken.
    pub closed spec fn consumed_log(&self) -> Seq<EventView> {
        self.consumed@
    }

    /// The channel never reorders: what was sent is what was consumed
    /// followed by what is still queued.
    pub open spec fn wf(&self) -> bool {
        self.sent_log() == self.consumed_log() + self.queued()
    }

    /// A fresh channel with both endpoints live and nothing queued.
    pub fn new() -> (c: RelayChannel)
        ensures
            c.wf(),
            c.queued() == Seq::<EventView>::empty(),
            c.sent_log() == Seq::<EventView>::empty(),
            c.consumed_log() == Seq::<EventView>::empty(),
            c.sender_is_open(),
            c.receiver_is_open(),
    {
        let c = RelayChannel {
            buffered: Vec::new(),
            sender_open: true,
            receiver_open: true,
            sent: Ghost(Seq::empty()),
            consumed: Ghost(Seq::empty()),
        };
        proof {
            assert(c.consumed_log() + c.queued() =~= Seq::<EventView>::empty());
        }
        c
    }

    /// Producer-side send. Succeeds, appending the event to the queue,
    /// exactly when the receiver end is still live; otherwise the channel is
    /// left unchanged and the failure is the producer's signal to stop.
    pub fn send(&mut self, e: RawEvent) -> (ok: bool)
        requires
            old(self).wf(),
            old(self).sender_is_open(),
        ensures
            final(self).wf(),
            final(self).sender_is_open(),
            final(self).receiver_is_open() == old(self).receiver_is_open(),
            final(self).consumed_log() == old(self).consumed_log(),
            ok == old(self).receiver_is_open(),
            ok ==> final(self).queued() == old(self).queued().push(e@)
                && final(self).sent_log() == old(self).sent_log().push(e@),
            !ok ==> final(self).queued() == old(self).queued()
                && final(self).sent_log() == old(self).sent_log(),
    {
        if self.receiver_open {
            self.buffered.push(e);
            self.sent = Ghost(self.sent@.push(e@));
            proof {
                assert(self.queued() =~= old(self).queued().push(e@));
                assert(self.consumed_log() + self.queued() =~= self.sent_log());
            }
            true
        } else {
            false
        }
    }

    /// Consumer-side receive of the oldest queued event, if any. A `None`
    /// with the sender closed means the stream has ended; with the sender
    /// open it only means nothing is queued yet.
    pub fn try_recv(&mut self) -> (r: Option<RawEvent>)
        requires
            old(self).wf(),
        ensures
            final(self).wf(),
            final(self).sender_is_open() == old(self).sender_is_open(),
            final(self).receiver_is_open() == old(self).receiver_is_open(),
            final(self).sent_log() == old(self).sent_log(),
            old(self).queued().len() == 0 ==> r is None
                && final(self).queued() == old(self).queued()
                && final(self).consumed_log() == old(self).consumed_log(),
            old(self).queued().len() > 0 ==> (r matches Some(e)
                && e@ == old(self).queued()[0]
                && final(self).queued() == old(self).queued().skip(1)
                && final(self).consumed_log() == old(self).consumed_log().push(
                old(self).queued()[0],
            )),
    {
        if self.buffered.len() > 0 {
            let e = self.buffered.remove(0);
            self.consumed = Ghost(self.consumed@.push(e@));
            proof {
                assert(self.queued() =~= old(self).queued().skip(1));
                assert(self.consumed_log() + self.queued() =~= self.sent_log());
            }
            Some(e)
        } else {
            None
        }
    }

    /// The producer has exited: no further event will ever be queued.
    pub fn close_sender(&mut self)
        ensures
            final(self).wf() == old(self).wf(),
            !final(self).sender_is_open(),
            final(self).receiver_is_open() == old(self).receiver_is_open(),
            final(self).queued() == old(self).queued(),
            final(self).sent_log() == old(self).sent_log(),
            final(self).consumed_log() == old(self).consumed_log(),
    {
        self.sender_open = false;
    }

    /// The consumer is gone: every later send will fail.
    pub fn close_receiver(&mut self)
        ensures
            final(self).wf() == old(self).wf(),
            final(self).sender_is_open() == old(self).sender_is_open(),
            !final(self).receiver_is_open(),
            final(self).queued() == old(self).queued(),
            final(self).sent_log() == old(self).sent_log(),
            final(self).consumed_log() == old(self).consumed_log(),
    {
        self.receiver_open = false;
    }
}

} // verus!
