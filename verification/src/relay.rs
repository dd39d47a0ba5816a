//! The relay's consumer side: stream-mode filtering of raw events down to
//! notifications, callback-mode delivery of every raw event to a sink, and
//! the ordering and filtering laws both obey.

use vstd::prelude::*;
use crate::channel::RelayChannel;
use crate::event::{EventView, Notification, NotificationView, RawEvent};
use crate::subscription::{passes_filter, SubscriptionSet};

verus! {

/// Stream-mode selection of one event: a notification survives exactly when
/// its channel passes the subscription filter; notices and unrecognized
/// events are always dropped.
pub open spec fn stream_select_spec(channels: Seq<Seq<char>>, e: EventView) -> Option<
    NotificationView,
> {
    match e {
        EventView::Notification(n) => if passes_filter(channels, n.channel) {
            Some(n)
        } else {
            None
        },
        _ => None,
    }
}

/// The stream-mode output for a sequence of raw events: the selected
/// notifications, in the order the events were observed. Filtering only ever
/// drops; it never reorders.
pub open spec fn relayed(channels: Seq<Seq<char>>, events: Seq<EventView>) -> Seq<
    NotificationView,
>
    decreases events.len(),
{
    if events.len() == 0 {
        Seq::<NotificationView>::empty()
    } else {
        match stream_select_spec(channels, events[0]) {
            Some(n) => seq![n] + relayed(channels, events.skip(1)),
            None => relayed(channels, events.skip(1)),
        }
    }
}

/// Stream-mode filtering of one raw event against a subscription set.
pub fn stream_select(subs: &SubscriptionSet, e: RawEvent) -> (r: Option<Notification>)
    ensures
        r matches Some(n) ==> stream_select_spec(subs@, e@) == Some(n@),
        r is None ==> stream_select_spec(subs@, e@) is None,
{
    match e {
        RawEvent::Notification(n) => {
            if subs.passes(&n.channel) {
                Some(n)
            } else {
                None
            }
        },
        _ => None,
    }
}

/// Stream-mode consumer: a single-pass sequence of the notifications that
/// pass the subscription filter, in arrival order.
///
/// Construction consumes the receiving end of the relay channel, so at most
/// one consumer can ever drain a given channel; the stream itself is
/// move-only. Events it drops are gone: the sequence is not restartable.
pub struct EventStream {
    chan: RelayChannel,
    subs: SubscriptionSet,
}

impl EventStream {
    /// The subscription set this stream filters by.
    pub closed spec fn subs_view(&self) -> Seq<Seq<char>> {
        self.subs@
    }

    /// A stream is well-formed once the driver has exited: the channel keeps
    /// its order discipline and no further event can arrive.
    pub closed spec fn wf(&self) -> bool {
        self.chan.wf() && !self.chan.sender_is_open()
    }

    /// The notifications still to be yielded, in order.
    pub closed spec fn pending(&self) -> Seq<NotificationView> {
        relayed(self.subs@, self.chan.queued())
    }

    /// Takes ownership of the channel's receiving end. The driver must have
    /// exited (its sender closed), so the stream's remaining output is
    /// already determined.
    pub fn new(chan: RelayChannel, subs: SubscriptionSet) -> (s: EventStream)
        requires
            chan.wf(),
            !chan.sender_is_open(),
        ensures
            s.wf(),
            s.subs_view() == subs@,
            s.pending() == relayed(subs@, chan.queued()),
    {
        EventStream { chan, subs }
    }

    /// The next notification that passes the filter, or `None` exactly when
    /// the stream has ended: every remaining queued event is dropped by the
    /// filter or the queue is empty.
    pub fn next(&mut self) -> (r: Option<Notification>)
        requires
            old(self).wf(),
        ensures
            final(self).wf(),
            final(self).subs_view() == old(self).subs_view(),
            old(self).pending().len() == 0 ==> r is None && final(self).pending().len() == 0,
            old(self).pending().len() > 0 ==> (r matches Some(n)
                && n@ == old(self).pending()[0]
                && final(self).pending() == old(self).pending().skip(1)),
    {
        loop
            invariant
                self.chan.wf(),
                !self.chan.sender_is_open(),
                self.subs == old(self).subs,
                relayed(self.subs@, self.chan.queued()) == old(self).pending(),
            decreases self.chan.queued().len(),
        {
            let ghost pre_queued = self.chan.queued();
            match self.chan.try_recv() {
                None => {
                    return None;
                },
                Some(e) => {
                    proof {
                        assert(pre_queued[0] == e@);
                    }
                    match stream_select(&self.subs, e) {
                        Some(n) => {
                            proof {
                                assert(relayed(self.subs@, pre_queued) == seq![n@] + relayed(
                                    self.subs@,
                                    self.chan.queued(),
                                ));
                                assert((seq![n@] + relayed(self.subs@, self.chan.queued()))[0]
                                    == n@);
                                assert((seq![n@] + relayed(self.subs@, self.chan.queued())).skip(1)
                                    =~= relayed(self.subs@, self.chan.queued()));
                            }
                            return Some(n);
                        },
                        None => {},
                    }
                },
            }
        }
    }
}

/// A sink: the one-method capability callback mode hands each delivered raw
/// event to, notices included, in order.
pub trait EventSink {
    /// Every event this sink has accepted so far, in order.
    spec fn observed(&self) -> Seq<EventView>;

    /// Accepts one raw event.
    fn accept(&mut self, e: RawEvent)
        ensures
            final(self).observed() == old(self).observed().push(e@),
    ;
}

/// A sink that records every event it is handed.
pub struct CollectingSink {
    pub events: Vec<RawEvent>,
}

impl CollectingSink {
    pub fn new() -> (s: CollectingSink)
        ensures
            s.observed() == Seq::<EventView>::empty(),
    {
        let s = CollectingSink { events: Vec::new() };
        proof {
            assert(s.observed() =~= Seq::<EventView>::empty());
        }
        s
    }

    /// The recorded events, in the order they were accepted.
    pub fn events(&self) -> (r: &Vec<RawEvent>)
        ensures
            crate::event::events_view(r@) == self.observed(),
    {
        &self.events
    }
}

impl EventSink for CollectingSink {
    open spec fn observed(&self) -> Seq<EventView> {
        crate::event::events_view(self.events@)
    }

    fn accept(&mut self, e: RawEvent) {
        self.events.push(e);
        proof {
            assert(self.observed() =~= old(self).observed().push(e@));
        }
    }
}

/// Callback-mode delivery: drains the relay channel, handing every raw event
/// — notices and unrecognized events included — to the sink, in arrival
/// order, with no filtering. Runs once the driver has exited.
pub fn run_callback_mode<S: EventSink>(chan: &mut RelayChannel, sink: &mut S)
    requires
        old(chan).wf(),
        !old(chan).sender_is_open(),
    ensures
        final(chan).wf(),
        !final(chan).sender_is_open(),
        final(chan).queued().len() == 0,
        final(sink).observed() == old(sink).observed() + old(chan).queued(),
{
    loop
        invariant
            chan.wf(),
            !chan.sender_is_open(),
            sink.observed() + chan.queued() == old(sink).observed() + old(chan).queued(),
        decreases chan.queued().len(),
    {
        let ghost pre_queued = chan.queued();
        let ghost pre_observed = sink.observed();
        match chan.try_recv() {
            None => {
                proof {
                    assert(sink.observed() + chan.queued() =~= sink.observed());
                }
                return ;
            },
            Some(e) => {
                sink.accept(e);
                proof {
                    assert(sink.observed() + chan.queued() =~= pre_observed + pre_queued);
                }
            },
        }
    }
}

/// Order preservation: relaying one batch of events after another yields the
/// first batch's output followed by the second's. Events fed through the
/// relay in order come out in the same order; filtering only drops.
pub proof fn lemma_relay_order_preserved(
    channels: Seq<Seq<char>>,
    s1: Seq<EventView>,
    s2: Seq<EventView>,
)
    ensures
        relayed(channels, s1 + s2) == relayed(channels, s1) + relayed(channels, s2),
    decreases s1.len(),
{
    if s1.len() == 0 {
        assert(s1 + s2 =~= s2);
        assert(relayed(channels, s1) + relayed(channels, s2) =~= relayed(channels, s2));
    } else {
        assert((s1 + s2)[0] == s1[0]);
        assert((s1 + s2).skip(1) =~= s1.skip(1) + s2);
        lemma_relay_order_preserved(channels, s1.skip(1), s2);
        match stream_select_spec(channels, s1[0]) {
            Some(n) => {
                assert(seq![n] + (relayed(channels, s1.skip(1)) + relayed(channels, s2)) =~= (
                seq![n] + relayed(channels, s1.skip(1))) + relayed(channels, s2));
            },
            None => {},
        }
    }
}

/// An event the filter drops — a notice, an unrecognized event, or a
/// notification whose channel is outside a non-empty subscription set —
/// contributes nothing to stream-mode output.
pub proof fn lemma_dropped_event_absent(
    channels: Seq<Seq<char>>,
    events: Seq<EventView>,
    e: EventView,
)
    requires
        stream_select_spec(channels, e) is None,
    ensures
        relayed(channels, events.push(e)) == relayed(channels, events),
{
    assert(events.push(e) =~= events + seq![e]);
    lemma_relay_order_preserved(channels, events, seq![e]);
    lemma_relayed_singleton(channels, e);
    assert(relayed(channels, events) + Seq::<NotificationView>::empty() =~= relayed(
        channels,
        events,
    ));
}

proof fn lemma_relayed_singleton(channels: Seq<Seq<char>>, e: EventView)
    ensures
        stream_select_spec(channels, e) matches Some(n) ==> relayed(channels, seq![e])
            == seq![n],
        stream_select_spec(channels, e) is None ==> relayed(channels, seq![e])
            == Seq::<NotificationView>::empty(),
{
    assert(seq![e][0] == e);
    assert(seq![e].skip(1) =~= Seq::<EventView>::empty());
    assert(relayed(channels, Seq::<EventView>::empty()) == Seq::<NotificationView>::empty());
    match stream_select_spec(channels, e) {
        Some(n) => {
            assert(seq![n] + Seq::<NotificationView>::empty() =~= seq![n]);
        },
        None => {},
    }
}

/// An event the filter keeps — a notification whose channel passes the
/// subscription filter — is delivered, after everything selected before it.
pub proof fn lemma_selected_event_delivered(
    channels: Seq<Seq<char>>,
    events: Seq<EventView>,
    e: EventView,
    n: NotificationView,
)
    requires
        stream_select_spec(channels, e) == Some(n),
    ensures
        relayed(channels, events.push(e)) == relayed(channels, events).push(n),
{
    assert(events.push(e) =~= events + seq![e]);
    lemma_relay_order_preserved(channels, events, seq![e]);
    lemma_relayed_singleton(channels, e);
    assert(relayed(channels, events) + seq![n] =~= relayed(channels, events).push(n));
}

/// Stream-mode output is sound: everything it holds is a notification that
/// was observed among the input events and whose channel passes the filter.
/// In particular no notice ever appears in stream-mode output.
pub proof fn lemma_stream_output_sound(channels: Seq<Seq<char>>, events: Seq<EventView>)
    ensures
        forall|n: NotificationView| #[trigger]
            relayed(channels, events).contains(n) ==> events.contains(
                EventView::Notification(n),
            ) && passes_filter(channels, n.channel),
    decreases events.len(),
{
    if events.len() == 0 {
    } else {
        lemma_stream_output_sound(channels, events.skip(1));
        assert forall|n: NotificationView| #[trigger]
            relayed(channels, events).contains(n) implies events.contains(
            EventView::Notification(n),
        ) && passes_filter(channels, n.channel) by {
            match stream_select_spec(channels, events[0]) {
                Some(m) => {
                    if n == m {
                        assert(events[0] == EventView::Notification(n));
                        assert(events.contains(EventView::Notification(n)));
                    } else {
                        let j = choose|j: int|
                            0 <= j < relayed(channels, events).len() && relayed(
                                channels,
                                events,
                            )[j] == n;
                        assert(relayed(channels, events)[j] == (seq![m] + relayed(
                            channels,
                            events.skip(1),
                        ))[j]);
                        assert(relayed(channels, events.skip(1))[j - 1] == n);
                        assert(relayed(channels, events.skip(1)).contains(n));
                        lemma_contains_via_skip1(events, EventView::Notification(n));
                    }
                },
                None => {
                    assert(relayed(channels, events.skip(1)).contains(n));
                    lemma_contains_via_skip1(events, EventView::Notification(n));
                },
            }
        }
    }
}

/// Stream-mode output is complete: every observed notification whose channel
/// passes the filter — and with an empty subscription set, every
/// notification — is delivered.
pub proof fn lemma_passing_notifications_delivered(
    channels: Seq<Seq<char>>,
    events: Seq<EventView>,
)
    ensures
        forall|i: int|
            0 <= i < events.len() && #[trigger] events[i] is Notification && passes_filter(
                channels,
                events[i]->Notification_0.channel,
            ) ==> relayed(channels, events).contains(events[i]->Notification_0),
    decreases events.len(),
{
    if events.len() == 0 {
    } else {
        lemma_passing_notifications_delivered(channels, events.skip(1));
        assert forall|i: int|
            0 <= i < events.len() && #[trigger] events[i] is Notification && passes_filter(
                channels,
                events[i]->Notification_0.channel,
            ) implies relayed(channels, events).contains(events[i]->Notification_0) by {
            let n = events[i]->Notification_0;
            if i == 0 {
                assert(stream_select_spec(channels, events[0]) == Some(n));
                assert(relayed(channels, events)[0] == n);
                assert(relayed(channels, events).contains(n));
            } else {
                assert(events.skip(1)[i - 1] == events[i]);
                assert(relayed(channels, events.skip(1)).contains(n));
                let j = choose|j: int|
                    0 <= j < relayed(channels, events.skip(1)).len() && relayed(
                        channels,
                        events.skip(1),
                    )[j] == n;
                match stream_select_spec(channels, events[0]) {
                    Some(m) => {
                        assert(relayed(channels, events)[j + 1] == n);
                        assert(relayed(channels, events).contains(n));
                    },
                    None => {
                        assert(relayed(channels, events)[j] == n);
                        assert(relayed(channels, events).contains(n));
                    },
                }
            }
        }
    }
}

proof fn lemma_contains_via_skip1<A>(s: Seq<A>, x: A)
    requires
        s.len() > 0,
        s.skip(1).contains(x),
    ensures
        s.contains(x),
{
    let i = choose|i: int| 0 <= i < s.skip(1).len() && s.skip(1)[i] == x;
    assert(s[i + 1] == x);
}

} // verus!
