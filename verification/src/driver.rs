//! The connection driver's decision rules: what one poll outcome makes the
//! driver do, and how a whole run of outcomes is forwarded into the relay
//! channel until close, fatal error, or loss of the consumer.
//!
//! The polling itself is I/O and lives with the caller; the caller's loop
//! polls, hands each outcome to [`driver_step`], performs the returned
//! action, and stops when told to. [`drive`] runs the same decisions over a
//! whole sequence of outcomes against a [`RelayChannel`].

use vstd::prelude::*;
use crate::channel::RelayChannel;
use crate::event::{EventView, RawEvent};

verus! {

/// What one poll of the connection produced: an event, a fatal protocol
/// error, or a clean end of stream.
#[derive(Debug, Clone, PartialEq, Eq)]
pub enum PollOutcome {
    Event(RawEvent),
    PollError(String),
    Closed,
}

/// Mathematical model of a [`PollOutcome`].
#[verifier::ext_equal]
pub enum PollOutcomeView {
    Event(EventView),
    PollError(Seq<char>),
    Closed,
}

impl View for PollOutcome {
    type V = PollOutcomeView;

    open spec fn view(&self) -> PollOutcomeView {
        match self {
            PollOutcome::Event(e) => PollOutcomeView::Event(e@),
            PollOutcome::PollError(m) => PollOutcomeView::PollError(m@),
            PollOutcome::Closed => PollOutcomeView::Closed,
        }
    }
}

/// The models of a sequence of poll outcomes, in order.
pub open spec fn outcomes_view(s: Seq<PollOutcome>) -> Seq<PollOutcomeView> {
    s.map_values(|o: PollOutcome| o@)
}

/// Why the driver stopped: the connection closed cleanly, polling hit a
/// fatal protocol error, or the consumer end of the relay was dropped.
#[derive(Debug, Clone, PartialEq, Eq)]
pub enum Termination {
    CleanClose,
    ProtocolError(String),
    ConsumerGone,
}

/// Mathematical model of a [`Termination`].
#[verifier::ext_equal]
pub enum TerminationView {
    CleanClose,
    ProtocolError(Seq<char>),
    ConsumerGone,
}

impl View for Termination {
    type V = TerminationView;

    open spec fn view(&self) -> TerminationView {
        match self {
            Termination::CleanClose => TerminationView::CleanClose,
            Termination::ProtocolError(m) => TerminationView::ProtocolError(m@),
            Termination::ConsumerGone => TerminationView::ConsumerGone,
        }
    }
}

/// The driver's decision for one poll outcome: forward the event, or stop
/// for the given reason. Polling is never resumed after an error: protocol
/// connections are not self-healing at this layer.
#[derive(Debug, Clone, PartialEq, Eq)]
pub enum DriverStep {
    Forward(RawEvent),
    Terminate(Termination),
}

/// Decides what the driver does with one poll outcome: an event is
/// forwarded; a poll error is fatal and reported; a closed connection is a
/// clean stop.
pub fn driver_step(outcome: PollOutcome) -> (r: DriverStep)
    ensures
        outcome matches PollOutcome::Event(e) ==> r == DriverStep::Forward(e),
        outcome matches PollOutcome::PollError(m) ==> r == DriverStep::Terminate(
            Termination::ProtocolError(m),
        ),
        outcome is Closed ==> r == DriverStep::Terminate(Termination::CleanClose),
{
    match outcome {
        PollOutcome::Event(e) => DriverStep::Forward(e),
        PollOutcome::PollError(m) => DriverStep::Terminate(Termination::ProtocolError(m)),
        PollOutcome::Closed => DriverStep::Terminate(Termination::CleanClose),
    }
}

/// The events a driver run forwards into the relay: every event observed, in
/// order, up to the first error or close — or nothing past the point where
/// the consumer is gone.
pub open spec fn forwarded_prefix(outs: Seq<PollOutcomeView>, receiver_open: bool) -> Seq<
    EventView,
>
    decreases outs.len(),
{
    if outs.len() == 0 {
        Seq::<EventView>::empty()
    } else {
        match outs[0] {
            PollOutcomeView::Event(e) => if receiver_open {
                seq![e] + forwarded_prefix(outs.skip(1), true)
            } else {
                Seq::<EventView>::empty()
            },
            _ => Seq::<EventView>::empty(),
        }
    }
}

/// Why a driver run over the given outcomes stops: the first error or close
/// decides, a send with the consumer gone stops it early, and running out of
/// outcomes counts as the connection ending cleanly.
pub open spec fn drive_termination(outs: Seq<PollOutcomeView>, receiver_open: bool) -> TerminationView
    decreases outs.len(),
{
    if outs.len() == 0 {
        TerminationView::CleanClose
    } else {
        match outs[0] {
            PollOutcomeView::Event(e) => if receiver_open {
                drive_termination(outs.skip(1), true)
            } else {
                TerminationView::ConsumerGone
            },
            PollOutcomeView::PollError(m) => TerminationView::ProtocolError(m),
            PollOutcomeView::Closed => TerminationView::CleanClose,
        }
    }
}

/// Runs the driver's decisions over a sequence of poll outcomes, forwarding
/// each event into the relay channel in the order observed, and closes the
/// sender on the way out. Stops at the first fatal poll error, at a clean
/// close, or as soon as a send fails because the consumer is gone.
pub fn drive(outcomes: Vec<PollOutcome>, chan: &mut RelayChannel) -> (t: Termination)
    requires
        old(chan).wf(),
        old(chan).sender_is_open(),
    ensures
        final(chan).wf(),
        !final(chan).sender_is_open(),
        final(chan).receiver_is_open() == old(chan).receiver_is_open(),
        final(chan).consumed_log() == old(chan).consumed_log(),
        final(chan).sent_log() == old(chan).sent_log() + forwarded_prefix(
            outcomes_view(outcomes@),
            old(chan).receiver_is_open(),
        ),
        t@ == drive_termination(outcomes_view(outcomes@), old(chan).receiver_is_open()),
{
    let mut rest = outcomes;
    while rest.len() > 0
        invariant
            chan.wf(),
            chan.sender_is_open(),
            chan.receiver_is_open() == old(chan).receiver_is_open(),
            chan.consumed_log() == old(chan).consumed_log(),
            old(chan).sent_log() + forwarded_prefix(
                outcomes_view(outcomes@),
                old(chan).receiver_is_open(),
            ) == chan.sent_log() + forwarded_prefix(
                outcomes_view(rest@),
                chan.receiver_is_open(),
            ),
            drive_termination(outcomes_view(outcomes@), old(chan).receiver_is_open())
                == drive_termination(outcomes_view(rest@), chan.receiver_is_open()),
        decreases rest.len(),
    {
        let ghost prev = rest@;
        let o = rest.remove(0);
        proof {
            assert(outcomes_view(prev)[0] == o@);
            assert(outcomes_view(prev).skip(1) =~= outcomes_view(rest@));
        }
        match driver_step(o) {
            DriverStep::Forward(e) => {
                let ghost pre_sent = chan.sent_log();
                let ok = chan.send(e);
                if !ok {
                    chan.close_sender();
                    proof {
                        assert(forwarded_prefix(outcomes_view(prev), false)
                            =~= Seq::<EventView>::empty());
                        assert(chan.sent_log() =~= chan.sent_log() + Seq::<EventView>::empty());
                    }
                    return Termination::ConsumerGone;
                }
                proof {
                    assert(forwarded_prefix(outcomes_view(prev), true) =~= seq![e@]
                        + forwarded_prefix(outcomes_view(rest@), true));
                    lemma_push_then_add(
                        pre_sent,
                        e@,
                        forwarded_prefix(outcomes_view(rest@), true),
                    );
                }
            },
            DriverStep::Terminate(t) => {
                chan.close_sender();
                proof {
                    assert(forwarded_prefix(outcomes_view(prev), chan.receiver_is_open())
                        =~= Seq::<EventView>::empty());
                    assert(chan.sent_log() =~= chan.sent_log() + Seq::<EventView>::empty());
                }
                return t;
            },
        }
    }
    chan.close_sender();
    proof {
        assert(outcomes_view(rest@) =~= Seq::<PollOutcomeView>::empty());
        assert(chan.sent_log() =~= chan.sent_log() + Seq::<EventView>::empty());
    }
    Termination::CleanClose
}

proof fn lemma_push_then_add(a: Seq<EventView>, e: EventView, b: Seq<EventView>)
    ensures
        a.push(e) + b == a + (seq![e] + b),
{
    assert(a.push(e) + b =~= a + (seq![e] + b));
}

} // verus!
