use postgres_notify::channel::RelayChannel;
use postgres_notify::driver::{drive, PollOutcome, Termination};
use postgres_notify::event::{Notice, Notification, RawEvent};
use postgres_notify::relay::{run_callback_mode, stream_select, CollectingSink, EventStream};
use postgres_notify::setup::{classify_join, JoinOutcome};
use postgres_notify::subscription::SubscriptionSet;

fn notif(channel: &str, payload: &str) -> RawEvent {
    RawEvent::Notification(Notification {
        channel: channel.to_string(),
        payload: payload.to_string(),
        process_id: 42,
    })
}

fn notice(severity: &str, message: &str) -> RawEvent {
    RawEvent::Notice(Notice { severity: severity.to_string(), message: message.to_string() })
}

fn subs(names: &[&str]) -> SubscriptionSet {
    SubscriptionSet::from_names(names.iter().map(|n| n.to_string()).collect())
}

fn drain(stream: &mut EventStream) -> Vec<Notification> {
    let mut out = Vec::new();
    while let Some(n) = stream.next() {
        out.push(n);
    }
    out
}

#[test]
fn scenario_a_filtered_stream() {
    let mut chan = RelayChannel::new();
    let outcomes = vec![
        PollOutcome::Event(notif("a", "x")),
        PollOutcome::Event(notif("c", "y")),
        PollOutcome::Closed,
    ];
    let t = drive(outcomes, &mut chan);
    assert_eq!(t, Termination::CleanClose);
    let mut stream = EventStream::new(chan, subs(&["a", "b"]));
    let got = drain(&mut stream);
    assert_eq!(got.len(), 1);
    assert_eq!(got[0].channel, "a");
    assert_eq!(got[0].payload, "x");
}

#[test]
fn scenario_b_empty_set_passes_all() {
    let mut chan = RelayChannel::new();
    let t = drive(
        vec![PollOutcome::Event(notif("z", "1")), PollOutcome::Closed],
        &mut chan,
    );
    assert_eq!(t, Termination::CleanClose);
    let mut stream = EventStream::new(chan, subs(&[]));
    let got = drain(&mut stream);
    assert_eq!(got.len(), 1);
    assert_eq!(got[0].channel, "z");
    assert_eq!(got[0].payload, "1");
}

#[test]
fn scenario_c_notice_never_streamed() {
    let mut chan = RelayChannel::new();
    let t = drive(
        vec![
            PollOutcome::Event(notice("WARNING", "vacuum soon")),
            PollOutcome::Event(notif("a", "x")),
            PollOutcome::Closed,
        ],
        &mut chan,
    );
    assert_eq!(t, Termination::CleanClose);
    let mut stream = EventStream::new(chan, subs(&["a"]));
    let first = stream.next();
    assert_eq!(
        first,
        Some(Notification { channel: "a".to_string(), payload: "x".to_string(), process_id: 42 })
    );
    assert_eq!(stream.next(), None);
}

#[test]
fn scenario_d_consumer_gone_joins_cleanly() {
    let mut chan = RelayChannel::new();
    assert!(chan.send(notif("a", "first")));
    chan.close_receiver();
    let t = drive(vec![PollOutcome::Event(notif("a", "late"))], &mut chan);
    assert_eq!(t, Termination::ConsumerGone);
    // The driver ran to completion, so awaiting its handle is not a join error.
    assert_eq!(
        classify_join(Some(t)),
        JoinOutcome::Completed(Termination::ConsumerGone)
    );
}

#[test]
fn order_preserved_through_stream() {
    let mut chan = RelayChannel::new();
    let t = drive(
        vec![
            PollOutcome::Event(notif("a", "1")),
            PollOutcome::Event(notif("b", "2")),
            PollOutcome::Event(notif("a", "3")),
            PollOutcome::Closed,
        ],
        &mut chan,
    );
    assert_eq!(t, Termination::CleanClose);
    let mut stream = EventStream::new(chan, subs(&[]));
    let got = drain(&mut stream);
    let payloads: Vec<&str> = got.iter().map(|n| n.payload.as_str()).collect();
    assert_eq!(payloads, vec!["1", "2", "3"]);
}

#[test]
fn callback_mode_sees_every_event_in_order() {
    let mut chan = RelayChannel::new();
    let events = vec![
        notif("a", "1"),
        notice("WARNING", "w"),
        RawEvent::Other,
        notif("c", "2"),
    ];
    let outcomes: Vec<PollOutcome> =
        events.iter().cloned().map(PollOutcome::Event).chain([PollOutcome::Closed]).collect();
    let t = drive(outcomes, &mut chan);
    assert_eq!(t, Termination::CleanClose);
    let mut sink = CollectingSink::new();
    run_callback_mode(&mut chan, &mut sink);
    assert_eq!(sink.events, events);
}

#[test]
fn stream_select_drops_notice_and_unsubscribed() {
    let set = subs(&["a"]);
    assert_eq!(stream_select(&set, notice("WARNING", "w")), None);
    assert_eq!(stream_select(&set, RawEvent::Other), None);
    assert_eq!(stream_select(&set, notif("b", "x")), None);
    assert_eq!(
        stream_select(&set, notif("a", "x")),
        Some(Notification { channel: "a".to_string(), payload: "x".to_string(), process_id: 42 })
    );
}

#[test]
fn empty_queue_stream_ends_immediately() {
    let mut chan = RelayChannel::new();
    let t = drive(vec![PollOutcome::Closed], &mut chan);
    assert_eq!(t, Termination::CleanClose);
    let mut stream = EventStream::new(chan, subs(&["a"]));
    assert_eq!(stream.next(), None);
}
