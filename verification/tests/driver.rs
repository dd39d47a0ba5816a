use postgres_notify::channel::RelayChannel;
use postgres_notify::driver::{drive, driver_step, DriverStep, PollOutcome, Termination};
use postgres_notify::event::{Notification, RawEvent};
use postgres_notify::relay::EventStream;
use postgres_notify::setup::{classify_join, classify_setup, JoinOutcome, SetupError};
use postgres_notify::subscription::SubscriptionSet;

fn notif(channel: &str, payload: &str) -> RawEvent {
    RawEvent::Notification(Notification {
        channel: channel.to_string(),
        payload: payload.to_string(),
        process_id: 7,
    })
}

#[test]
fn step_forwards_events() {
    let e = notif("a", "x");
    assert_eq!(driver_step(PollOutcome::Event(e.clone())), DriverStep::Forward(e));
}

#[test]
fn step_stops_on_poll_error() {
    assert_eq!(
        driver_step(PollOutcome::PollError("bad frame".to_string())),
        DriverStep::Terminate(Termination::ProtocolError("bad frame".to_string()))
    );
}

#[test]
fn step_stops_on_close() {
    assert_eq!(
        driver_step(PollOutcome::Closed),
        DriverStep::Terminate(Termination::CleanClose)
    );
}

#[test]
fn poll_error_ends_run_and_stream() {
    let mut chan = RelayChannel::new();
    let t = drive(
        vec![
            PollOutcome::Event(notif("a", "before")),
            PollOutcome::PollError("connection reset".to_string()),
            PollOutcome::Event(notif("a", "after")),
        ],
        &mut chan,
    );
    assert_eq!(t, Termination::ProtocolError("connection reset".to_string()));
    // Only the event observed before the error was forwarded; the relay
    // then reports end of sequence.
    let mut stream = EventStream::new(chan, SubscriptionSet::from_names(Vec::new()));
    let first = stream.next().expect("event before the error is delivered");
    assert_eq!(first.payload, "before");
    assert_eq!(stream.next(), None);
}

#[test]
fn exhausted_outcomes_count_as_clean_close() {
    let mut chan = RelayChannel::new();
    assert_eq!(drive(Vec::new(), &mut chan), Termination::CleanClose);
}

#[test]
fn send_fails_once_receiver_is_gone() {
    let mut chan = RelayChannel::new();
    assert!(chan.send(notif("a", "x")));
    chan.close_receiver();
    assert!(!chan.send(notif("a", "y")));
}

#[test]
fn join_of_completed_task_carries_termination() {
    assert_eq!(
        classify_join(Some(Termination::CleanClose)),
        JoinOutcome::Completed(Termination::CleanClose)
    );
}

#[test]
fn join_of_aborted_task_is_abnormal() {
    assert_eq!(classify_join(None), JoinOutcome::Abnormal);
}

#[test]
fn transport_failure_preempts_registration() {
    assert_eq!(
        classify_setup(Some("no route".to_string()), Some("denied".to_string())),
        Some(SetupError::Transport("no route".to_string()))
    );
}

#[test]
fn scenario_e_registration_failure_is_surfaced() {
    // The registration command failed after the driver was already started:
    // the caller gets a Registration error and no stream is ever handed out,
    // so no event is delivered.
    let r = classify_setup(None, Some("permission denied".to_string()));
    assert_eq!(r, Some(SetupError::Registration("permission denied".to_string())));
}

#[test]
fn successful_setup_surfaces_no_error() {
    assert_eq!(classify_setup(None, None), None);
}
