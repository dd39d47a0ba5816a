//! The protocol-level event model: what the connection driver observes, prior
//! to any filtering.

use vstd::prelude::*;

verus! {

/// A server-pushed notification on a named channel: the primary data of
/// interest.
#[derive(Debug, Clone, PartialEq, Eq)]
pub struct Notification {
    pub channel: String,
    pub payload: String,
    pub process_id: i32,
}

/// Mathematical model of a [`Notification`].
#[verifier::ext_equal]
pub struct NotificationView {
    pub channel: Seq<char>,
    pub payload: Seq<char>,
    pub process_id: i32,
}

impl View for Notification {
    type V = NotificationView;

    open spec fn view(&self) -> NotificationView {
        NotificationView {
            channel: self.channel@,
            payload: self.payload@,
            process_id: self.process_id,
        }
    }
}

/// A diagnostic message pushed by the server: observability data, not
/// business data.
#[derive(Debug, Clone, PartialEq, Eq)]
pub struct Notice {
    pub severity: String,
    pub message: String,
}

/// Mathematical model of a [`Notice`].
#[verifier::ext_equal]
pub struct NoticeView {
    pub severity: Seq<char>,
    pub message: Seq<char>,
}

impl View for Notice {
    type V = NoticeView;

    open spec fn view(&self) -> NoticeView {
        NoticeView { severity: self.severity@, message: self.message@ }
    }
}

/// The protocol-level event union delivered by polling the connection. The
/// `Other` variant stands for unrecognized message kinds, kept for forward
/// compatibility.
#[derive(Debug, Clone, PartialEq, Eq)]
pub enum RawEvent {
    Notification(Notification),
    Notice(Notice),
    Other,
}

/// Mathematical model of a [`RawEvent`].
#[verifier::ext_equal]
pub enum EventView {
    Notification(NotificationView),
    Notice(NoticeView),
    Other,
}

impl View for RawEvent {
    type V = EventView;

    open spec fn view(&self) -> EventView {
        match self {
            RawEvent::Notification(n) => EventView::Notification(n@),
            RawEvent::Notice(n) => EventView::Notice(n@),
            RawEvent::Other => EventView::Other,
        }
    }
}

/// The models of a sequence of raw events, in order.
pub open spec fn events_view(s: Seq<RawEvent>) -> Seq<EventView> {
    s.map_values(|e: RawEvent| e@)
}

} // verus!
