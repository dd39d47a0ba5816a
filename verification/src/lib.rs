//! Relays asynchronous server-pushed events from a database connection into a
//! filterable, ordered event stream.
//!
//! The connection itself is polled by a background driver loop; this crate
//! holds the verified logic of that relay: the event model, the subscription
//! set and its registration command, the relay channel's ordering discipline,
//! the driver's decision rules, and the stream- and callback-mode consumers.

pub mod channel;
pub mod driver;
pub mod event;
pub mod relay;
pub mod setup;
pub mod subscription;
