//! Setup-time and join-time decisions: which error a failed setup surfaces,
//! and how awaiting the driver's handle is classified.
//!
//! The ordering-critical part of setup — connect, start the driver, only
//! then register the channels — is the caller's loop; these functions fix
//! what each outcome of it means.

use vstd::prelude::*;
use crate::driver::Termination;

verus! {

/// A setup-time failure. Transport failures mean no relay was created at
/// all; a registration failure is surfaced after the driver has already
/// started, and it is the caller's decision whether to abandon the relay.
#[derive(Debug, Clone, PartialEq, Eq)]
pub enum SetupError {
    Transport(String),
    Registration(String),
}

/// Mathematical model of a [`SetupError`].
#[verifier::ext_equal]
pub enum SetupErrorView {
    Transport(Seq<char>),
    Registration(Seq<char>),
}

impl View for SetupError {
    type V = SetupErrorView;

    open spec fn view(&self) -> SetupErrorView {
        match self {
            SetupError::Transport(m) => SetupErrorView::Transport(m@),
            SetupError::Registration(m) => SetupErrorView::Registration(m@),
        }
    }
}

/// What awaiting the driver task's handle yields: the driver's own
/// termination when it ran to completion, or a distinguishable join failure
/// when the task was aborted or panicked.
#[derive(Debug, Clone, PartialEq, Eq)]
pub enum JoinOutcome {
    Completed(Termination),
    Abnormal,
}

/// Decides what a setup attempt surfaces: a connection failure is a
/// transport error and pre-empts everything; otherwise a failed registration
/// command is a registration error; otherwise setup succeeded.
pub fn classify_setup(connect_error: Option<String>, register_error: Option<String>) -> (r:
    Option<SetupError>)
    ensures
        connect_error matches Some(m) ==> r == Some(SetupError::Transport(m)),
        connect_error is None ==> (register_error matches Some(m) ==> r == Some(
            SetupError::Registration(m),
        )),
        connect_error is None && register_error is None ==> r is None,
{
    match connect_error {
        Some(m) => Some(SetupError::Transport(m)),
        None => match register_error {
            Some(m) => Some(SetupError::Registration(m)),
            None => None,
        },
    }
}

/// Classifies the result of awaiting the driver's handle: a driver that ran
/// to completion — whatever made it stop, the consumer going away included —
/// joins cleanly, carrying its termination; only a task that never completed
/// (aborted or panicked) is a join failure.
pub fn classify_join(completed: Option<Termination>) -> (r: JoinOutcome)
    ensures
        completed matches Some(t) ==> r == JoinOutcome::Completed(t),
        completed is None ==> r == JoinOutcome::Abnormal,
{
    match completed {
        Some(t) => JoinOutcome::Completed(t),
        None => JoinOutcome::Abnormal,
    }
}

} // verus!
