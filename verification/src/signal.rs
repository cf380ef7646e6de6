//! The two channels of `tokio` that carry changes out of the service.
//!
//! Nothing in this file is proved. Beside `Delivery`, which names the outcomes
//! of an offer to a queue, each item either makes a type of `tokio` known to the
//! verifier or holds exactly one call into `tokio`. No contract here claims
//! anything of what a channel does: what the other end of a channel sees
//! depends on tasks that the verifier never meets.

use vstd::prelude::*;
use crate::event::ChangeEvent;
use crate::status::HealthCheckResponse;

verus! {

/// The sending half of `tokio::sync::watch`, opaque to the verifier.
#[verifier::external_type_specification]
#[verifier::external_body]
#[verifier::reject_recursive_types(T)]
pub struct ExWatchSender<T>(tokio::sync::watch::Sender<T>);

/// The receiving half of `tokio::sync::watch`, opaque to the verifier.
#[verifier::external_type_specification]
#[verifier::external_body]
#[verifier::reject_recursive_types(T)]
pub struct ExWatchReceiver<T>(tokio::sync::watch::Receiver<T>);

/// The sending half of `tokio::sync::mpsc`, opaque to the verifier.
#[verifier::external_type_specification]
#[verifier::external_body]
#[verifier::reject_recursive_types(T)]
pub struct ExQueueSender<T>(tokio::sync::mpsc::Sender<T>);

/// The receiving half of `tokio::sync::mpsc`, opaque to the verifier.
#[verifier::external_type_specification]
#[verifier::external_body]
#[verifier::reject_recursive_types(T)]
pub struct ExQueueReceiver<T>(tokio::sync::mpsc::Receiver<T>);

/// What became of one response handed to a delivery queue.
#[derive(Clone, Copy, Debug, PartialEq, Eq, Structural)]
pub enum Delivery {
    /// The queue took the response.
    Sent,
    /// The queue holds as many responses as it can; this one was not taken.
    Full,
    /// The consumer is gone; this response was not taken and none will be.
    Closed,
}

/// Calls `tokio::sync::watch::channel` with the initial value `None`, which
/// stands for "no change yet". Nothing is claimed of the two halves.
#[verifier::external_body]
pub(crate) fn open_signal() -> (halves: (
    tokio::sync::watch::Sender<Option<ChangeEvent>>,
    tokio::sync::watch::Receiver<Option<ChangeEvent>>,
)) {
    tokio::sync::watch::channel(None)
}

/// Calls `tokio::sync::watch::Sender::send` with `Some(event)` and drops what it
/// returns: the call fails when no receiver is left, and a publisher is not to
/// learn of that. Nothing is claimed.
#[verifier::external_body]
pub(crate) fn raise(signaller: &tokio::sync::watch::Sender<Option<ChangeEvent>>, event: ChangeEvent) {
    let _ = signaller.send(Some(event));
}

/// Calls `tokio::sync::watch::Sender::subscribe`: a new receiver that counts as
/// having seen the value that is in the channel now. Nothing is claimed of it.
#[verifier::external_body]
pub(crate) fn listen(signaller: &tokio::sync::watch::Sender<Option<ChangeEvent>>) -> (listener:
    tokio::sync::watch::Receiver<Option<ChangeEvent>>) {
    signaller.subscribe()
}

/// Calls `tokio::sync::mpsc::channel`, which panics on a capacity of zero and on
/// one above an eighth of `usize::MAX`; both are left out. Nothing is claimed of
/// the two halves.
#[verifier::external_body]
pub(crate) fn open_queue(capacity: usize) -> (halves: (
    tokio::sync::mpsc::Sender<HealthCheckResponse>,
    tokio::sync::mpsc::Receiver<HealthCheckResponse>,
))
    requires
        0 < capacity <= usize::MAX / 8,
{
    tokio::sync::mpsc::channel(capacity)
}

/// Calls `tokio::sync::mpsc::Sender::try_send` and tells its three outcomes
/// apart. Which one comes depends on the consumer, so nothing is claimed.
#[verifier::external_body]
pub(crate) fn offer(queue: &tokio::sync::mpsc::Sender<HealthCheckResponse>, response: HealthCheckResponse) -> (outcome:
    Delivery) {
    match queue.try_send(response) {
        Ok(()) => Delivery::Sent,
        Err(tokio::sync::mpsc::error::TrySendError::Full(_)) => Delivery::Full,
        Err(tokio::sync::mpsc::error::TrySendError::Closed(_)) => Delivery::Closed,
    }
}

} // verus!
