//! Trusted boundary around `std::sync::mpsc`: the two channel endpoint types
//! and the two operations the exchange needs, sending and receiving with a
//! timeout. A message received here comes from whatever the peer thread has
//! sent, so neither wrapper can promise anything about the value it hands
//! back; the verified roles state what holds whatever arrives.

use vstd::prelude::*;

use crate::simple::Message;

verus! {

#[verifier::external_type_specification]
#[verifier::external_body]
#[verifier::reject_recursive_types(T)]
pub struct ExSender<T>(std::sync::mpsc::Sender<T>);

#[verifier::external_type_specification]
#[verifier::external_body]
#[verifier::reject_recursive_types(T)]
pub struct ExReceiver<T>(std::sync::mpsc::Receiver<T>);

/// Relies on `std::sync::mpsc::Sender::send`: it queues the message without
/// blocking and fails exactly when the matching receiver has been dropped.
/// Whether the receiver is still alive depends on the peer thread, so the
/// result cannot be pinned down here.
#[verifier::external_body]
pub(crate) fn channel_send(tx: &std::sync::mpsc::Sender<Message>, m: Message) -> bool {
    match tx.send(m) {
        Ok(()) => true,
        Err(_) => false,
    }
}

/// Relies on `std::sync::mpsc::Receiver::recv_timeout`: it returns a queued
/// message in FIFO order, or nothing once the timeout elapses or the sender
/// is gone. What arrives depends on the peer thread's timing, so nothing is
/// promised of the result.
#[verifier::external_body]
pub(crate) fn channel_recv_timeout(
    rx: &std::sync::mpsc::Receiver<Message>,
    timeout_ms: u64,
) -> Option<Message> {
    match rx.recv_timeout(std::time::Duration::from_millis(timeout_ms)) {
        Ok(m) => Some(m),
        Err(_) => None,
    }
}

} // verus!
