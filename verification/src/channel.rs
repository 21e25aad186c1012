//! The bounded, lossy control channel that carries script updates from
//! the editor thread to the audio thread.
//!
//! The channel is crossbeam's: the sender never blocks (a full channel
//! rejects the send, and the update is dropped with a notice), and the
//! audio thread drains it without blocking. What a receive returns
//! depends on the other thread, so the contracts promise nothing about
//! the payloads; the router's own logic is verified for every message
//! that may arrive.

use vstd::prelude::*;
use crate::messages::CodeMessage;

verus! {

/// How many pending script updates the control channel holds at most.
pub const CODE_CHANNEL_CAPACITY: usize = 4;

#[verifier::external_type_specification]
#[verifier::external_body]
#[verifier::reject_recursive_types(T)]
pub struct ExSender<T>(crossbeam_channel::Sender<T>);

#[verifier::external_type_specification]
#[verifier::external_body]
#[verifier::reject_recursive_types(T)]
pub struct ExReceiver<T>(crossbeam_channel::Receiver<T>);

/// Relies on crossbeam_channel::bounded: a connected sender/receiver
/// pair over a queue of fixed capacity.
#[verifier::external_body]
pub fn code_channel() -> (r: (crossbeam_channel::Sender<CodeMessage>,
    crossbeam_channel::Receiver<CodeMessage>))
{
    crossbeam_channel::bounded(CODE_CHANNEL_CAPACITY)
}

/// Relies on crossbeam_channel::Receiver::try_recv: returns a pending
/// message without blocking, or nothing when the channel is empty or
/// disconnected.
#[verifier::external_body]
pub fn try_recv_code(rx: &crossbeam_channel::Receiver<CodeMessage>) -> (r: Option<CodeMessage>)
{
    match rx.try_recv() {
        Ok(msg) => Some(msg),
        Err(_) => None,
    }
}

} // verus!
