//! The control channel of a monitor's worker, on crossbeam's unbounded
//! channel.
use vstd::prelude::*;
use crossbeam_channel::{Receiver, Sender};
use crate::models::Message;

verus! {

#[verifier::external_type_specification]
#[verifier::external_body]
#[verifier::reject_recursive_types(T)]
pub struct ExSender<T>(crossbeam_channel::Sender<T>);

#[verifier::external_type_specification]
#[verifier::external_body]
#[verifier::reject_recursive_types(T)]
pub struct ExReceiver<T>(crossbeam_channel::Receiver<T>);

/// Relies on crossbeam_channel::unbounded: a fresh channel with both ends.
#[verifier::external_body]
pub(crate) fn open_channel() -> (r: (Sender<Message>, Receiver<Message>)) {
    crossbeam_channel::unbounded()
}

/// Relies on crossbeam_channel::Sender::send: it never blocks on an
/// unbounded channel, and fails when every receiver is gone.
#[verifier::external_body]
pub(crate) fn send_message(tx: &Sender<Message>, msg: Message) -> (r: bool) {
    tx.send(msg).is_ok()
}

/// Relies on crossbeam_channel::Receiver's Clone: one more consumer end of
/// the same channel.
#[verifier::external_body]
pub(crate) fn share_receiver(rx: &Receiver<Message>) -> (r: Receiver<Message>) {
    rx.clone()
}

} // verus!
