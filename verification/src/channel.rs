use vstd::prelude::*;

use crate::control::{AudioEvent, LayerCommand};

verus! {

#[verifier::external_type_specification]
#[verifier::external_body]
#[verifier::reject_recursive_types(T)]
pub struct ExSender<T>(crossbeam::channel::Sender<T>);

#[verifier::external_type_specification]
#[verifier::external_body]
#[verifier::reject_recursive_types(T)]
pub struct ExReceiver<T>(crossbeam::channel::Receiver<T>);

/// Relies on crossbeam_channel::Receiver::try_recv: a queued command, or
/// nothing, without blocking.  What arrives depends on the control thread,
/// so nothing is promised about the value.
#[verifier::external_body]
pub fn try_recv_command(rx: &crossbeam::channel::Receiver<LayerCommand>) -> (r: Option<
    LayerCommand,
>) {
    rx.try_recv().ok()
}

/// Relies on crossbeam_channel::Sender::try_send: hands the event over
/// without blocking; it may be dropped when the queue is full or closed.
#[verifier::external_body]
pub fn try_send_event(tx: &crossbeam::channel::Sender<AudioEvent>, event: AudioEvent) -> (ok: bool) {
    tx.try_send(event).is_ok()
}

} // verus!
