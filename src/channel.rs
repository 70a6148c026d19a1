//! The channels that carry results from background work to the frame loop, and the
//! few calls into them that the library makes.
use vstd::prelude::*;

verus! {

#[verifier::external_type_specification]
#[verifier::external_body]
#[verifier::reject_recursive_types(T)]
pub struct ExMpscSender<T>(std::sync::mpsc::Sender<T>);

#[verifier::external_type_specification]
#[verifier::external_body]
#[verifier::reject_recursive_types(T)]
pub struct ExMpscReceiver<T>(std::sync::mpsc::Receiver<T>);

#[verifier::external_type_specification]
#[verifier::external_body]
#[verifier::reject_recursive_types(T)]
pub struct ExOneshotSender<T>(oneshot::Sender<T>);

#[verifier::external_type_specification]
#[verifier::external_body]
#[verifier::reject_recursive_types(T)]
pub struct ExOneshotReceiver<T>(oneshot::Receiver<T>);

#[verifier::external_type_specification]
#[verifier::external_body]
pub struct ExOneshotRecvError(oneshot::RecvError);

/// Relies on `std::sync::mpsc::channel`: a fresh, connected, empty channel.
#[verifier::external_body]
pub(crate) fn mpsc_channel<T>() -> (r: (std::sync::mpsc::Sender<T>, std::sync::mpsc::Receiver<T>)) {
    std::sync::mpsc::channel()
}

/// Relies on `std::sync::mpsc::Receiver::try_recv`: never blocks; `Some` with the oldest
/// value sent and not yet received, `None` when nothing is there (or every sender is gone).
/// Which of the two comes depends on the other threads, so nothing is stated of it.
#[verifier::external_body]
pub(crate) fn mpsc_try_recv<T>(rx: &std::sync::mpsc::Receiver<T>) -> (r: Option<T>) {
    rx.try_recv().ok()
}

/// Relies on `Clone for std::sync::mpsc::Sender`: another sender into the same channel.
#[verifier::external_body]
pub(crate) fn mpsc_sender_clone<T>(tx: &std::sync::mpsc::Sender<T>) -> (r: std::sync::mpsc::Sender<T>) {
    tx.clone()
}

/// Relies on `oneshot::channel`: a fresh pair that can carry one value.
#[verifier::external_body]
pub(crate) fn oneshot_channel<T>() -> (r: (oneshot::Sender<T>, oneshot::Receiver<T>)) {
    oneshot::channel()
}

/// Relies on `oneshot::Receiver::try_recv`: never blocks; `Some` with the value once it has
/// been sent and not yet taken, `None` otherwise. When the value arrives depends on another
/// thread, so nothing is stated of it.
#[verifier::external_body]
pub(crate) fn oneshot_try_recv<T>(rx: &oneshot::Receiver<T>) -> (r: Option<T>) {
    rx.try_recv().ok()
}

} // verus!
