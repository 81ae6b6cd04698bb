//! Broadcast channels. Every publish/subscribe channel of the store is one
//! `tokio::sync::broadcast` channel of blobs; the contracts below are what the
//! store relies on.

use tokio::sync::broadcast::error::SendError;
use tokio::sync::broadcast::{Receiver, Sender};
use vstd::prelude::*;

verus! {

#[verifier::external_type_specification]
#[verifier::external_body]
#[verifier::reject_recursive_types(T)]
pub struct ExSender<T>(Sender<T>);

#[verifier::external_type_specification]
#[verifier::external_body]
#[verifier::reject_recursive_types(T)]
pub struct ExReceiver<T>(Receiver<T>);

#[verifier::external_type_specification]
#[verifier::external_body]
#[verifier::reject_recursive_types(T)]
pub struct ExSendError<T>(SendError<T>);

/// `broadcast::channel` makes a channel and its first receiver. It panics on a
/// capacity of zero or above `usize::MAX / 2`, so those are left out.
pub assume_specification<T: Clone>[ tokio::sync::broadcast::channel::<T> ](capacity: usize) -> (pair: (
    Sender<T>,
    Receiver<T>,
))
    requires
        0 < capacity <= usize::MAX / 2,
;

/// `Sender::subscribe` attaches one more receiver to the sender's channel.
/// Nothing is claimed of the receiver. The call panics once the channel has
/// `usize::MAX >> 2` receivers, a number that no process reaches and that no
/// `requires` can speak of.
pub assume_specification<T>[ Sender::<T>::subscribe ](tx: &Sender<T>) -> (rx: Receiver<T>)
;

/// `Sender::send` fails when the channel has no receiver, and otherwise
/// reports how many receivers are attached, which is then at least one.
pub assume_specification<T>[ Sender::<T>::send ](tx: &Sender<T>, value: T) -> (sent: Result<
    usize,
    SendError<T>,
>)
    ensures
        sent matches Ok(receivers) ==> receivers >= 1,
;

} // verus!
