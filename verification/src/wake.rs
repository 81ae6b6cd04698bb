//! Waking the purge task. The task waits on a `tokio::sync::Notify`; whoever
//! changes what it waits for notifies it.

use std::sync::Arc;
use tokio::sync::Notify;
use vstd::prelude::*;

verus! {

#[verifier::external_type_specification]
#[verifier::external_body]
pub struct ExNotify(Notify);

/// `Notify::new` makes a notifier with no permit stored.
pub assume_specification[ Notify::new ]() -> (notify: Notify)
;

/// `Notify::notify_one` wakes one waiting task, or stores a permit for the
/// next one that waits. It returns nothing.
pub assume_specification[ Notify::notify_one ](notify: &Notify)
;

/// `Arc::clone` gives one more handle on the same value.
#[verifier::external_body]
pub(crate) fn share<T>(shared: &Arc<T>) -> (other: Arc<T>)
    ensures
        other == *shared,
{
    shared.clone()
}

} // verus!
