//! The clock of the store. The store counts time in milliseconds from the
//! instant at which its clock was started; this is where those counts are
//! read from the machine's clock and turned back into instants to sleep
//! until.

use tokio::time::{Duration, Instant};
use vstd::prelude::*;

verus! {

#[verifier::external_type_specification]
#[verifier::external_body]
pub struct ExInstant(Instant);

/// `Instant::now` reads the machine's clock. Nothing is claimed of the
/// instant that it gives.
pub assume_specification[ Instant::now ]() -> (now: Instant)
;

/// `Instant::elapsed` gives the time that has passed since the instant, and
/// `Duration::as_millis` the whole milliseconds of it. Nothing is claimed of
/// the count: it is whatever the machine's clock says.
#[verifier::external_body]
fn millis_since(epoch: &Instant) -> (millis: u128) {
    epoch.elapsed().as_millis()
}

/// `Instant::checked_add` gives the instant that lies a duration after
/// another, or nothing where no instant can stand for it. Nothing is claimed
/// of the instant.
#[verifier::external_body]
fn instant_after(epoch: &Instant, millis: u64) -> (instant: Option<Instant>) {
    epoch.checked_add(Duration::from_millis(millis))
}

/// A clock that counts milliseconds from the instant at which it was started.
pub struct Clock {
    epoch: Instant,
}

/// The count `millis` as an instant of the store, which is a `u64`: nothing
/// where the count is beyond that.
pub fn instant_of_count(millis: u128) -> (now: Option<u64>)
    ensures
        now == if millis <= u64::MAX {
            Some(millis as u64)
        } else {
            None
        },
{
    if millis <= 0xffff_ffff_ffff_ffff {
        Some(millis as u64)
    } else {
        None
    }
}

impl Clock {
    /// Starts a clock.
    pub fn start() -> Clock {
        Clock { epoch: Instant::now() }
    }

    /// The present instant, as the store counts it; nothing once the count
    /// is beyond what the store can hold.
    pub fn now(&self) -> Option<u64> {
        instant_of_count(millis_since(&self.epoch))
    }

    /// The instant of the machine's clock that the store counts as `when`;
    /// nothing where the machine's clock cannot hold it.
    pub fn instant(&self, when: u64) -> Option<Instant> {
        instant_after(&self.epoch, when)
    }
}

} // verus!
