//! What the listener decides: how many connections it admits, and how long
//! it waits before it tries again after a failed accept.

use vstd::prelude::*;

verus! {

/// The port that the server listens on where none is given.
pub const DEFAULT_PORT: u16 = 6379;

/// The number of connections that the server serves at a time.
pub const MAX_CONNECTIONS: usize = 250;

/// The longest wait, in seconds, before another accept is tried.
pub const MAX_BACKOFF: u64 = 64;

/// What the listener does after an accept that failed.
#[derive(Debug, Clone, Copy, PartialEq, Eq)]
pub enum Retry {
    /// Wait for `seconds`, then try again; should that fail too, the wait
    /// is `next`.
    After { seconds: u64, next: u64 },
    /// Give up, and report the error.
    GiveUp,
}

/// Two to the power of `n`.
pub open spec fn pow2(n: nat) -> nat
    decreases n,
{
    if n == 0 {
        1
    } else {
        2 * pow2((n - 1) as nat)
    }
}

/// The wait before the first retry.
pub fn first_backoff() -> (backoff: u64)
    ensures
        backoff == pow2(0),
{
    1
}

/// What to do after an accept that failed, when the wait has reached
/// `backoff` seconds: wait that long and double the wait, or give up once
/// the wait would be longer than `MAX_BACKOFF`.
pub fn retry_after_failure(backoff: u64) -> (retry: Retry)
    ensures
        retry == if backoff > MAX_BACKOFF {
            Retry::GiveUp
        } else {
            Retry::After { seconds: backoff, next: (2 * backoff) as u64 }
        },
{
    if backoff > MAX_BACKOFF {
        Retry::GiveUp
    } else {
        Retry::After { seconds: backoff, next: 2 * backoff }
    }
}

/// The waits double from one second on: after `failures` failed accepts in
/// a row the next wait is two to that power, which is within `MAX_BACKOFF`
/// for up to six failures; the eighth failure in a row is given up on.
pub proof fn lemma_backoff(failures: nat)
    ensures
        failures <= 6 ==> pow2(failures) <= MAX_BACKOFF,
        failures >= 7 ==> pow2(failures) > MAX_BACKOFF,
        pow2(failures + 1) == 2 * pow2(failures),
    decreases failures,
{
    reveal_with_fuel(pow2, 8);
    if failures > 7 {
        lemma_backoff((failures - 1) as nat);
    }
}

} // verus!
