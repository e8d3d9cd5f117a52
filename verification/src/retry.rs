//! The bounded retry policy used when reporting process-level errors to
//! the administrative chat: exponential backoff, capped at a fixed number
//! of attempts. The delay schedule is the one tokio_retry computes; the
//! random jitter applied on top of it, and the waiting itself, happen
//! outside the library.

use vstd::prelude::*;

verus! {

/// The delay, in milliseconds, before retry number `i` (counting from 0):
/// `base` multiplied by itself `i` times, saturating at `u64::MAX`.
pub open spec fn backoff_ms(base: u64, i: nat) -> u64
    decreases i,
{
    if i == 0 {
        base
    } else {
        let prev = backoff_ms(base, (i - 1) as nat);
        if prev * base > u64::MAX {
            u64::MAX
        } else {
            (prev * base) as u64
        }
    }
}

/// Relies on tokio_retry's ExponentialBackoff iterator: starting from
/// `from_millis(base)` (factor 1, no maximum delay), each `next` yields
/// the current delay and multiplies it by `base` with saturation, so the
/// first `count` delays are `base, base*base, ...` capped at `u64::MAX`
/// milliseconds.
#[verifier::external_body]
fn exponential_delays_ms(base_ms: u64, count: usize) -> (r: Vec<u64>)
    ensures
        r@.len() == count,
        forall|i: int| 0 <= i < count ==> r@[i] == backoff_ms(base_ms, i as nat),
{
    tokio_retry::strategy::ExponentialBackoff::from_millis(base_ms)
        .take(count)
        .map(|d| d.as_millis() as u64)
        .collect()
}

/// How admin-channel error reports are retried: the backoff base delay
/// and the total number of attempts allowed.
#[derive(Clone, Copy, Debug, PartialEq, Eq, Structural)]
pub struct RetryPolicy {
    pub base_delay_ms: u64,
    pub max_attempts: usize,
}

impl RetryPolicy {
    /// The reference defaults: a base delay of 1000 ms and 3 attempts.
    pub fn reference_default() -> (r: RetryPolicy)
        ensures
            r.base_delay_ms == 1000,
            r.max_attempts == 3,
    {
        RetryPolicy { base_delay_ms: 1000, max_attempts: 3 }
    }

    /// After `attempts_made` failed attempts: the backoff delay in
    /// milliseconds before the next attempt, while attempts remain;
    /// nothing once the cap is reached, and the failure is dropped.
    pub fn next_delay(&self, attempts_made: usize) -> (r: Option<u64>)
        ensures
            attempts_made < self.max_attempts ==> r == Some(
                backoff_ms(self.base_delay_ms, attempts_made as nat),
            ),
            attempts_made >= self.max_attempts ==> r is None,
    {
        if attempts_made < self.max_attempts {
            let delays = exponential_delays_ms(self.base_delay_ms, attempts_made + 1);
            Some(delays[attempts_made])
        } else {
            None
        }
    }
}

} // verus!
