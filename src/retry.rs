//! Retry policy of a download: a fixed number of attempts, waiting longer
//! after each failed one.
use vstd::prelude::*;

verus! {

/// How many attempts a download gets.
pub const MAX_RETRIES: u32 = 3;

/// The wait after a failed attempt grows by this many milliseconds per attempt.
pub const BACKOFF_STEP_MS: u64 = 500;

/// What follows a failed attempt.
#[derive(Debug, Clone, Copy, PartialEq, Eq, Structural)]
pub enum RetryStep {
    /// Wait this many milliseconds, then try again.
    Retry(u64),
    /// The attempts are used up: report the failure.
    GiveUp,
}

/// After the failed attempt number `attempt` (from 1): give up after the
/// last one, else wait `attempt` × 500 ms and try again.
pub fn after_failed_attempt(attempt: u32) -> (r: RetryStep)
    requires
        1 <= attempt <= MAX_RETRIES,
    ensures
        r == (if attempt == MAX_RETRIES {
            RetryStep::GiveUp
        } else {
            RetryStep::Retry((attempt * BACKOFF_STEP_MS) as u64)
        }),
{
    if attempt == MAX_RETRIES {
        RetryStep::GiveUp
    } else {
        RetryStep::Retry(attempt as u64 * BACKOFF_STEP_MS)
    }
}

} // verus!
