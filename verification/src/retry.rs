//! The retry policy of the run loop: an attempt's failure either ends the
//! loop (fatal) or asks for another attempt after a fixed pause.

use vstd::prelude::*;

verus! {

/// The pause between connection attempts, in milliseconds.
pub const RETRY_PAUSE_MS: u64 = 5000;

/// An error that knows whether it ends the run loop.
pub trait RetryableError {
    /// Whether this error is fatal.
    spec fn spec_is_fatal(&self) -> bool;

    /// Whether this error is fatal.
    fn is_fatal(&self) -> (r: bool)
        ensures
            r == self.spec_is_fatal(),
    ;
}

/// What the run loop does after one attempt.
#[derive(Debug, PartialEq)]
pub enum RetryStep {
    /// The attempt failed fatally: stop, surfacing the error.
    Stop,
    /// Pause this many milliseconds, then attempt again.
    PauseThenRetry(u64),
}

/// Decides the run loop's next step from one attempt's outcome: only a
/// fatal error stops the loop; everything else retries after the fixed
/// pause.
pub fn next_retry_step<E: RetryableError>(outcome: &Result<(), E>) -> (r: RetryStep)
    ensures
        r == RetryStep::Stop <==> (outcome matches Err(e) && e.spec_is_fatal()),
        r != RetryStep::Stop ==> r == RetryStep::PauseThenRetry(RETRY_PAUSE_MS),
{
    match outcome {
        Err(e) => {
            if e.is_fatal() {
                RetryStep::Stop
            } else {
                RetryStep::PauseThenRetry(RETRY_PAUSE_MS)
            }
        }
        Ok(_) => RetryStep::PauseThenRetry(RETRY_PAUSE_MS),
    }
}

} // verus!
