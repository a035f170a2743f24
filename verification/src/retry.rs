//! Retrying an operation.
use vstd::prelude::*;

use crate::error::AeonError;

verus! {

/// What became of an operation that may be retried.
pub enum RetryOutcome<T> {
    /// It succeeded, with this attempt.
    Success { value: T, attempts: u32 },
    /// It failed as often as it may.
    Exhausted { last_error: AeonError, attempts: u32 },
    /// It failed in a way that no retry mends.
    NonRetryable { error: AeonError, attempts: u32 },
}

impl<T> RetryOutcome<T> {
    /// How many attempts were made.
    pub open spec fn count(self) -> u32 {
        match self {
            RetryOutcome::Success { attempts, .. } => attempts,
            RetryOutcome::Exhausted { attempts, .. } => attempts,
            RetryOutcome::NonRetryable { attempts, .. } => attempts,
        }
    }
}

/// What to do after an attempt.
pub enum RetryStep<T> {
    Done(RetryOutcome<T>),
    /// Wait for the delay of this retry, counted from zero, and try again.
    Again { retry: u32 },
}

/// An operation that is being retried.
pub struct RetryState {
    pub max_retries: u32,
    /// How many attempts have failed.
    pub failed: u32,
}

impl RetryState {
    /// Another attempt may be made, and can be counted.
    pub open spec fn wf(&self) -> bool {
        self.failed <= self.max_retries && self.failed < u32::MAX
    }

    /// An operation of which no attempt has been made.
    pub fn new(max_retries: u32) -> (r: Self)
        ensures
            r.wf(),
            r == (RetryState { max_retries, failed: 0 }),
    {
        RetryState { max_retries, failed: 0 }
    }

    /// Decides what to do after an attempt. Only errors that say so are retried, and no more
    /// often than allowed: an operation is attempted at most once more than it may be retried.
    pub fn attempted<T>(&mut self, result: Result<T, AeonError>) -> (r: RetryStep<T>)
        requires
            old(self).wf(),
        ensures
            final(self).max_retries == old(self).max_retries,
            match result {
                Ok(value) => r == RetryStep::Done(
                    RetryOutcome::Success { value, attempts: (old(self).failed + 1) as u32 },
                ) && final(self).failed == old(self).failed,
                Err(e) => {
                    &&& final(self).failed == old(self).failed + 1
                    &&& r == (if !e.retryable() {
                        RetryStep::<T>::Done(
                            RetryOutcome::NonRetryable { error: e, attempts: final(self).failed },
                        )
                    } else if final(self).failed > old(self).max_retries {
                        RetryStep::Done(
                            RetryOutcome::Exhausted {
                                last_error: e,
                                attempts: final(self).failed,
                            },
                        )
                    } else {
                        RetryStep::Again { retry: old(self).failed }
                    })
                },
            },
            r is Again && final(self).failed < u32::MAX ==> final(self).wf(),
            r is Done ==> 1 <= r->Done_0.count() <= old(self).max_retries + 1,
    {
        match result {
            Ok(value) => RetryStep::Done(
                RetryOutcome::Success { value, attempts: self.failed + 1 },
            ),
            Err(e) => {
                let retry: u32 = self.failed;
                self.failed = self.failed + 1;
                if !e.is_retryable() {
                    return RetryStep::Done(
                        RetryOutcome::NonRetryable { error: e, attempts: self.failed },
                    );
                }
                if self.failed > self.max_retries {
                    return RetryStep::Done(
                        RetryOutcome::Exhausted { last_error: e, attempts: self.failed },
                    );
                }
                RetryStep::Again { retry }
            },
        }
    }
}

/// Whether an operation may fail with each of some errors, all of which can be retried.
pub open spec fn fails_with<T, F: FnMut() -> Result<T, AeonError>>(
    operation: F,
    errors: Seq<AeonError>,
) -> bool {
    forall|i: int|
        0 <= i < errors.len() ==> (#[trigger] errors[i]).retryable() && call_ensures(
            operation,
            (),
            Err::<T, AeonError>(errors[i]),
        )
}

/// Whether an outcome follows from the attempts: each one before the last failed with an error
/// that can be retried, and the last one decided.
pub open spec fn follows_from<T, F: FnMut() -> Result<T, AeonError>>(
    operation: F,
    outcome: RetryOutcome<T>,
    max_retries: u32,
    before: Seq<AeonError>,
) -> bool {
    &&& fails_with::<T, F>(operation, before)
    &&& before.len() <= max_retries
    &&& outcome.count() == before.len() + 1
    &&& match outcome {
        RetryOutcome::Success { value, .. } => call_ensures(operation, (), Ok(value)),
        RetryOutcome::Exhausted { last_error, .. } => before.len() == max_retries
            && last_error.retryable() && call_ensures(operation, (), Err(last_error)),
        RetryOutcome::NonRetryable { error, .. } => !error.retryable() && call_ensures(
            operation,
            (),
            Err(error),
        ),
    }
}

/// Runs an operation until it succeeds, fails for good, or has been retried as often as allowed,
/// without waiting between the attempts.
pub fn retry_sync<T, F: FnMut() -> Result<T, AeonError>>(max_retries: u32, operation: F) -> (r:
    RetryOutcome<T>)
    requires
        max_retries < u32::MAX,
        call_requires(operation, ()),
    ensures
        exists|before: Seq<AeonError>| #[trigger]
            follows_from(operation, r, max_retries, before),
{
    let mut run = operation;
    let mut state = RetryState::new(max_retries);
    let ghost mut before: Seq<AeonError> = Seq::empty();
    loop
        invariant
            run == operation,
            call_requires(run, ()),
            max_retries < u32::MAX,
            state.wf(),
            state.max_retries == max_retries,
            state.failed == before.len(),
            fails_with::<T, F>(operation, before),
        decreases max_retries - state.failed,
    {
        let result = run();
        let ghost answer = result;
        match state.attempted(result) {
            RetryStep::Done(outcome) => {
                assert(follows_from(operation, outcome, max_retries, before));
                return outcome;
            },
            RetryStep::Again { .. } => {
                proof {
                    before = before.push(answer->Err_0);
                }
            },
        }
    }
}

/// However often an operation is retried, each attempt but the last failed in a way that a retry
/// may mend; no more attempts are made than allowed; and it is given up only for an error that no
/// retry mends, or with no retry left.
pub proof fn law_retries_end<T, F: FnMut() -> Result<T, AeonError>>(
    operation: F,
    outcome: RetryOutcome<T>,
    max_retries: u32,
    before: Seq<AeonError>,
)
    requires
        follows_from(operation, outcome, max_retries, before),
    ensures
        forall|i: int|
            0 <= i < before.len() ==> (#[trigger] before[i]).retryable() && call_ensures(
                operation,
                (),
                Err::<T, AeonError>(before[i]),
            ),
        outcome matches RetryOutcome::Success { value, attempts } ==> {
            &&& attempts == before.len() + 1
            &&& attempts <= max_retries + 1
            &&& call_ensures(operation, (), Ok(value))
        },
        outcome matches RetryOutcome::Exhausted { last_error, attempts } ==> {
            &&& attempts == before.len() + 1
            &&& attempts == max_retries + 1
            &&& last_error.retryable()
            &&& call_ensures(operation, (), Err(last_error))
        },
        outcome matches RetryOutcome::NonRetryable { error, attempts } ==> {
            &&& attempts == before.len() + 1
            &&& attempts <= max_retries + 1
            &&& !error.retryable()
            &&& call_ensures(operation, (), Err(error))
        },
{
}

} // verus!
