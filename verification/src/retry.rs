//! Retry policy for fallible requests: linear backoff capped at 30 seconds,
//! retrying only transient failures, at most `max_retries` times.
//!
//! The policy is a small state machine. A caller runs attempt `n` (starting
//! at 0), and on failure asks [`Backoff::after_failure`] whether to give up or
//! to wait and run attempt `n + 1`. Durations are counted in nanoseconds.

use vstd::prelude::*;

use crate::error::{is_transient_error, Error};

verus! {

/// Upper bound on a single backoff delay: 30 seconds, in nanoseconds.
pub const MAX_BACKOFF_NANOS: u128 = 30_000_000_000;

/// The largest `std::time::Duration`, in nanoseconds.
pub const MAX_DURATION_NANOS: u128 = 18_446_744_073_709_551_615_999_999_999;

/// Delay before retry number `attempt + 1`: `base * (attempt + 1)`, capped at 30 s.
pub open spec fn backoff_delay(base_nanos: int, attempt: int) -> int {
    let d = base_nanos * (attempt + 1);
    if d < MAX_BACKOFF_NANOS as int {
        d
    } else {
        MAX_BACKOFF_NANOS as int
    }
}

/// What to do after a failed attempt.
#[derive(Debug, PartialEq, Eq)]
pub enum RetryStep {
    /// Return the failure to the caller.
    GiveUp,
    /// Sleep for `delay_nanos`, then run the next attempt.
    RetryAfter { delay_nanos: u128 },
}

/// Retry state: the policy and the number of the attempt being run.
pub struct Backoff {
    pub max_retries: u32,
    pub base_nanos: u128,
    pub attempt: u32,
}

impl Backoff {
    /// The attempt number never passes the retry budget.
    pub open spec fn wf(&self) -> bool {
        self.attempt <= self.max_retries && self.base_nanos <= MAX_DURATION_NANOS
    }

    /// A fresh policy, about to run attempt 0.
    pub fn new(max_retries: u32, base_nanos: u128) -> (b: Backoff)
        requires
            base_nanos <= MAX_DURATION_NANOS,
        ensures
            b.wf(),
            b.max_retries == max_retries,
            b.base_nanos == base_nanos,
            b.attempt == 0,
    {
        Backoff { max_retries, base_nanos, attempt: 0 }
    }

    /// Decides what follows the failure `e` of the current attempt: retry a
    /// transient failure while retries remain, after the linear delay; give
    /// up otherwise.
    pub fn after_failure(&mut self, e: &Error) -> (step: RetryStep)
        requires
            old(self).wf(),
        ensures
            final(self).wf(),
            final(self).max_retries == old(self).max_retries,
            final(self).base_nanos == old(self).base_nanos,
            if old(self).attempt < old(self).max_retries && is_transient_error(e) {
                &&& step == RetryStep::RetryAfter {
                    delay_nanos: backoff_delay(
                        old(self).base_nanos as int,
                        old(self).attempt as int,
                    ) as u128,
                }
                &&& final(self).attempt == old(self).attempt + 1
            } else {
                &&& step == RetryStep::GiveUp
                &&& final(self).attempt == old(self).attempt
            },
    {
        if self.attempt < self.max_retries && e.is_transient() {
            let k: u128 = (self.attempt as u128) + 1;
            assert(self.base_nanos * k <= MAX_DURATION_NANOS * 4294967296) by (nonlinear_arith)
                requires
                    self.base_nanos <= MAX_DURATION_NANOS,
                    k <= 4294967296,
            ;
            let raw: u128 = self.base_nanos * k;
            let delay: u128 = if raw < MAX_BACKOFF_NANOS {
                raw
            } else {
                MAX_BACKOFF_NANOS
            };
            self.attempt = self.attempt + 1;
            RetryStep::RetryAfter { delay_nanos: delay }
        } else {
            RetryStep::GiveUp
        }
    }
}

/// The outcome of one attempt, as far as the policy cares.
pub enum AttemptOutcome {
    Success,
    Failure { transient: bool },
}

/// Number of attempts a run makes when attempt `attempt + i` ends with
/// `outcomes[i]`: a success stops the run, a failure stops it unless it is
/// transient and retries remain; a run whose outcomes are used up stops too.
pub open spec fn attempts_made(max_retries: nat, attempt: nat, outcomes: Seq<AttemptOutcome>) -> nat
    decreases outcomes.len(),
{
    if outcomes.len() == 0 {
        0
    } else {
        match outcomes[0] {
            AttemptOutcome::Success => 1,
            AttemptOutcome::Failure { transient } => if transient && attempt < max_retries {
                1 + attempts_made(max_retries, attempt + 1, outcomes.drop_first())
            } else {
                1
            },
        }
    }
}

/// However the attempts turn out, a run from attempt `attempt` makes at most
/// `max_retries - attempt + 1` of them; from a fresh policy, at most
/// `max_retries + 1` (the first attempt and `max_retries` retries).
pub proof fn lemma_attempts_bounded(max_retries: nat, attempt: nat, outcomes: Seq<AttemptOutcome>)
    requires
        attempt <= max_retries,
    ensures
        attempts_made(max_retries, attempt, outcomes) <= max_retries - attempt + 1,
    decreases outcomes.len(),
{
    if outcomes.len() > 0 {
        match outcomes[0] {
            AttemptOutcome::Success => {},
            AttemptOutcome::Failure { transient } => {
                if transient && attempt < max_retries {
                    lemma_attempts_bounded(max_retries, attempt + 1, outcomes.drop_first());
                }
            },
        }
    }
}

/// The policy never waits longer than 30 seconds, and never less than the
/// base delay while that is below the cap.
pub proof fn lemma_backoff_delay_bounds(base_nanos: nat, attempt: nat)
    ensures
        backoff_delay(base_nanos as int, attempt as int) <= MAX_BACKOFF_NANOS,
        base_nanos <= MAX_BACKOFF_NANOS ==> base_nanos <= backoff_delay(base_nanos as int, attempt as int),
{
    assert(base_nanos <= base_nanos * (attempt + 1)) by (nonlinear_arith);
}

} // verus!
