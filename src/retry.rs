//! Bounded retry: how many times a fallible operation is attempted and how
//! long to wait between attempts. The caller performs the operation and
//! reports each outcome; the state machine answers whether to stop or to try
//! again after a delay.
use vstd::prelude::*;

verus! {

/// Attempts made before the last failure is handed back.
pub const MAX_ATTEMPTS: u32 = 6;

/// Wait between a failed attempt and the next one, in milliseconds.
pub const RETRY_DELAY_MS: u64 = 15_000;

#[derive(Clone, Copy, Debug, PartialEq, Eq, Structural)]
pub struct RetryPolicy {
    pub max_attempts: u32,
    pub delay_ms: u64,
}

impl RetryPolicy {
    /// The policy used for submissions and metric uploads alike.
    pub fn standard() -> (r: RetryPolicy)
        ensures
            r.max_attempts == MAX_ATTEMPTS,
            r.delay_ms == RETRY_DELAY_MS,
    {
        RetryPolicy { max_attempts: MAX_ATTEMPTS, delay_ms: RETRY_DELAY_MS }
    }
}

/// What the caller does after reporting an attempt's outcome.
#[derive(Clone, Copy, Debug, PartialEq, Eq, Structural)]
pub enum RetryAction {
    /// Hand the outcome of the last attempt to the caller.
    Finish,
    /// Wait this long, then attempt again.
    RetryAfter { delay_ms: u64 },
}

/// Progress of one retried operation.
#[derive(Clone, Copy, Debug, PartialEq, Eq, Structural)]
pub struct Retry {
    pub policy: RetryPolicy,
    /// Attempts whose outcome has been reported.
    pub attempts: u32,
}

impl Retry {
    /// Another attempt may still be made and reported.
    pub open spec fn can_attempt(self) -> bool {
        self.attempts < self.policy.max_attempts
    }

    /// The state and the action that follow reporting one outcome.
    pub open spec fn after(self, succeeded: bool) -> (Retry, RetryAction) {
        let next = Retry { policy: self.policy, attempts: (self.attempts + 1) as u32 };
        if succeeded || next.attempts >= self.policy.max_attempts {
            (next, RetryAction::Finish)
        } else {
            (next, RetryAction::RetryAfter { delay_ms: self.policy.delay_ms })
        }
    }

    pub fn new(policy: RetryPolicy) -> (r: Retry)
        requires
            policy.max_attempts >= 1,
        ensures
            r.policy == policy,
            r.attempts == 0,
            r.can_attempt(),
    {
        Retry { policy, attempts: 0 }
    }

    /// Reports the outcome of the attempt just made. The operation is
    /// attempted again, after the policy's delay, only when it failed and
    /// attempts remain.
    pub fn record(&mut self, succeeded: bool) -> (action: RetryAction)
        requires
            old(self).can_attempt(),
        ensures
            (*final(self), action) == old(self).after(succeeded),
            final(self).attempts == old(self).attempts + 1,
            final(self).policy == old(self).policy,
            action == RetryAction::Finish <==> (succeeded || !final(self).can_attempt()),
            action is RetryAfter ==> final(self).can_attempt(),
    {
        self.attempts = self.attempts + 1;
        if succeeded || self.attempts >= self.policy.max_attempts {
            RetryAction::Finish
        } else {
            RetryAction::RetryAfter { delay_ms: self.policy.delay_ms }
        }
    }
}

/// Runs the retry loop against an operation that fails on its first
/// `failures` attempts and succeeds afterwards. Returns the final state and
/// whether the outcome handed back was a success.
pub open spec fn drive(r: Retry, failures: nat) -> (Retry, bool)
    decreases r.policy.max_attempts - r.attempts,
{
    let succeeded = r.attempts >= failures;
    let (next, action) = r.after(succeeded);
    if action == RetryAction::Finish || r.attempts >= r.policy.max_attempts {
        (next, succeeded)
    } else {
        drive(next, failures)
    }
}

proof fn lemma_drive_from(r: Retry, failures: nat)
    requires
        r.attempts <= failures,
        r.can_attempt(),
    ensures
        failures < r.policy.max_attempts ==> drive(r, failures) == (
            Retry { policy: r.policy, attempts: (failures + 1) as u32 },
            true,
        ),
        failures >= r.policy.max_attempts ==> drive(r, failures) == (
            Retry { policy: r.policy, attempts: r.policy.max_attempts },
            false,
        ),
    decreases r.policy.max_attempts - r.attempts,
{
    let (next, action) = r.after(r.attempts >= failures);
    if action != RetryAction::Finish {
        lemma_drive_from(next, failures);
    }
}

/// An operation that fails exactly `failures` times and then succeeds:
/// when `failures` is below the attempt cap, the retry loop hands back the
/// success after exactly `failures + 1` attempts; otherwise it hands back
/// the last failure after exactly the cap of attempts.
pub proof fn retry_attempt_count(policy: RetryPolicy, failures: nat)
    requires
        policy.max_attempts >= 1,
    ensures
        failures < policy.max_attempts ==> drive(Retry { policy, attempts: 0 }, failures) == (
            Retry { policy, attempts: (failures + 1) as u32 },
            true,
        ),
        failures >= policy.max_attempts ==> drive(Retry { policy, attempts: 0 }, failures) == (
            Retry { policy, attempts: policy.max_attempts },
            false,
        ),
{
    lemma_drive_from(Retry { policy, attempts: 0 }, failures);
}

} // verus!
