use tx_monitor::retry::{Retry, RetryAction, RetryPolicy, MAX_ATTEMPTS, RETRY_DELAY_MS};

/// Runs the retry loop against an operation that fails `failures` times and
/// then succeeds; returns the number of invocations and whether it succeeded.
fn run(policy: RetryPolicy, failures: u32) -> (u32, bool) {
    let mut retry = Retry::new(policy);
    let mut invocations = 0u32;
    loop {
        invocations += 1;
        let ok = invocations > failures;
        match retry.record(ok) {
            RetryAction::Finish => return (invocations, ok),
            RetryAction::RetryAfter { delay_ms } => assert_eq!(delay_ms, policy.delay_ms),
        }
    }
}

#[test]
fn standard_policy() {
    let p = RetryPolicy::standard();
    assert_eq!(p.max_attempts, 6);
    assert_eq!(p.delay_ms, 15_000);
    assert_eq!(MAX_ATTEMPTS, 6);
    assert_eq!(RETRY_DELAY_MS, 15_000);
}

#[test]
fn success_first_time() {
    assert_eq!(run(RetryPolicy::standard(), 0), (1, true));
}

#[test]
fn fails_then_succeeds_within_cap() {
    for n in 0..6 {
        assert_eq!(run(RetryPolicy::standard(), n), (n + 1, true));
    }
}

#[test]
fn fails_beyond_cap() {
    assert_eq!(run(RetryPolicy::standard(), 6), (6, false));
    assert_eq!(run(RetryPolicy::standard(), 50), (6, false));
}

#[test]
fn single_attempt_policy() {
    let p = RetryPolicy { max_attempts: 1, delay_ms: 0 };
    assert_eq!(run(p, 0), (1, true));
    assert_eq!(run(p, 1), (1, false));
}

#[test]
fn record_counts_attempts() {
    let mut r = Retry::new(RetryPolicy { max_attempts: 3, delay_ms: 250 });
    assert_eq!(r.record(false), RetryAction::RetryAfter { delay_ms: 250 });
    assert_eq!(r.attempts, 1);
    assert_eq!(r.record(false), RetryAction::RetryAfter { delay_ms: 250 });
    assert_eq!(r.record(false), RetryAction::Finish);
    assert_eq!(r.attempts, 3);
}
