use aw_datastore::retry::{RetryDecision, RetryPolicy};

fn policy(max_attempts: u32, initial_delay_ms: u64, max_delay_ms: u64) -> RetryPolicy {
    RetryPolicy { max_attempts, initial_delay_ms, max_delay_ms }
}

/// Runs the decisions of the retry loop for an operation whose attempts fail
/// with the given errors until `succeed_at` (1-based), returning how many
/// attempts were made and whether it succeeded.
fn run(policy: &RetryPolicy, error: &str, succeed_at: Option<u32>) -> (u32, bool) {
    let mut rng = rand::thread_rng();
    let mut attempt = 0u32;
    loop {
        attempt += 1;
        if Some(attempt) == succeed_at {
            return (attempt, true);
        }
        let text = format!("{:?}", error);
        match policy.after_failure(attempt, &text, &mut rng) {
            RetryDecision::GiveUp => return (attempt, false),
            RetryDecision::RetryAfter(_) => {}
        }
    }
}

#[test]
fn default_policy() {
    let p = RetryPolicy::default();
    assert_eq!(p.max_attempts, 5);
    assert_eq!(p.initial_delay_ms, 100);
    assert_eq!(p.max_delay_ms, 5000);
}

#[test]
fn transient_errors_are_retried_until_success() {
    let p = policy(5, 10, 100);
    assert_eq!(run(&p, "connection timeout: database unavailable", Some(4)), (4, true));
}

#[test]
fn permanent_errors_stop_after_one_attempt() {
    let p = policy(5, 10, 100);
    assert_eq!(run(&p, "authentication failed: invalid credentials", None), (1, false));
    assert_eq!(run(&RetryPolicy::default(), "syntax error", None), (1, false));
}

#[test]
fn attempts_stop_at_the_maximum() {
    assert_eq!(run(&policy(3, 10, 100), "connection timeout: database unavailable", None), (3, false));
    assert_eq!(run(&policy(2, 10, 100), "connection timeout", None), (2, false));
    assert_eq!(run(&policy(10, 100, 200), "connection timeout on attempt 1", None), (10, false));
}

#[test]
fn zero_attempts_still_make_one() {
    assert_eq!(run(&policy(0, 10, 100), "connection timeout", None), (1, false));
}

#[test]
fn transient_patterns() {
    for e in [
        "deadlock detected: retry transaction",
        "serialization failure: concurrent update",
        "PoolTimeout: failed to get connection from pool",
        "pool timeout",
        "connection refused",
        "connection timeout",
        "broken pipe",
        "too many connections for role",
    ] {
        assert!(RetryPolicy::is_transient_error(&format!("{:?}", e)), "{}", e);
    }
    for e in ["syntax error", "refused", "timeout", "authentication failed", ""] {
        assert!(!RetryPolicy::is_transient_error(e), "{}", e);
    }
}

#[test]
fn backoff_doubles_and_is_capped() {
    let p = policy(10, 100, 200);
    assert_eq!(p.backoff_delay(1), 100);
    assert_eq!(p.backoff_delay(2), 200);
    assert_eq!(p.backoff_delay(3), 200);
    let q = policy(4, 50, 5000);
    assert_eq!(q.backoff_delay(1), 50);
    assert_eq!(q.backoff_delay(2), 100);
    assert_eq!(q.backoff_delay(3), 200);
}

#[test]
fn jitter_is_within_a_quarter() {
    assert_eq!(RetryPolicy::jittered_delay(100, 0), 75);
    assert_eq!(RetryPolicy::jittered_delay(100, 50), 125);
    assert_eq!(RetryPolicy::jittered_delay(100, 25), 100);
    let p = policy(2, 100, 500);
    let mut rng = rand::thread_rng();
    let mut delays = Vec::new();
    for _ in 0..50 {
        match p.after_failure(1, "connection timeout", &mut rng) {
            RetryDecision::RetryAfter(ms) => {
                assert!((75..=125).contains(&ms), "{}", ms);
                delays.push(ms);
            }
            RetryDecision::GiveUp => panic!("expected a retry"),
        }
    }
    assert!(delays.iter().any(|d| *d != delays[0]), "jitter never varied: {:?}", delays);
}
