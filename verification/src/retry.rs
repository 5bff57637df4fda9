//! Exponential-backoff retry decisions for transient database errors.
//!
//! The loop that runs an operation, sleeps and tries again lives with the
//! asynchronous caller; every decision it takes is made here: which errors are
//! transient, whether another attempt is due, and how long to wait before it.
use rand::rngs::ThreadRng;
use rand::Rng;
use vstd::prelude::*;

use crate::text::{contains_str, contains_text};

verus! {

#[verifier::external_type_specification]
#[verifier::external_body]
pub struct ExThreadRng(ThreadRng);

/// Draws a number from `0..=hi` with `rand::Rng::gen_range` on the
/// thread-local generator. Claimed: the number lies in `0..=hi` (the range is
/// never empty, so `gen_range` does not panic). Which number comes out is left
/// open: it is random.
#[verifier::external_body]
fn draw_up_to(rng: &mut ThreadRng, hi: u64) -> (r: u64)
    ensures
        r <= hi,
{
    rng.gen_range(0..=hi)
}

/// Exponential backoff policy for transient database errors.
#[derive(Debug, Clone)]
pub struct RetryPolicy {
    pub max_attempts: u32,
    pub initial_delay_ms: u64,
    pub max_delay_ms: u64,
}

/// `2` to the power `k`.
pub open spec fn two_pow(k: nat) -> nat
    decreases k,
{
    if k == 0 {
        1
    } else {
        2 * two_pow((k - 1) as nat)
    }
}

/// The error text (its `Debug` rendering) names a failure that may go away
/// on its own: a refused or timed-out connection, a broken pipe, a
/// serialization failure, a deadlock, too many connections, or a pool timeout.
pub open spec fn transient_text(e: Seq<char>) -> bool {
    ||| (contains_text(e, "connection"@) && contains_text(e, "refused"@))
    ||| (contains_text(e, "connection"@) && contains_text(e, "timeout"@))
    ||| contains_text(e, "broken pipe"@)
    ||| contains_text(e, "serialization"@)
    ||| contains_text(e, "deadlock"@)
    ||| contains_text(e, "too many connections"@)
    ||| contains_text(e, "pool timeout"@)
    ||| contains_text(e, "PoolTimeout"@)
}

/// The delay before the attempt after attempt number `attempt` (counted from
/// one) can be computed without overflow: `initial_delay_ms * 2^(attempt - 1)`
/// fits in 64 bits, and so does the largest jittered delay.
pub open spec fn backoff_fits(p: RetryPolicy, attempt: nat) -> bool {
    &&& 1 <= attempt
    &&& attempt - 1 < 64
    &&& p.initial_delay_ms * two_pow((attempt - 1) as nat) <= u64::MAX
    &&& backoff(p, attempt) + backoff(p, attempt) / 4 <= u64::MAX
}

/// The delay before the next attempt after attempt number `attempt` failed:
/// `initial_delay_ms * 2^(attempt - 1)`, capped at `max_delay_ms`.
pub open spec fn backoff(p: RetryPolicy, attempt: nat) -> int {
    let base = p.initial_delay_ms * two_pow((attempt - 1) as nat);
    if base <= p.max_delay_ms {
        base
    } else {
        p.max_delay_ms as int
    }
}

/// The delay after jitter: a quarter of `delay` is taken off, and `jitter`
/// (at most half of `delay`) is added back, giving `delay` ± 25%.
pub open spec fn jittered(delay: u64, jitter: u64) -> int {
    (delay - delay / 4) + jitter
}

/// After attempt number `attempt` failed with `error`, another attempt is due:
/// attempts are left, and the error is transient.
pub open spec fn should_retry(p: RetryPolicy, attempt: nat, error: Seq<char>) -> bool {
    attempt < p.max_attempts && transient_text(error)
}

/// What to do after a failed attempt.
#[derive(Debug, Clone, Copy, PartialEq, Eq)]
pub enum RetryDecision {
    /// Return the error to the caller.
    GiveUp,
    /// Sleep this many milliseconds, then make the next attempt.
    RetryAfter(u64),
}

proof fn lemma_two_pow_monotone(a: nat, b: nat)
    requires
        a <= b,
    ensures
        1 <= two_pow(a) <= two_pow(b),
    decreases b,
{
    if b > a {
        lemma_two_pow_monotone(a, (b - 1) as nat);
    } else if a > 0 {
        lemma_two_pow_monotone((a - 1) as nat, (a - 1) as nat);
    }
}

fn two_pow_u64(k: u32) -> (r: u64)
    requires
        k < 64,
    ensures
        r == two_pow(k as nat),
{
    proof {
        reveal_with_fuel(two_pow, 64);
        assert(two_pow(63) == 0x8000_0000_0000_0000);
    }
    let mut p: u64 = 1;
    let mut i: u32 = 0;
    while i < k
        invariant
            i <= k < 64,
            p == two_pow(i as nat),
            two_pow(63) == 0x8000_0000_0000_0000,
        decreases k - i,
    {
        proof {
            lemma_two_pow_monotone(i as nat, 62);
            reveal_with_fuel(two_pow, 2);
            assert(two_pow(63) == 2 * two_pow(62));
        }
        p = p * 2;
        i = i + 1;
    }
    p
}

impl RetryPolicy {
    /// Whether the error, given by its `Debug` rendering, is transient and
    /// worth another attempt.
    pub fn is_transient_error(error_text: &str) -> (r: bool)
        ensures
            r == transient_text(error_text@),
    {
        (contains_str(error_text, "connection") && contains_str(error_text, "refused"))
            || (contains_str(error_text, "connection") && contains_str(error_text, "timeout"))
            || contains_str(error_text, "broken pipe") || contains_str(error_text, "serialization")
            || contains_str(error_text, "deadlock") || contains_str(
            error_text,
            "too many connections",
        ) || contains_str(error_text, "pool timeout") || contains_str(error_text, "PoolTimeout")
    }

    /// The delay before the next attempt after attempt number `attempt` failed,
    /// before jitter.
    pub fn backoff_delay(&self, attempt: u32) -> (r: u64)
        requires
            backoff_fits(*self, attempt as nat),
        ensures
            r == backoff(*self, attempt as nat),
    {
        let factor = two_pow_u64(attempt - 1);
        let base = self.initial_delay_ms * factor;
        if base <= self.max_delay_ms {
            base
        } else {
            self.max_delay_ms
        }
    }

    /// The delay after jitter: `delay - delay / 4 + jitter`.
    pub fn jittered_delay(delay: u64, jitter: u64) -> (r: u64)
        requires
            jitter <= 2 * (delay / 4),
            jittered(delay, jitter) <= u64::MAX,
        ensures
            r == jittered(delay, jitter),
    {
        let range = delay / 4;
        delay - range + jitter
    }

    /// Decides what follows a failed attempt number `attempt` (counted from
    /// one) whose error renders as `error_text`: give up when the attempts are
    /// used up or the error is permanent, else wait the backoff delay with
    /// ±25% random jitter.
    pub fn after_failure(&self, attempt: u32, error_text: &str, rng: &mut ThreadRng) -> (d:
        RetryDecision)
        requires
            1 <= attempt,
            should_retry(*self, attempt as nat, error_text@) ==> backoff_fits(
                *self,
                attempt as nat,
            ),
        ensures
            (d == RetryDecision::GiveUp) <==> !should_retry(*self, attempt as nat, error_text@),
            !transient_text(error_text@) ==> d == RetryDecision::GiveUp,
            attempt >= self.max_attempts ==> d == RetryDecision::GiveUp,
            transient_text(error_text@) && attempt < self.max_attempts ==> d matches RetryDecision::RetryAfter(_),
            d matches RetryDecision::RetryAfter(ms) ==> {
                let delay = backoff(*self, attempt as nat) as u64;
                delay - delay / 4 <= ms <= delay - delay / 4 + 2 * (delay / 4)
            },
    {
        if attempt >= self.max_attempts {
            return RetryDecision::GiveUp;
        }
        if !Self::is_transient_error(error_text) {
            return RetryDecision::GiveUp;
        }
        let delay = self.backoff_delay(attempt);
        let range = delay / 4;
        let jitter = draw_up_to(rng, range * 2);
        RetryDecision::RetryAfter(Self::jittered_delay(delay, jitter))
    }
}

impl Default for RetryPolicy {
    fn default() -> (p: Self)
        ensures
            p.max_attempts == 5,
            p.initial_delay_ms == 100,
            p.max_delay_ms == 5000,
    {
        RetryPolicy { max_attempts: 5, initial_delay_ms: 100, max_delay_ms: 5000 }
    }
}

/// How many attempts the retry loop makes when every attempt fails and
/// attempt number `k` fails with the error text `error_at(k)`, counting from
/// attempt number `attempt`.
pub open spec fn failing_run_length(
    p: RetryPolicy,
    error_at: spec_fn(nat) -> Seq<char>,
    attempt: nat,
) -> nat
    decreases p.max_attempts - attempt,
{
    if should_retry(p, attempt, error_at(attempt)) {
        failing_run_length(p, error_at, attempt + 1)
    } else {
        attempt
    }
}

/// The retry loop never makes more than `max_attempts` attempts (and always
/// makes one); a permanent first error ends it after that one attempt; and
/// when every error is transient it makes exactly `max_attempts` attempts.
pub proof fn law_attempts_bounded(p: RetryPolicy, error_at: spec_fn(nat) -> Seq<char>)
    ensures
        1 <= failing_run_length(p, error_at, 1),
        failing_run_length(p, error_at, 1) <= if p.max_attempts >= 1 {
            p.max_attempts as nat
        } else {
            1
        },
        !transient_text(error_at(1)) ==> failing_run_length(p, error_at, 1) == 1,
        (forall|k: nat| #[trigger] transient_text(error_at(k))) && p.max_attempts >= 1
            ==> failing_run_length(p, error_at, 1) == p.max_attempts,
{
    lemma_run_length_from(p, error_at, 1);
}

proof fn lemma_run_length_from(p: RetryPolicy, error_at: spec_fn(nat) -> Seq<char>, attempt: nat)
    requires
        attempt >= 1,
    ensures
        attempt <= failing_run_length(p, error_at, attempt),
        failing_run_length(p, error_at, attempt) <= if p.max_attempts >= attempt {
            p.max_attempts as nat
        } else {
            attempt
        },
        (forall|k: nat| #[trigger] transient_text(error_at(k))) && p.max_attempts >= attempt
            ==> failing_run_length(p, error_at, attempt) == p.max_attempts,
    decreases p.max_attempts - attempt,
{
    if should_retry(p, attempt, error_at(attempt)) {
        lemma_run_length_from(p, error_at, attempt + 1);
    }
}

/// Whatever the attempt number, a permanent error is never retried: it goes
/// back to the caller at once, after the first attempt as after any later one.
/// Once the attempts are used up nothing is retried either, and a transient
/// error with attempts left always is.
pub proof fn law_permanent_error_never_retried(p: RetryPolicy, attempt: nat, error: Seq<char>)
    ensures
        !transient_text(error) ==> !should_retry(p, attempt, error),
        attempt >= p.max_attempts ==> !should_retry(p, attempt, error),
        transient_text(error) && attempt < p.max_attempts ==> should_retry(p, attempt, error),
{
}

/// When the first permanent error comes at attempt number `k`, within the
/// allowed attempts, after transient errors only, the retry loop makes exactly
/// `k` attempts: it stops at that error, whichever attempt it falls on.
pub proof fn law_run_stops_at_first_permanent(
    p: RetryPolicy,
    error_at: spec_fn(nat) -> Seq<char>,
    k: nat,
)
    requires
        1 <= k <= p.max_attempts,
        forall|j: nat| 1 <= j < k ==> #[trigger] transient_text(error_at(j)),
        !transient_text(error_at(k)),
    ensures
        failing_run_length(p, error_at, 1) == k,
{
    lemma_run_stops_from(p, error_at, k, 1);
}

proof fn lemma_run_stops_from(p: RetryPolicy, error_at: spec_fn(nat) -> Seq<char>, k: nat, a: nat)
    requires
        1 <= a <= k <= p.max_attempts,
        forall|j: nat| 1 <= j < k ==> #[trigger] transient_text(error_at(j)),
        !transient_text(error_at(k)),
    ensures
        failing_run_length(p, error_at, a) == k,
    decreases k - a,
{
    if a < k {
        assert(transient_text(error_at(a)));
        lemma_run_stops_from(p, error_at, k, a + 1);
    }
}

/// Jitter keeps the delay within 25% of the backoff delay: the jittered delay
/// lies between `delay - delay / 4` and `delay + delay / 4`.
pub proof fn law_jitter_within_quarter(delay: u64, jitter: u64)
    requires
        jitter <= 2 * (delay / 4),
    ensures
        delay - delay / 4 <= jittered(delay, jitter) <= delay + delay / 4,
        4 * jittered(delay, jitter) >= 3 * delay,
        4 * jittered(delay, jitter) <= 5 * delay,
{
}

/// The backoff delay never exceeds `max_delay_ms`, and it never shrinks from
/// one attempt to a later one.
pub proof fn law_backoff_capped_and_growing(p: RetryPolicy, a: nat, b: nat)
    requires
        1 <= a <= b,
    ensures
        backoff(p, a) <= p.max_delay_ms,
        backoff(p, a) <= backoff(p, b),
{
    lemma_two_pow_monotone((a - 1) as nat, (b - 1) as nat);
    let x = two_pow((a - 1) as nat);
    let y = two_pow((b - 1) as nat);
    assert(p.initial_delay_ms * x <= p.initial_delay_ms * y) by (nonlinear_arith)
        requires
            x <= y,
    ;
}

} // verus!
