//! Retry decisions for the fetch client.
//!
//! A fetch is retried only on transient failures: network errors and
//! server-side error statuses. The wait between attempts grows by a fixed
//! base from a floor up to a ceiling, with bounded jitter, and the number
//! of retries is capped; exhaustion surfaces as a permanent fetch error.
//! Cancellation wins over every retry consideration. The caller performs
//! the attempts and the waiting; the decisions are all here.

use vstd::prelude::*;

verus! {

/// How one fetch attempt ended, as the caller saw it.
#[derive(Debug, Clone, Copy, PartialEq, Eq, Structural)]
pub enum AttemptOutcome {
    /// A response arrived with this status.
    Status(u16),
    /// No response: the connection failed or timed out.
    NetworkError,
    /// The cancellation signal fired before a response arrived.
    Cancelled,
}

/// Why a fetch gave up.
#[derive(Debug, Clone, Copy, PartialEq, Eq, Structural)]
pub enum FetchError {
    /// A transient failure that may be retried; surfaced only while
    /// retries remain.
    Transient,
    /// A failure that retrying cannot mend, or a transient one after the
    /// retry budget ran out.
    Permanent,
    /// The fetch was cancelled from outside, whatever its retry state.
    Cancelled,
}

/// What the fetch loop does next.
#[derive(Debug, Clone, Copy, PartialEq, Eq, Structural)]
pub enum RetryDecision {
    /// Hand this response status (and its body) to the caller.
    Deliver(u16),
    /// Wait this many seconds, before jitter, then try again.
    RetryAfter(u64),
    /// Stop with this error.
    Fail(FetchError),
}

/// The retry discipline: delays grow by `base` from the floor to the
/// ceiling, and at most `max_retries` retries follow the first attempt.
#[derive(Debug, Clone, Copy, PartialEq, Eq, Structural)]
pub struct RetryPolicy {
    pub min_delay_secs: u64,
    pub max_delay_secs: u64,
    pub base: u64,
    pub max_retries: u32,
}

impl RetryPolicy {
    /// A usable policy: a positive floor below the ceiling and a base
    /// that actually grows the delay.
    pub open spec fn wf(self) -> bool {
        &&& 1 <= self.min_delay_secs <= self.max_delay_secs
        &&& 2 <= self.base
    }

    /// The policy the watcher runs with: delays from a minute up to ten
    /// minutes, doubling, and thirty retries.
    pub fn standard() -> (r: Self)
        ensures
            r == (RetryPolicy {
                min_delay_secs: 60u64,
                max_delay_secs: 600u64,
                base: 2u64,
                max_retries: 30u32,
            }),
            r.wf(),
    {
        RetryPolicy { min_delay_secs: 60, max_delay_secs: 600, base: 2, max_retries: 30 }
    }
}

/// A server-side error status, the retried kind.
pub open spec fn spec_transient_status(status: u16) -> bool {
    500 <= status <= 599
}

/// An attempt outcome that may be retried: a network failure or a
/// server-side error status.
pub open spec fn spec_transient(outcome: AttemptOutcome) -> bool {
    match outcome {
        AttemptOutcome::Status(s) => spec_transient_status(s),
        AttemptOutcome::NetworkError => true,
        AttemptOutcome::Cancelled => false,
    }
}

/// The delay before the retry numbered `n` (counting from zero): the
/// floor, grown `n` times by the base, clamped to the ceiling.
pub open spec fn spec_backoff(p: RetryPolicy, n: nat) -> int
    decreases n,
{
    if n == 0 {
        p.min_delay_secs as int
    } else {
        let grown = spec_backoff(p, (n - 1) as nat) * p.base;
        if grown > p.max_delay_secs {
            p.max_delay_secs as int
        } else {
            grown
        }
    }
}

/// A well-formed policy keeps every delay between floor and ceiling.
pub proof fn lemma_backoff_bounds(p: RetryPolicy, n: nat)
    requires
        p.wf(),
    ensures
        p.min_delay_secs <= spec_backoff(p, n) <= p.max_delay_secs,
    decreases n,
{
    if n > 0 {
        lemma_backoff_bounds(p, (n - 1) as nat);
        let prev = spec_backoff(p, (n - 1) as nat);
        assert(prev * p.base >= prev) by (nonlinear_arith)
            requires
                prev >= 1,
                p.base >= 2,
        ;
    }
}

/// The decision after an attempt: cancellation fails the fetch at once;
/// a non-transient response is delivered, whatever its status; a
/// transient failure is retried while retries remain, and is a permanent
/// error once they ran out.
pub open spec fn spec_decide(p: RetryPolicy, retries_done: u32, outcome: AttemptOutcome)
    -> RetryDecision {
    match outcome {
        AttemptOutcome::Cancelled => RetryDecision::Fail(FetchError::Cancelled),
        AttemptOutcome::Status(s) => {
            if !spec_transient_status(s) {
                RetryDecision::Deliver(s)
            } else if retries_done < p.max_retries {
                RetryDecision::RetryAfter(spec_backoff(p, retries_done as nat) as u64)
            } else {
                RetryDecision::Fail(FetchError::Permanent)
            }
        },
        AttemptOutcome::NetworkError => {
            if retries_done < p.max_retries {
                RetryDecision::RetryAfter(spec_backoff(p, retries_done as nat) as u64)
            } else {
                RetryDecision::Fail(FetchError::Permanent)
            }
        },
    }
}

/// Retrying never outlives the budget: with the retries used up, a
/// transient failure is given up as permanent, not retried again; and a
/// retry is only ever decided while the budget lasts. Cancellation fails
/// the fetch whatever the budget says.
pub proof fn lemma_retries_bounded(p: RetryPolicy, retries_done: u32, outcome: AttemptOutcome)
    ensures
        spec_transient(outcome) && retries_done >= p.max_retries ==> spec_decide(
            p,
            retries_done,
            outcome,
        ) == RetryDecision::Fail(FetchError::Permanent),
        spec_decide(p, retries_done, outcome) is RetryAfter ==> retries_done < p.max_retries,
        outcome is Cancelled ==> spec_decide(p, retries_done, outcome) == RetryDecision::Fail(
            FetchError::Cancelled,
        ),
{
}

/// Computes the delay before retry `n`, exactly as the policy describes.
pub fn backoff_delay(p: &RetryPolicy, n: u32) -> (d: u64)
    requires
        p.wf(),
    ensures
        d == spec_backoff(*p, n as nat),
        p.min_delay_secs <= d <= p.max_delay_secs,
{
    proof {
        lemma_backoff_bounds(*p, n as nat);
    }
    let mut d: u64 = p.min_delay_secs;
    let mut i: u32 = 0;
    while i < n
        invariant
            0 <= i <= n,
            p.wf(),
            d == spec_backoff(*p, i as nat),
            p.min_delay_secs <= d <= p.max_delay_secs,
        decreases n - i,
    {
        proof {
            lemma_backoff_bounds(*p, (i + 1) as nat);
        }
        if d > p.max_delay_secs / p.base {
            proof {
                assert(d * p.base > p.max_delay_secs) by (nonlinear_arith)
                    requires
                        d > p.max_delay_secs / p.base,
                        p.base >= 2,
                        p.max_delay_secs >= 1,
                ;
            }
            d = p.max_delay_secs;
        } else {
            proof {
                assert(d * p.base <= p.max_delay_secs) by (nonlinear_arith)
                    requires
                        d <= p.max_delay_secs / p.base,
                        p.base >= 2,
                        p.max_delay_secs >= 1,
                ;
            }
            d = d * p.base;
            if d > p.max_delay_secs {
                d = p.max_delay_secs;
            }
        }
        i = i + 1;
    }
    d
}

/// Draws a delay with bounded jitter: anywhere from the policy's floor up
/// to the computed delay, driven by caller-supplied entropy.
pub fn jittered_delay(p: &RetryPolicy, delay: u64, entropy: u64) -> (d: u64)
    requires
        p.wf(),
        p.min_delay_secs <= delay,
    ensures
        d == p.min_delay_secs + (entropy as int) % (delay - p.min_delay_secs + 1),
        p.min_delay_secs <= d <= delay,
{
    let span = delay - p.min_delay_secs + 1;
    p.min_delay_secs + entropy % span
}

/// Decides what the fetch loop does after an attempt.
pub fn decide(p: &RetryPolicy, retries_done: u32, outcome: AttemptOutcome) -> (r: RetryDecision)
    requires
        p.wf(),
    ensures
        r == spec_decide(*p, retries_done, outcome),
{
    match outcome {
        AttemptOutcome::Cancelled => RetryDecision::Fail(FetchError::Cancelled),
        AttemptOutcome::Status(s) => {
            if !(500 <= s && s <= 599) {
                RetryDecision::Deliver(s)
            } else if retries_done < p.max_retries {
                RetryDecision::RetryAfter(backoff_delay(p, retries_done))
            } else {
                RetryDecision::Fail(FetchError::Permanent)
            }
        },
        AttemptOutcome::NetworkError => {
            if retries_done < p.max_retries {
                RetryDecision::RetryAfter(backoff_delay(p, retries_done))
            } else {
                RetryDecision::Fail(FetchError::Permanent)
            }
        },
    }
}

} // verus!
