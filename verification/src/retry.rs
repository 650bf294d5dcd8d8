//! The retry engine: bounded exponential backoff, retrying only on
//! classified-transient failures.
//!
//! An operation is attempted up to `max_attempts` times. Only an HTTP
//! 5xx failure is retried; any other failure, and of course success,
//! ends the run at once. Before retry number `i` (1-based) the caller
//! sleeps `500^i` milliseconds. A cap of zero fails immediately with a
//! configuration error.

use vstd::prelude::*;

use crate::errors::ScrapeError;

verus! {

/// What the engine tells the caller after a failed attempt.
#[derive(Clone, Copy, Debug, PartialEq, Eq, Structural)]
pub enum RetryDecision {
    /// Sleep this many milliseconds, then attempt again.
    RetryAfterMillis(u64),
    /// The failure is fatal, or the attempt cap is spent: surface it.
    GiveUp,
}

/// The run of the engine over the outcomes the attempts would produce,
/// with at least one attempt permitted: how many attempts are made and
/// what the run returns. The first success or non-transient failure
/// ends the run; the last permitted attempt's outcome is returned as
/// is.
pub open spec fn spec_retry_from(
    outcomes: Seq<Result<(), ScrapeError>>,
    remaining: nat,
) -> (nat, Result<(), ScrapeError>)
    decreases remaining,
{
    if outcomes.len() == 0 {
        (0, Err(ScrapeError::NoAttemptsAllowed))
    } else if remaining <= 1 {
        (1, outcomes[0])
    } else {
        match outcomes[0] {
            Ok(v) => (1, Ok(v)),
            Err(e) => if e.spec_is_transient() {
                let rest = spec_retry_from(outcomes.drop_first(), (remaining - 1) as nat);
                (rest.0 + 1, rest.1)
            } else {
                (1, Err(e))
            },
        }
    }
}

/// The run of the engine under an attempt cap: a cap of zero makes no
/// attempt and fails with the configuration error.
pub open spec fn spec_retry(outcomes: Seq<Result<(), ScrapeError>>, max_attempts: nat) -> (
    nat,
    Result<(), ScrapeError>,
) {
    if max_attempts == 0 {
        (0, Err(ScrapeError::NoAttemptsAllowed))
    } else {
        spec_retry_from(outcomes, max_attempts)
    }
}

/// With `n` forced transient failures followed by a success inside the
/// attempt cap, the operation is attempted exactly `n + 1` times and
/// the run succeeds.
pub proof fn lemma_retry_transient_then_success(
    outcomes: Seq<Result<(), ScrapeError>>,
    n: int,
    max_attempts: nat,
)
    requires
        0 <= n < max_attempts,
        n < outcomes.len(),
        forall|i: int|
            0 <= i < n ==> (#[trigger] outcomes[i]) is Err
                && outcomes[i]->Err_0.spec_is_transient(),
        outcomes[n] is Ok,
    ensures
        spec_retry(outcomes, max_attempts).0 == n + 1,
        spec_retry(outcomes, max_attempts).1 is Ok,
    decreases n,
{
    if n > 0 {
        assert(outcomes[0] is Err && outcomes[0]->Err_0.spec_is_transient());
        let rest = outcomes.drop_first();
        assert(rest[n - 1] == outcomes[n]);
        assert(forall|i: int|
            0 <= i < n - 1 ==> (#[trigger] rest[i]) is Err
                && rest[i]->Err_0.spec_is_transient()) by {
            assert(forall|i: int| 0 <= i < n - 1 ==> rest[i] == outcomes[i + 1]);
        }
        lemma_retry_transient_then_success(rest, n - 1, (max_attempts - 1) as nat);
    }
}

/// A fatal (non-transient) failure on the first attempt is never
/// retried: the operation is attempted exactly once and the failure is
/// surfaced as is.
pub proof fn lemma_retry_fatal_once(outcomes: Seq<Result<(), ScrapeError>>, max_attempts: nat)
    requires
        max_attempts >= 1,
        outcomes.len() >= 1,
        outcomes[0] is Err,
        !outcomes[0]->Err_0.spec_is_transient(),
    ensures
        spec_retry(outcomes, max_attempts).0 == 1,
        spec_retry(outcomes, max_attempts).1 == outcomes[0],
{
}

/// Runs the engine over the outcomes the attempts produce, handed in
/// attempt order. The pair is how many attempts were made and what the
/// run returned.
pub fn run_retry(outcomes: &Vec<Result<(), ScrapeError>>, max_attempts: usize) -> (r: (
    usize,
    Result<(), ScrapeError>,
))
    requires
        outcomes@.len() >= max_attempts,
    ensures
        r.0 == spec_retry(outcomes@, max_attempts as nat).0,
        r.1 == spec_retry(outcomes@, max_attempts as nat).1,
{
    if max_attempts == 0 {
        return (0, Err(ScrapeError::NoAttemptsAllowed));
    }
    let mut i: usize = 0;
    proof {
        assert(outcomes@.skip(0) =~= outcomes@);
    }
    loop
        invariant
            outcomes@.len() >= max_attempts,
            i < max_attempts,
            spec_retry(outcomes@, max_attempts as nat).0 == i + spec_retry_from(
                outcomes@.skip(i as int),
                (max_attempts - i) as nat,
            ).0,
            spec_retry(outcomes@, max_attempts as nat).1 == spec_retry_from(
                outcomes@.skip(i as int),
                (max_attempts - i) as nat,
            ).1,
        decreases max_attempts - i,
    {
        proof {
            assert(outcomes@.skip(i as int)[0] == outcomes@[i as int]);
            assert(outcomes@.skip(i as int).drop_first() =~= outcomes@.skip(i + 1));
        }
        let out = outcomes[i];
        if i + 1 == max_attempts {
            return (i + 1, out);
        }
        match out {
            Ok(_) => {
                return (i + 1, out);
            },
            Err(e) => {
                if !e.is_transient() {
                    return (i + 1, out);
                }
            },
        }
        i = i + 1;
    }
}

/// `base^exponent` over the naturals.
pub open spec fn spec_pow(base: nat, exponent: nat) -> nat
    decreases exponent,
{
    if exponent == 0 {
        1
    } else {
        base * spec_pow(base, (exponent - 1) as nat)
    }
}

proof fn lemma_pow_pos(base: nat, exponent: nat)
    requires
        base >= 1,
    ensures
        spec_pow(base, exponent) >= 1,
    decreases exponent,
{
    if exponent > 0 {
        lemma_pow_pos(base, (exponent - 1) as nat);
        assert(base * spec_pow(base, (exponent - 1) as nat) >= spec_pow(
            base,
            (exponent - 1) as nat,
        )) by (nonlinear_arith)
            requires
                base >= 1,
                spec_pow(base, (exponent - 1) as nat) >= 1,
        ;
    }
}

proof fn lemma_pow_le(base: nat, e1: nat, e2: nat)
    requires
        base >= 1,
        e1 <= e2,
    ensures
        spec_pow(base, e1) <= spec_pow(base, e2),
    decreases e2,
{
    if e1 < e2 {
        lemma_pow_le(base, e1, (e2 - 1) as nat);
        lemma_pow_pos(base, (e2 - 1) as nat);
        assert(base * spec_pow(base, (e2 - 1) as nat) >= spec_pow(base, (e2 - 1) as nat))
            by (nonlinear_arith)
            requires
                base >= 1,
                spec_pow(base, (e2 - 1) as nat) >= 1,
        ;
    }
}

/// The backoff before retry number `attempt` (1-based): `500^attempt`
/// milliseconds, saturated at the largest representable delay.
pub fn backoff_millis(attempt: usize) -> (r: u64)
    ensures
        spec_pow(500, attempt as nat) <= u64::MAX ==> r == spec_pow(500, attempt as nat),
        spec_pow(500, attempt as nat) > u64::MAX ==> r == u64::MAX,
{
    let mut d: u64 = 1;
    let mut k: usize = 0;
    while k < attempt
        invariant
            k <= attempt,
            d == spec_pow(500, k as nat),
        decreases attempt - k,
    {
        match d.checked_mul(500) {
            None => {
                proof {
                    lemma_pow_le(500, (k + 1) as nat, attempt as nat);
                    assert(spec_pow(500, (k + 1) as nat) == 500 * spec_pow(500, k as nat));
                }
                return u64::MAX;
            },
            Some(v) => {
                proof {
                    assert(spec_pow(500, (k + 1) as nat) == 500 * spec_pow(500, k as nat));
                }
                d = v;
            },
        }
        k = k + 1;
    }
    d
}

/// Decides what to do after a failed attempt. `attempts_done` is how
/// many attempts have been made so far, the failed one included.
pub fn retry_decision(e: &ScrapeError, attempts_done: usize, max_attempts: usize) -> (r:
    RetryDecision)
    ensures
        r is RetryAfterMillis <==> e.spec_is_transient() && attempts_done < max_attempts,
        r matches RetryDecision::RetryAfterMillis(d) ==> (spec_pow(500, attempts_done as nat)
            <= u64::MAX ==> d == spec_pow(500, attempts_done as nat)) && (spec_pow(
            500,
            attempts_done as nat,
        ) > u64::MAX ==> d == u64::MAX),
{
    if e.is_transient() && attempts_done < max_attempts {
        RetryDecision::RetryAfterMillis(backoff_millis(attempts_done))
    } else {
        RetryDecision::GiveUp
    }
}

} // verus!
