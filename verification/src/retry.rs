//! Retrying transient failures with exponential backoff.
//!
//! Only idempotent steps are retried: establishing a connection (TLS plus
//! login) and OAuth token requests. Writes are never retried, so that a
//! lost reply cannot make a change happen twice. The caller runs the loop;
//! this module decides, after each failed attempt, whether and after how
//! long to try again.
use vstd::prelude::*;

verus! {

/// How many attempts are made at most.
pub const MAX_ATTEMPTS: u32 = 3;

/// `2` to the power `n`.
pub open spec fn doubling(n: nat) -> nat
    decreases n,
{
    if n == 0 {
        1
    } else {
        2 * doubling((n - 1) as nat)
    }
}

/// The wait before the next attempt, after attempt number `attempt`
/// (counted from 1) failed: 500 ms after the first, 1000 ms after the
/// second.
pub open spec fn backoff_ms(attempt: nat) -> nat {
    250 * doubling(attempt)
}

/// The decision after attempt number `attempt` failed: wait that many
/// milliseconds and try again, or give up and report the error.
pub open spec fn retry_decision(attempt: nat, transient: bool) -> Option<nat> {
    if attempt < MAX_ATTEMPTS && transient {
        Some(backoff_ms(attempt))
    } else {
        None
    }
}

/// After attempt number `attempt` (counted from 1) failed with an error
/// whose transience is `transient`: `Some(ms)` to wait `ms` milliseconds
/// and try again, `None` to give up and report the error.
pub fn retry_delay_ms(attempt: u32, transient: bool) -> (r: Option<u64>)
    ensures
        match r {
            Some(ms) => retry_decision(attempt as nat, transient) == Some(ms as nat),
            None => retry_decision(attempt as nat, transient) is None,
        },
{
    if attempt < MAX_ATTEMPTS && transient {
        let mut ms: u64 = 250;
        let mut i: u32 = 0;
        while i < attempt
            invariant
                i <= attempt < MAX_ATTEMPTS,
                ms == 250 * doubling(i as nat),
                i == 0 ==> ms == 250,
                i == 1 ==> ms == 500,
            decreases attempt - i,
        {
            ms = ms * 2;
            i += 1;
        }
        Some(ms)
    } else {
        None
    }
}

/// How many attempts a run makes when every attempt fails and `failures[k]`
/// says whether the failure of attempt `attempt + k` was transient; the run
/// starts at attempt number `attempt`.
pub open spec fn attempts_made(attempt: nat, failures: Seq<bool>) -> nat
    decreases failures.len(),
{
    if failures.len() == 0 {
        0
    } else if retry_decision(attempt, failures[0]) is Some {
        1 + attempts_made(attempt + 1, failures.drop_first())
    } else {
        1
    }
}

/// A run that starts at the first attempt makes at most `MAX_ATTEMPTS`
/// attempts, however its attempts fail.
pub proof fn lemma_attempts_bounded(failures: Seq<bool>)
    ensures
        attempts_made(1, failures) <= MAX_ATTEMPTS,
{
    lemma_attempts_from(1, failures);
}

proof fn lemma_attempts_from(attempt: nat, failures: Seq<bool>)
    requires
        1 <= attempt <= MAX_ATTEMPTS,
    ensures
        attempts_made(attempt, failures) <= MAX_ATTEMPTS + 1 - attempt,
    decreases failures.len(),
{
    if failures.len() > 0 && retry_decision(attempt, failures[0]) is Some {
        lemma_attempts_from(attempt + 1, failures.drop_first());
    }
}

/// A permanent error is never retried: the first attempt that fails with
/// one ends the run.
pub proof fn lemma_permanent_failure_ends_run(attempt: nat, failures: Seq<bool>)
    requires
        failures.len() > 0,
        !failures[0],
    ensures
        attempts_made(attempt, failures) == 1,
{
}

/// Each wait is twice the one before it.
pub proof fn lemma_backoff_doubles(attempt: nat)
    ensures
        backoff_ms(attempt + 1) == 2 * backoff_ms(attempt),
{
}

} // verus!
