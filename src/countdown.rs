//! The countdown that decides, call by call, whether an injected fault fires.
//!
//! Each evaluation takes one position of the countdown: it reads the value
//! the counter held before its own decrement (its pre-value) and leaves the
//! counter one lower, never below zero.
use vstd::prelude::*;

verus! {

/// What an evaluation does, as decided by the pre-value it observed.
#[derive(Clone, Copy, Debug, PartialEq, Eq, Structural)]
pub enum Verdict {
    /// The counter was above one: run the wrapped operation.
    Proceed,
    /// The counter went from one to zero: notify the trigger and inject a fault.
    Trigger,
    /// The counter was already zero: inject a fault without notifying.
    Exhausted,
}

/// The counter after one evaluation that observed `c`: one lower, saturating at zero.
pub open spec fn next_count(c: u64) -> u64 {
    if c == 0 {
        0
    } else {
        (c - 1) as u64
    }
}

/// The verdict of an evaluation that observed the pre-value `pre`.
pub open spec fn verdict_of(pre: u64) -> Verdict {
    if pre == 1 {
        Verdict::Trigger
    } else if pre == 0 {
        Verdict::Exhausted
    } else {
        Verdict::Proceed
    }
}

/// The counter after `k` evaluations, starting from `start`.
pub open spec fn count_after(start: u64, k: nat) -> u64
    decreases k,
{
    if k == 0 {
        start
    } else {
        next_count(count_after(start, (k - 1) as nat))
    }
}

/// The verdict of evaluation number `k` (counting from zero) after arming to `start`.
pub open spec fn verdict_at(start: u64, k: nat) -> Verdict {
    verdict_of(count_after(start, k))
}

/// How many of the first `m` evaluations after arming to `start` proceed.
pub open spec fn proceeds_within(start: u64, m: nat) -> nat
    decreases m,
{
    if m == 0 {
        0
    } else {
        let prior = proceeds_within(start, (m - 1) as nat);
        if verdict_at(start, (m - 1) as nat) == Verdict::Proceed {
            prior + 1
        } else {
            prior
        }
    }
}

/// How many of the first `m` evaluations after arming to `start` are trigger events.
pub open spec fn triggers_within(start: u64, m: nat) -> nat
    decreases m,
{
    if m == 0 {
        0
    } else {
        let prior = triggers_within(start, (m - 1) as nat);
        if verdict_at(start, (m - 1) as nat) == Verdict::Trigger {
            prior + 1
        } else {
            prior
        }
    }
}

/// The counter value that follows an evaluation observing `c`.
pub fn countdown_next(c: u64) -> (r: u64)
    ensures
        r == next_count(c),
{
    if c == 0 {
        0
    } else {
        c - 1
    }
}

/// The verdict for an evaluation observing the pre-value `pre`.
pub fn verdict(pre: u64) -> (v: Verdict)
    ensures
        v == verdict_of(pre),
{
    if pre == 1 {
        Verdict::Trigger
    } else if pre == 0 {
        Verdict::Exhausted
    } else {
        Verdict::Proceed
    }
}

/// After `k` evaluations the counter has gone down by `k`, stopping at zero.
pub proof fn lemma_count_after(start: u64, k: nat)
    ensures
        count_after(start, k) == if k <= start { start - k } else { 0 },
    decreases k,
{
    if k > 0 {
        lemma_count_after(start, (k - 1) as nat);
    }
}

/// Armed to `n >= 1`, the first `n - 1` evaluations proceed, evaluation `n`
/// is the trigger event, and every later one is exhausted.
pub proof fn lemma_countdown_determinism(n: u64, k: nat)
    requires
        n >= 1,
    ensures
        k + 1 < n ==> verdict_at(n, k) == Verdict::Proceed,
        k + 1 == n ==> verdict_at(n, k) == Verdict::Trigger,
        k + 1 > n ==> verdict_at(n, k) == Verdict::Exhausted,
{
    lemma_count_after(n, k);
}

/// Armed to zero, the counter stays at zero and every evaluation injects a
/// fault, without a trigger event.
pub proof fn lemma_saturation(k: nat)
    ensures
        count_after(0, k) == 0,
        verdict_at(0, k) == Verdict::Exhausted,
{
    lemma_count_after(0, k);
}

/// Armed to `n`, the first `m` evaluations hold exactly one trigger event
/// when `1 <= n <= m`, and none otherwise.
pub proof fn lemma_trigger_count(n: u64, m: nat)
    ensures
        triggers_within(n, m) == if 1 <= n && n <= m { 1nat } else { 0nat },
    decreases m,
{
    if m > 0 {
        lemma_trigger_count(n, (m - 1) as nat);
        lemma_count_after(n, (m - 1) as nat);
    }
}

/// Armed to `n`, of the first `m` evaluations exactly `min(m, n - 1)` proceed;
/// all the others inject a fault.
pub proof fn lemma_success_count(n: u64, m: nat)
    ensures
        proceeds_within(n, m) == if n == 0 { 0 } else if m < n { m } else { (n - 1) as nat },
    decreases m,
{
    if m > 0 {
        lemma_success_count(n, (m - 1) as nat);
        lemma_count_after(n, (m - 1) as nat);
    }
}

/// Evaluations that observe a positive pre-value each observe a different one:
/// a later evaluation sees a strictly lower counter. Evaluations on a shared
/// counter follow one another in the order of their atomic updates, so this
/// holds across threads as well.
pub proof fn lemma_distinct_positions(n: u64, i: nat, j: nat)
    requires
        i < j,
        count_after(n, i) > 0,
    ensures
        count_after(n, j) < count_after(n, i),
{
    lemma_count_after(n, i);
    lemma_count_after(n, j);
}

} // verus!
