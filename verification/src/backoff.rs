//! Retry delays and timer deadlines, as explicit functions of the retry number.

use vstd::prelude::*;

verus! {

/// How the delay before a retry grows with the number of the retry.
#[derive(Clone, Copy, Debug, PartialEq, Eq, Structural)]
pub enum BackoffPolicy {
    /// Every retry waits the base delay.
    Fixed,
    /// The first retry waits the base delay, each further one twice as long as the one before.
    Exponential,
}

/// Two to the power `n`.
pub open spec fn pow2(n: nat) -> nat
    decreases n,
{
    if n == 0 {
        1
    } else {
        2 * pow2((n - 1) as nat)
    }
}

/// The delay before retry number `retry` (the first retry is number 1), unbounded.
pub open spec fn backoff_delay(policy: BackoffPolicy, base: u64, retry: u32) -> int {
    match policy {
        BackoffPolicy::Fixed => base as int,
        BackoffPolicy::Exponential => if retry <= 1 {
            base as int
        } else {
            base * pow2((retry - 1) as nat)
        },
    }
}

/// `x` cut off at the largest `u64`.
pub open spec fn saturate(x: int) -> u64 {
    if x >= u64::MAX {
        u64::MAX
    } else if x <= 0 {
        0
    } else {
        x as u64
    }
}

/// The instant `delay` after `from`, cut off at the largest `u64`.
pub open spec fn due_after(from: u64, delay: u64) -> u64 {
    saturate(from + delay)
}

/// Whether a timer armed at `from` for `delay` has run out at `now`.
pub open spec fn elapsed(from: u64, delay: u64, now: u64) -> bool {
    now >= from + delay
}

/// `pow2` never decreases.
pub proof fn lemma_pow2_monotone(a: nat, b: nat)
    requires
        a <= b,
    ensures
        pow2(a) <= pow2(b),
        pow2(a) >= 1,
    decreases b,
{
    if a < b {
        lemma_pow2_monotone(a, (b - 1) as nat);
    } else if a > 0 {
        lemma_pow2_monotone((a - 1) as nat, (a - 1) as nat);
    }
}

/// The delay before retry number `retry`, saturating.
pub fn backoff(policy: BackoffPolicy, base: u64, retry: u32) -> (d: u64)
    ensures
        d == saturate(backoff_delay(policy, base, retry)),
{
    match policy {
        BackoffPolicy::Fixed => base,
        BackoffPolicy::Exponential => {
            if retry <= 1 || base == 0 {
                assert(base == 0 ==> base * pow2((retry - 1) as nat) == 0) by (nonlinear_arith);
                return base;
            }
            let half: u64 = u64::MAX / 2;
            let mut d: u64 = base;
            let mut i: u32 = 1;
            assert(base * pow2(0) == base) by {
                assert(pow2(0) == 1);
            }
            while i < retry && d <= half
                invariant
                    1 <= i <= retry,
                    base >= 1,
                    half == u64::MAX / 2,
                    d == base * pow2((i - 1) as nat),
                decreases retry - i,
            {
                assert(pow2(i as nat) == 2 * pow2((i - 1) as nat));
                assert(base * (2 * pow2((i - 1) as nat)) == 2 * (base * pow2((i - 1) as nat)))
                    by (nonlinear_arith);
                d = d * 2;
                i = i + 1;
            }
            if i < retry {
                proof {
                    // d already exceeds half the range and the true delay is at least twice d.
                    lemma_pow2_monotone(i as nat, (retry - 1) as nat);
                    assert(pow2(i as nat) == 2 * pow2((i - 1) as nat));
                    let p = pow2((i - 1) as nat);
                    let q = pow2((retry - 1) as nat);
                    assert(base * q >= base * (2 * p)) by (nonlinear_arith)
                        requires
                            q >= 2 * p,
                            base >= 1,
                    ;
                    assert(base * (2 * p) == 2 * (base * p)) by (nonlinear_arith);
                }
                u64::MAX
            } else {
                d
            }
        },
    }
}

/// The instant at which a timer armed at `from` for `delay` runs out, saturating.
pub fn deadline(from: u64, delay: u64) -> (due: u64)
    ensures
        due == due_after(from, delay),
{
    if delay > u64::MAX - from {
        u64::MAX
    } else {
        from + delay
    }
}

/// Whether a timer armed at `from` for `delay` has run out at `now`.
pub fn has_elapsed(from: u64, delay: u64, now: u64) -> (r: bool)
    ensures
        r == elapsed(from, delay, now),
{
    now >= from && now - from >= delay
}

} // verus!
