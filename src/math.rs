use vstd::prelude::*;
use vstd::arithmetic::div_mod::{lemma_fundamental_div_mod, lemma_fundamental_div_mod_converse_div, lemma_div_is_ordered};
use crate::types::{BPS_DENOMINATOR, MAX_FEE_BPS};

verus! {

/// Amount vested at `now` for `amount` unlocking linearly over `[start, end)`.
pub open spec fn unlocked_spec(amount: int, start: int, end: int, now: int) -> int {
    if now <= start {
        0
    } else if now >= end {
        amount
    } else {
        (amount * (now - start)) / (end - start)
    }
}

/// The amount of a stream of `amount` that has unlocked at `now`.
pub fn calculate_unlocked(amount: i128, start: u64, end: u64, now: u64) -> (r: i128)
    requires
        amount >= 0,
    ensures
        r == unlocked_spec(amount as int, start as int, end as int, now as int),
        0 <= r <= amount,
{
    if now <= start {
        0
    } else if now >= end {
        amount
    } else {
        let elapsed: u64 = now - start;
        let duration: u64 = end - start;
        let q: i128 = amount / (duration as i128);
        let rem: i128 = amount % (duration as i128);
        proof {
            lemma_split_quotient(amount as int, elapsed as int, duration as int);
            let dd = duration as int;
            assert(dd * dd <= u128::MAX) by (nonlinear_arith)
                requires 0 <= dd <= u64::MAX;
        }
        let tail: u128 = ((rem as u128) * (elapsed as u128)) / (duration as u128);
        q * (elapsed as i128) + (tail as i128)
    }
}

/// The protocol fee on `amount` at `fee_bps` basis points, rounded down.
pub open spec fn fee_spec(amount: int, fee_bps: int) -> int {
    (amount * fee_bps) / 10000
}

/// The fee withheld from `amount` at a rate of `fee_bps` basis points.
pub fn fee_amount(amount: i128, fee_bps: u32) -> (r: i128)
    requires
        amount >= 0,
        fee_bps <= MAX_FEE_BPS,
    ensures
        r == fee_spec(amount as int, fee_bps as int),
        0 <= r <= amount,
{
    if fee_bps == 0 {
        proof {
            assert(amount * 0 == 0);
        }
        return 0;
    }
    let denominator: i128 = BPS_DENOMINATOR as i128;
    let q: i128 = amount / denominator;
    let rem: i128 = amount % denominator;
    proof {
        lemma_split_quotient(amount as int, fee_bps as int, 10000);
    }
    q * (fee_bps as i128) + (rem * (fee_bps as i128)) / denominator
}

/// Vesting never decreases as time goes on.
pub proof fn lemma_unlocked_monotone(amount: int, start: int, end: int, t1: int, t2: int)
    requires
        amount >= 0,
        start < end,
        t1 <= t2,
    ensures
        0 <= unlocked_spec(amount, start, end, t1) <= unlocked_spec(amount, start, end, t2) <= amount,
{
    let d = end - start;
    if start < t1 && t1 < end {
        lemma_split_quotient(amount, t1 - start, d);
    }
    if start < t2 && t2 < end {
        lemma_split_quotient(amount, t2 - start, d);
    }
    if start < t1 && t2 < end {
        assert(amount * (t1 - start) <= amount * (t2 - start)) by (nonlinear_arith)
            requires amount >= 0, t1 <= t2;
        lemma_div_is_ordered(amount * (t1 - start), amount * (t2 - start), d);
    }
}

proof fn lemma_split_quotient(a: int, e: int, d: int)
    requires
        a >= 0,
        0 < e < d,
    ensures
        (a * e) / d == (a / d) * e + ((a % d) * e) / d,
        0 <= (a * e) / d <= a,
        (a % d) * e < d * d,
        0 <= (a / d) * e <= a,
{
    let q = a / d;
    let r = a % d;
    let t = (r * e) / d;
    let s = (r * e) % d;
    lemma_fundamental_div_mod(a, d);
    lemma_fundamental_div_mod(r * e, d);
    assert(0 <= r < d && 0 <= q);
    assert(0 <= r * e < d * d) by (nonlinear_arith)
        requires 0 <= r < d, 0 < e < d;
    assert(a * e == (q * e + t) * d + s) by (nonlinear_arith)
        requires a == d * q + r, r * e == d * t + s;
    lemma_fundamental_div_mod_converse_div(a * e, d, q * e + t, s);
    assert(0 <= q * e <= a) by (nonlinear_arith)
        requires a == d * q + r, 0 <= r, 0 <= q, 0 < e < d;
    assert(0 <= t) by (nonlinear_arith)
        requires r * e == d * t + s, 0 <= r * e, 0 <= s < d;
    assert((q * e + t) * d <= a * d) by (nonlinear_arith)
        requires a * e == (q * e + t) * d + s, 0 <= s, 0 < e < d, 0 <= a;
    assert(q * e + t <= a) by (nonlinear_arith)
        requires (q * e + t) * d <= a * d, 0 < d;
}

} // verus!
