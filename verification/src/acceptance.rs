//! The Metropolis acceptance criterion.
//!
//! Given the score increase `delta` of a candidate over the current solution
//! and the current temperature, the rule accepts an improving candidate with
//! probability one and a worsening one with probability `exp(-delta /
//! temperature)`.  Probabilities are fixed-point numbers in `[0, SCALE]`; the
//! exponential is the fixed-point approximation below, which is exactly one
//! at zero, never exceeds one, and reaches exactly zero once the exponent
//! passes twenty.

use vstd::prelude::*;

use crate::fixed::{iabs, mul_div, mul_div_128, sdiv, SCALE, VAL_LIMIT};

verus! {

/// Reciprocal of Euler's number, in millionths.
pub const INV_E: i64 = 367_879;

/// `x` decayed by `n` truncating multiplications with `1/e`: the integer part
/// of the fixed-point exponential.
pub open spec fn pow_inv_e(x: int, n: nat) -> int
    decreases n,
{
    if n == 0 {
        x
    } else {
        pow_inv_e(x, (n - 1) as nat) * INV_E / (SCALE as int)
    }
}

/// Second-order series for `exp(-f / SCALE)` on a fractional exponent
/// `0 <= f < SCALE`.
pub open spec fn taylor_exp_neg(f: int) -> int {
    SCALE - f + (f * f) / (2 * SCALE as int)
}

/// Fixed-point `SCALE * exp(-q / SCALE)` for `q >= 0`: the integer part of
/// the exponent decays by `1/e` steps, the fractional part by the series.
pub open spec fn exp_neg_spec(q: int) -> int
    recommends
        q >= 0,
{
    sdiv(
        pow_inv_e(SCALE as int, (q / (SCALE as int)) as nat) * taylor_exp_neg(q % (SCALE as int)),
        SCALE as int,
    )
}

/// Decay keeps a non-negative start within its starting bounds.
proof fn lemma_pow_inv_e_range(x: int, n: nat)
    requires
        x >= 0,
    ensures
        0 <= pow_inv_e(x, n) <= x,
    decreases n,
{
    if n > 0 {
        lemma_pow_inv_e_range(x, (n - 1) as nat);
        let p = pow_inv_e(x, (n - 1) as nat);
        vstd::arithmetic::mul::lemma_mul_nonnegative(p, INV_E as int);
        vstd::arithmetic::div_mod::lemma_div_pos_is_pos(p * INV_E, SCALE as int);
        vstd::arithmetic::mul::lemma_mul_inequality(INV_E as int, SCALE as int, p);
        vstd::arithmetic::mul::lemma_mul_is_commutative(p, INV_E as int);
        vstd::arithmetic::mul::lemma_mul_is_commutative(p, SCALE as int);
        vstd::arithmetic::div_mod::lemma_div_is_ordered(p * INV_E, p * SCALE, SCALE as int);
        vstd::arithmetic::div_mod::lemma_div_by_multiple(p, SCALE as int);
    }
}

/// Each decay step at least halves the value.
proof fn lemma_pow_inv_e_halves(x: int, n: nat)
    requires
        x >= 0,
    ensures
        pow_inv_e(x, n) * vstd::arithmetic::power2::pow2(n) <= x,
    decreases n,
{
    vstd::arithmetic::power2::lemma_pow2_pos(n);
    if n == 0 {
        vstd::arithmetic::power2::lemma2_to64();
        assert(pow_inv_e(x, 0) * 1 == x) by (nonlinear_arith)
            requires
                pow_inv_e(x, 0) == x;
    } else {
        let m = (n - 1) as nat;
        lemma_pow_inv_e_halves(x, m);
        lemma_pow_inv_e_range(x, m);
        let p = pow_inv_e(x, m);
        let q = pow_inv_e(x, n);
        // q <= p / 2, so 2 * q <= p
        vstd::arithmetic::mul::lemma_mul_inequality(INV_E as int, 500_000, p);
        vstd::arithmetic::mul::lemma_mul_is_commutative(p, INV_E as int);
        vstd::arithmetic::mul::lemma_mul_is_commutative(p, 500_000);
        vstd::arithmetic::mul::lemma_mul_nonnegative(p, 500_000);
        vstd::arithmetic::div_mod::lemma_div_is_ordered(p * INV_E, p * 500_000, SCALE as int);
        vstd::arithmetic::div_mod::lemma_div_denominator(p * 500_000, 500_000, 2);
        vstd::arithmetic::div_mod::lemma_div_by_multiple(p, 500_000);
        assert(q <= p / 2);
        vstd::arithmetic::div_mod::lemma_fundamental_div_mod(p, 2);
        vstd::arithmetic::div_mod::lemma_mod_pos_bound(p, 2);
        assert(2 * q <= p);
        // multiply both sides by pow2(m)
        let t = vstd::arithmetic::power2::pow2(m) as int;
        vstd::arithmetic::power2::lemma_pow2_pos(m);
        vstd::arithmetic::mul::lemma_mul_inequality(2 * q, p, t);
        vstd::arithmetic::power2::lemma_pow2_unfold(n);
        vstd::arithmetic::power2::lemma_pow2_adds(1, m);
        vstd::arithmetic::power2::lemma_pow2(1);
        assert(q * (2 * t) == (2 * q) * t) by (nonlinear_arith);
        assert(vstd::arithmetic::power2::pow2(n) == 2 * t) by {
            vstd::arithmetic::power2::lemma_pow2_unfold(n);
        }
    }
}

/// Once the decay reaches zero it stays there.
proof fn lemma_pow_inv_e_stays_zero(x: int, n1: nat, n2: nat)
    requires
        x >= 0,
        n1 <= n2,
        pow_inv_e(x, n1) == 0,
    ensures
        pow_inv_e(x, n2) == 0,
    decreases n2,
{
    if n2 > n1 {
        let m = (n2 - 1) as nat;
        lemma_pow_inv_e_stays_zero(x, n1, m);
        assert(pow_inv_e(x, m) * INV_E == 0) by (nonlinear_arith)
            requires
                pow_inv_e(x, m) == 0;
        vstd::arithmetic::div_mod::lemma_div_of0(SCALE as int);
    }
}

/// Twenty decay steps flatten anything that started at `SCALE` or below.
proof fn lemma_pow_inv_e_zero_at_20(n: nat)
    requires
        n >= 20,
    ensures
        pow_inv_e(SCALE as int, n) == 0,
{
    lemma_pow_inv_e_halves(SCALE as int, 20);
    lemma_pow_inv_e_range(SCALE as int, 20);
    vstd::arithmetic::power2::lemma2_to64();
    let p = pow_inv_e(SCALE as int, 20);
    if p >= 1 {
        vstd::arithmetic::mul::lemma_mul_inequality(1, p, vstd::arithmetic::power2::pow2(20) as int);
        assert(1 * (vstd::arithmetic::power2::pow2(20) as int) == vstd::arithmetic::power2::pow2(
            20,
        ) as int) by (nonlinear_arith);
        vstd::arithmetic::mul::lemma_mul_is_commutative(p, vstd::arithmetic::power2::pow2(20) as int);
    }
    lemma_pow_inv_e_stays_zero(SCALE as int, 20, n);
}

/// The fractional series stays between one step and one.
proof fn lemma_taylor_range(f: int)
    requires
        0 <= f < SCALE,
    ensures
        1 <= taylor_exp_neg(f) <= SCALE,
{
    vstd::arithmetic::mul::lemma_mul_nonnegative(f, f);
    vstd::arithmetic::div_mod::lemma_div_pos_is_pos(f * f, 2 * SCALE as int);
    vstd::arithmetic::mul::lemma_mul_inequality(f, 2 * SCALE as int, f);
    vstd::arithmetic::mul::lemma_mul_is_commutative(f, 2 * SCALE as int);
    vstd::arithmetic::div_mod::lemma_div_is_ordered(f * f, f * (2 * SCALE as int), 2 * SCALE as int);
    vstd::arithmetic::div_mod::lemma_div_by_multiple(f, 2 * SCALE as int);
}

/// `SCALE * exp(-q / SCALE)`, exactly as [`exp_neg_spec`] defines it.
pub fn exp_neg(q: i64) -> (r: i64)
    requires
        q >= 0,
    ensures
        r == exp_neg_spec(q as int),
        0 <= r <= SCALE,
        q == 0 ==> r == SCALE,
{
    let qu: u64 = q as u64;
    let n: u64 = qu / 1_000_000;
    let f: u64 = qu % 1_000_000;
    let mut e: i64 = SCALE;
    let mut i: u64 = 0;
    while i < n && e != 0
        invariant
            0 <= i <= n,
            n == q as int / (SCALE as int),
            f == q as int % (SCALE as int),
            e == pow_inv_e(SCALE as int, i as nat),
            0 <= e <= SCALE,
        decreases n - i,
    {
        proof {
            lemma_pow_inv_e_range(SCALE as int, (i + 1) as nat);
            crate::fixed::lemma_abs_mul_bound(e as int, INV_E as int, SCALE as int, INV_E as int);
        }
        e = mul_div(e, INV_E, SCALE);
        i = i + 1;
    }
    proof {
        if i < n {
            lemma_pow_inv_e_stays_zero(SCALE as int, i as nat, n as nat);
        }
        lemma_taylor_range(f as int);
    }
    let fv: i64 = f as i64;
    let ft: i64 = mul_div(fv, fv, 2 * SCALE);
    let t: i64 = SCALE - fv + ft;
    proof {
        crate::fixed::lemma_abs_mul_bound(e as int, t as int, SCALE as int, SCALE as int);
        vstd::arithmetic::mul::lemma_mul_nonnegative(e as int, t as int);
        vstd::arithmetic::div_mod::lemma_div_is_ordered(
            e as int * t as int,
            SCALE as int * SCALE as int,
            SCALE as int,
        );
        vstd::arithmetic::div_mod::lemma_div_by_multiple(SCALE as int, SCALE as int);
        vstd::arithmetic::div_mod::lemma_div_pos_is_pos(e as int * t as int, SCALE as int);
        if q == 0 {
            vstd::arithmetic::div_mod::lemma_div_by_multiple(1, SCALE as int);
        }
    }
    mul_div(e, t, SCALE)
}

/// Past an exponent of twenty the fixed-point exponential is exactly zero.
pub proof fn lemma_exp_neg_vanishes(q: int)
    requires
        q >= 20 * SCALE,
    ensures
        exp_neg_spec(q) == 0,
{
    vstd::arithmetic::div_mod::lemma_div_is_ordered(20 * SCALE as int, q, SCALE as int);
    vstd::arithmetic::div_mod::lemma_div_by_multiple(20, SCALE as int);
    lemma_pow_inv_e_zero_at_20((q / (SCALE as int)) as nat);
    assert(0int * taylor_exp_neg(q % (SCALE as int)) == 0) by (nonlinear_arith);
    vstd::arithmetic::div_mod::lemma_div_of0(SCALE as int);
}

/// Acceptance probability, in millionths: one for a candidate whose score
/// does not increase, `exp(-delta / temperatura)` otherwise, zero once the
/// temperature itself is zero.
pub open spec fn acceptance_prob_spec(delta: int, temperatura: int) -> int {
    if delta <= 0 {
        SCALE as int
    } else if temperatura <= 0 {
        0
    } else {
        exp_neg_spec(sdiv(delta * SCALE, temperatura))
    }
}

/// Metropolis rule: `delta` is the candidate's score minus the current one.
/// An improving or equal candidate is accepted with probability one; a
/// worsening one with the fixed-point exponential of `-delta / temperatura`.
pub fn acceptance_probability(delta: i128, temperatura: i64) -> (r: i64)
    requires
        0 <= temperatura <= VAL_LIMIT,
        iabs(delta as int) <= 20_000_000_000_000_000_000_000_000_000_000_000_000,
    ensures
        r == acceptance_prob_spec(delta as int, temperatura as int),
        0 <= r <= SCALE,
        delta <= 0 ==> r == SCALE,
{
    if delta <= 0 {
        return SCALE;
    }
    if temperatura == 0 {
        return 0;
    }
    if delta >= 20 * (temperatura as i128) {
        proof {
            let d = delta as int;
            let t = temperatura as int;
            vstd::arithmetic::mul::lemma_mul_inequality(20 * t, d, SCALE as int);
            assert((20 * t) * SCALE == (20 * SCALE) * t) by (nonlinear_arith);
            vstd::arithmetic::div_mod::lemma_div_by_multiple(20 * SCALE as int, t);
            vstd::arithmetic::div_mod::lemma_div_is_ordered((20 * t) * SCALE, d * SCALE, t);
            vstd::arithmetic::mul::lemma_mul_nonnegative(d, SCALE as int);
            lemma_exp_neg_vanishes(sdiv(d * SCALE, t));
        }
        return 0;
    }
    proof {
        let d = delta as int;
        let t = temperatura as int;
        crate::fixed::lemma_abs_mul_bound(d, SCALE as int, 20 * t, SCALE as int);
        vstd::arithmetic::mul::lemma_mul_inequality(20 * t, 20 * (VAL_LIMIT as int), SCALE as int);
    }
    let q: i128 = mul_div_128(delta, SCALE, temperatura);
    proof {
        let d = delta as int;
        let t = temperatura as int;
        vstd::arithmetic::mul::lemma_mul_nonnegative(d, SCALE as int);
        vstd::arithmetic::div_mod::lemma_div_pos_is_pos(d * SCALE, t);
        assert(q < 20 * SCALE) by {
            assert((20 * SCALE) * t == (20 * t) * SCALE) by (nonlinear_arith);
            vstd::arithmetic::mul::lemma_mul_strict_inequality(d, 20 * t, SCALE as int);
            vstd::arithmetic::div_mod::lemma_div_by_multiple_is_strongly_ordered(
                d * SCALE,
                (20 * SCALE) * t,
                20 * SCALE as int,
                t,
            );
            vstd::arithmetic::div_mod::lemma_div_by_multiple(20 * SCALE as int, t);
        }
    }
    exp_neg(q as i64)
}

/// An improving move (negative score delta) is accepted with probability
/// exactly one, whatever the temperature.
pub proof fn lemma_improving_always_accepted(delta: int, temperatura: int)
    requires
        delta < 0,
    ensures
        acceptance_prob_spec(delta, temperatura) == SCALE,
{
}

/// As the temperature falls toward zero, the probability of accepting any
/// strictly worsening move reaches exactly zero: it is zero for every
/// temperature at or below a twentieth of the score increase.
pub proof fn lemma_acceptance_vanishes(delta: int, temperatura: int)
    requires
        delta >= 1,
        1 <= temperatura,
        20 * temperatura <= delta,
    ensures
        acceptance_prob_spec(delta, temperatura) == 0,
{
    let d = delta;
    let t = temperatura;
    vstd::arithmetic::mul::lemma_mul_inequality(20 * t, d, SCALE as int);
    assert((20 * t) * SCALE == (20 * SCALE) * t) by (nonlinear_arith);
    vstd::arithmetic::div_mod::lemma_div_by_multiple(20 * SCALE as int, t);
    vstd::arithmetic::div_mod::lemma_div_is_ordered((20 * t) * SCALE, d * SCALE, t);
    vstd::arithmetic::mul::lemma_mul_nonnegative(d, SCALE as int);
    lemma_exp_neg_vanishes(sdiv(d * SCALE, t));
}

} // verus!
