//! Fixed-point arithmetic.
//!
//! Every quantity in this crate (temperatures, satisfaction levels, costs,
//! weights, priorities, scores) is an `i64` measured in millionths: the value
//! `1_500_000` stands for 1.5 units.  Products and quotients are computed with
//! 128-bit intermediates and truncate toward zero; the spec function [`sdiv`]
//! pins that rounding down exactly, so every contract in the crate states the
//! precise integer a computation returns.

use vstd::prelude::*;

verus! {

/// Number of fixed-point steps in one unit: all quantities are millionths.
pub const SCALE: i64 = 1_000_000;

/// Largest magnitude (one million units) accepted for a parameter value,
/// bound, cost factor or weight; keeps every intermediate product inside
/// `i128`.
pub const VAL_LIMIT: i64 = 1_000_000_000_000;

/// Magnitude of an integer.
pub open spec fn iabs(a: int) -> int {
    if a >= 0 {
        a
    } else {
        -a
    }
}

/// Smaller of two integers.
pub open spec fn imin(a: int, b: int) -> int {
    if a <= b {
        a
    } else {
        b
    }
}

/// Division truncating toward zero, for a positive divisor; this is the
/// rounding every executable division in the crate performs.
pub open spec fn sdiv(a: int, b: int) -> int
    recommends
        b >= 1,
{
    if a >= 0 {
        a / b
    } else {
        -((-a) / b)
    }
}

/// `sdiv` never increases a magnitude when the divisor is at least one.
pub proof fn lemma_sdiv_bounds(a: int, b: int)
    requires
        b >= 1,
    ensures
        iabs(sdiv(a, b)) <= iabs(a),
        a >= 0 ==> 0 <= sdiv(a, b) <= a,
        a < 0 ==> a <= sdiv(a, b) <= 0,
{
    if a >= 0 {
        vstd::arithmetic::div_mod::lemma_div_pos_is_pos(a, b);
        vstd::arithmetic::div_mod::lemma_div_nonincreasing(a, b);
    } else {
        vstd::arithmetic::div_mod::lemma_div_pos_is_pos(-a, b);
        vstd::arithmetic::div_mod::lemma_div_nonincreasing(-a, b);
    }
}

/// Magnitude of a 64-bit value (all magnitudes in this crate stay far from
/// the type's minimum).
pub fn abs64(a: i64) -> (r: i64)
    requires
        a != i64::MIN,
    ensures
        r == iabs(a as int),
{
    if a >= 0 {
        a
    } else {
        -a
    }
}

/// Magnitude of a 128-bit value.
pub fn abs128(a: i128) -> (r: i128)
    requires
        a != i128::MIN,
    ensures
        r == iabs(a as int),
{
    if a >= 0 {
        a
    } else {
        -a
    }
}

/// Exact product of two 64-bit values, widened so it can never overflow.
pub fn mul_wide(a: i64, b: i64) -> (r: i128)
    ensures
        r == a as int * b as int,
{
    proof {
        vstd::arithmetic::mul::lemma_mul_upper_bound(iabs(a as int), 0x8000_0000_0000_0000, iabs(b as int), 0x8000_0000_0000_0000);
        lemma_abs_mul(a as int, b as int);
    }
    (a as i128) * (b as i128)
}

/// Sign facts about a product.
proof fn lemma_product_sign(a: int, b: int) by (nonlinear_arith)
    ensures
        a * b > 0 ==> ((a < 0) <==> (b < 0)),
        a * b < 0 ==> ((a < 0) != (b < 0)),
{
}

/// The magnitude of a product is the product of the magnitudes.
pub proof fn lemma_abs_mul(a: int, b: int)
    ensures
        iabs(a * b) == iabs(a) * iabs(b),
{
    if a >= 0 && b >= 0 {
        vstd::arithmetic::mul::lemma_mul_nonnegative(a, b);
    } else if a < 0 && b < 0 {
        assert(a * b == (-a) * (-b)) by (nonlinear_arith);
        vstd::arithmetic::mul::lemma_mul_nonnegative(-a, -b);
    } else if a >= 0 && b < 0 {
        assert(-(a * b) == a * (-b)) by (nonlinear_arith);
        vstd::arithmetic::mul::lemma_mul_nonnegative(a, -b);
    } else {
        assert(-(a * b) == (-a) * b) by (nonlinear_arith);
        vstd::arithmetic::mul::lemma_mul_nonnegative(-a, b);
    }
}

/// Bounds on the factors bound the product's magnitude.
pub proof fn lemma_abs_mul_bound(a: int, b: int, ca: int, cb: int)
    requires
        iabs(a) <= ca,
        iabs(b) <= cb,
    ensures
        iabs(a * b) <= ca * cb,
{
    lemma_abs_mul(a, b);
    vstd::arithmetic::mul::lemma_mul_upper_bound(iabs(a), ca, iabs(b), cb);
}

/// `a * b / d` with the product taken exactly and the quotient truncating
/// toward zero.
pub fn mul_div(a: i64, b: i64, d: i64) -> (r: i64)
    requires
        d >= 1,
        iabs(a as int * b as int) / (d as int) <= i64::MAX,
    ensures
        r == sdiv(a as int * b as int, d as int),
{
    let neg: bool = (a < 0) != (b < 0);
    let ma: u64 = if a >= 0 {
        a as u64
    } else {
        (-(a as i128)) as u64
    };
    let mb: u64 = if b >= 0 {
        b as u64
    } else {
        (-(b as i128)) as u64
    };
    proof {
        lemma_abs_mul(a as int, b as int);
        vstd::arithmetic::mul::lemma_mul_upper_bound(ma as int, u64::MAX as int, mb as int, u64::MAX as int);
    }
    let prod: u128 = (ma as u128) * (mb as u128);
    let q: u128 = prod / (d as u128);
    proof {
        assert(prod == iabs(a as int * b as int));
        vstd::arithmetic::div_mod::lemma_div_nonincreasing(prod as int, d as int);
        vstd::arithmetic::div_mod::lemma_div_pos_is_pos(prod as int, d as int);
    }
    proof {
        lemma_product_sign(a as int, b as int);
    }
    if neg {
        let rq: i128 = -(q as i128);
        rq as i64
    } else {
        q as i64
    }
}

/// `a * b / d` on a 128-bit left factor, truncating toward zero.
pub fn mul_div_128(a: i128, b: i64, d: i64) -> (r: i128)
    requires
        d >= 1,
        b >= 0,
        a != i128::MIN,
        iabs(a as int) * (b as int) <= i128::MAX,
    ensures
        r == sdiv(a as int * b as int, d as int),
{
    let neg: bool = a < 0;
    let ma: u128 = if a >= 0 {
        a as u128
    } else {
        (-a) as u128
    };
    proof {
        lemma_abs_mul(a as int, b as int);
        if b >= 1 {
            vstd::arithmetic::mul::lemma_mul_inequality(1, b as int, iabs(a as int));
            vstd::arithmetic::mul::lemma_mul_is_commutative(b as int, iabs(a as int));
        } else {
            assert(iabs(a as int) * 0 == 0) by (nonlinear_arith);
        }
    }
    let prod: u128 = ma * (b as u128);
    let q: u128 = prod / (d as u128);
    proof {
        vstd::arithmetic::div_mod::lemma_div_nonincreasing(prod as int, d as int);
        vstd::arithmetic::div_mod::lemma_div_pos_is_pos(prod as int, d as int);
        lemma_product_sign(a as int, b as int);
        if b == 0 {
            assert(a as int * 0 == 0) by (nonlinear_arith);
        }
    }
    if neg {
        -(q as i128)
    } else {
        q as i128
    }
}

/// `a / d` for non-negative dividends.
pub fn div_pos(a: i64, d: i64) -> (r: i64)
    requires
        a >= 0,
        d >= 1,
    ensures
        r == a as int / d as int,
        0 <= r <= a,
{
    proof {
        vstd::arithmetic::div_mod::lemma_div_nonincreasing(a as int, d as int);
        vstd::arithmetic::div_mod::lemma_div_pos_is_pos(a as int, d as int);
    }
    ((a as u64) / (d as u64)) as i64
}

} // verus!
