//! Truncating fixed-point arithmetic.
//!
//! Per-frame motion multiplies a signed speed by an unsigned scale factor
//! and divides by a power-of-ten scale, truncating toward zero. `tdiv`
//! is the specification of that truncating division, and `mul_scaled`
//! computes `tdiv(a * b, d)` exactly, widening internally so the product
//! never overflows.

use vstd::prelude::*;
use vstd::arithmetic::div_mod::{lemma_div_is_ordered, lemma_div_pos_is_pos};
use vstd::arithmetic::mul::lemma_mul_upper_bound;

verus! {

/// Division truncating toward zero (the direction Rust's `/` rounds),
/// defined for a positive divisor.
pub open spec fn tdiv(x: int, d: int) -> int {
    if x >= 0 {
        x / d
    } else {
        -((-x) / d)
    }
}

/// Truncating division is monotone in the dividend.
pub proof fn lemma_tdiv_ordered(x: int, y: int, d: int)
    requires
        d >= 1,
        x <= y,
    ensures
        tdiv(x, d) <= tdiv(y, d),
{
    if x >= 0 {
        lemma_div_is_ordered(x, y, d);
    } else if y < 0 {
        lemma_div_is_ordered(-y, -x, d);
    } else {
        lemma_div_pos_is_pos(-x, d);
        lemma_div_pos_is_pos(y, d);
    }
}

/// A product of bounded factors is bounded by the product of the
/// bounds.
pub proof fn lemma_mul_abs_bound(a: int, b: int, ma: int, mb: int)
    requires
        -ma <= a <= ma,
        0 <= b <= mb,
    ensures
        -(ma * mb) <= a * b <= ma * mb,
{
    assert(-(ma * mb) <= a * b <= ma * mb) by (nonlinear_arith)
        requires
            -ma <= a <= ma,
            0 <= b <= mb,
    ;
}

/// Dividing a value bounded by `m * d` through `d` leaves a value
/// bounded by `m`.
pub proof fn lemma_tdiv_scale_bound(x: int, d: int, m: int)
    requires
        d >= 1,
        0 <= m,
        -(m * d) <= x <= m * d,
    ensures
        -m <= tdiv(x, d) <= m,
{
    vstd::arithmetic::div_mod::lemma_div_by_multiple(m, d);
    if x >= 0 {
        lemma_div_is_ordered(x, m * d, d);
        lemma_div_pos_is_pos(x, d);
    } else {
        lemma_div_is_ordered(-x, m * d, d);
        lemma_div_pos_is_pos(-x, d);
    }
}

/// Computes `tdiv(a * b, d)` exactly. The product is formed in 128 bits,
/// so the only demand on the caller is that the quotient fit back in
/// an `i64`.
pub fn mul_scaled(a: i64, b: u64, d: u64) -> (r: i64)
    requires
        d >= 1,
        -(i64::MAX as int) <= tdiv(a as int * b as int, d as int) <= i64::MAX as int,
    ensures
        r as int == tdiv(a as int * b as int, d as int),
{
    let wide: i128 = a as i128;
    let mag: u128 = if wide < 0 {
        (-wide) as u128
    } else {
        wide as u128
    };
    assert(mag as int == if a < 0 { -(a as int) } else { a as int });
    proof {
        lemma_mul_upper_bound(mag as int, 0x8000_0000_0000_0000, b as int, u64::MAX as int);
    }
    let prod: u128 = mag * (b as u128);
    let q: u128 = prod / (d as u128);
    proof {
        assert(prod as int == mag as int * b as int);
        if a < 0 {
            assert(a as int * b as int == -(prod as int)) by (nonlinear_arith)
                requires
                    mag as int == -(a as int),
                    prod as int == mag as int * b as int,
            ;
        } else {
            assert(a as int * b as int == prod as int) by (nonlinear_arith)
                requires
                    mag as int == a as int,
                    prod as int == mag as int * b as int,
            ;
        }
        lemma_div_pos_is_pos(prod as int, d as int);
    }
    if wide < 0 {
        assert(tdiv(a as int * b as int, d as int) == -(q as int));
        -(q as i64)
    } else {
        assert(tdiv(a as int * b as int, d as int) == q as int);
        q as i64
    }
}

} // verus!
