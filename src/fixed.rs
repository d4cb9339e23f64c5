//! 16.16 fixed-point arithmetic with rounding toward zero.
use vstd::prelude::*;

verus! {

/// The fixed-point value of one unit.
pub const ONE: i64 = 65536;

/// Integer division rounding toward zero, for a positive divisor.
pub open spec fn tdiv(a: int, d: int) -> int {
    if a >= 0 {
        a / d
    } else {
        -((-a) / d)
    }
}

/// The product of two fixed-point values, rounded toward zero.
pub open spec fn fmul(a: int, b: int) -> int {
    tdiv(a * b, ONE as int)
}

/// `|x|`.
pub open spec fn abs(x: int) -> int {
    if x >= 0 {
        x
    } else {
        -x
    }
}

/// `tdiv` never grows a value's magnitude.
pub proof fn lemma_tdiv_bound(a: int, d: int)
    requires
        d > 0,
    ensures
        abs(tdiv(a, d)) <= abs(a),
        abs(tdiv(a, d)) * d <= abs(a),
        a >= 0 ==> tdiv(a, d) >= 0,
{
    let m = abs(a);
    vstd::arithmetic::div_mod::lemma_fundamental_div_mod(m, d);
    vstd::arithmetic::div_mod::lemma_mod_pos_bound(m, d);
    vstd::arithmetic::div_mod::lemma_div_pos_is_pos(m, d);
    vstd::arithmetic::div_mod::lemma_div_is_ordered_by_denominator(m, 1, d);
    vstd::arithmetic::mul::lemma_mul_is_commutative(m / d, d);
    assert(abs(tdiv(a, d)) == m / d);
}

/// Truncating division of `a` by a positive `d`.
pub fn div_toward_zero(a: i128, d: i128) -> (r: i128)
    requires
        d > 0,
        a > i128::MIN,
    ensures
        r == tdiv(a as int, d as int),
{
    proof {
        lemma_tdiv_bound(a as int, d as int);
    }
    if a >= 0 {
        ((a as u128) / (d as u128)) as i128
    } else {
        let m: u128 = (-a) as u128;
        -((m / (d as u128)) as i128)
    }
}

/// Fixed-point product, rounded toward zero.
pub fn fixed_mul(a: i128, b: i128) -> (r: i128)
    requires
        abs(a as int) <= 0x4000_0000_0000_0000,
        abs(b as int) <= 0x4000_0000_0000_0000,
    ensures
        r == fmul(a as int, b as int),
{
    proof {
        assert(abs(a as int) * abs(b as int) <= 0x4000_0000_0000_0000 * 0x4000_0000_0000_0000)
            by (nonlinear_arith)
            requires
                abs(a as int) <= 0x4000_0000_0000_0000,
                abs(b as int) <= 0x4000_0000_0000_0000,
                abs(a as int) >= 0,
                abs(b as int) >= 0,
        ;
        assert(abs((a * b) as int) == abs(a as int) * abs(b as int)) by (nonlinear_arith);
    }
    div_toward_zero(a * b, ONE as i128)
}

} // verus!
