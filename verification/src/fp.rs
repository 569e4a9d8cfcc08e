//! Deterministic 64.64-bit fixed-point arithmetic over raw `u128` bit
//! patterns, plus the conversions between fixed-point values and
//! ledger-balance units.
//!
//! Every multiply and divide truncates toward zero; results must be
//! bit-exact across executors, so no floating point appears anywhere.
//! Multiplication, division and square root are delegated to the `fixed`
//! and `fixed-sqrt` crates, with exact contracts over the integer model
//! [`fmul`], [`fdiv`] and [`spec_isqrt`].

use vstd::prelude::*;
use vstd::arithmetic::div_mod::{
    lemma_div_is_ordered, lemma_fundamental_div_mod, lemma_hoist_over_denominator,
};
use vstd::arithmetic::mul::lemma_mul_inequality;

verus! {

/// The raw bit pattern of 1.0 in the 64.64 representation, i.e. 2^64.
pub const FP_ONE: u128 = 0x1_0000_0000_0000_0000;

/// One ledger-balance unit per whole fixed-point unit: 10^12.
pub const BALANCE_UNIT: u128 = 1_000_000_000_000;

/// Truncating fixed-point product of two raw 64.64 bit patterns.
pub open spec fn fmul(a: int, b: int) -> int {
    (a * b) / (FP_ONE as int)
}

/// Truncating fixed-point quotient of two raw 64.64 bit patterns.
pub open spec fn fdiv(a: int, b: int) -> int {
    (a * (FP_ONE as int)) / b
}

/// Raw 64.64 bit pattern of a balance taken as a whole-unit amount.
pub open spec fn fixed_of_balance(b: int) -> int {
    (b * (FP_ONE as int)) / (BALANCE_UNIT as int)
}

/// Balance units of a raw 64.64 bit pattern, truncated toward zero.
pub open spec fn balance_of_fixed(bits: int) -> int {
    (bits * (BALANCE_UNIT as int)) / (FP_ONE as int)
}

/// Integer square root: the largest `r` with `r * r <= n`.
pub open spec fn spec_isqrt(n: nat) -> nat
    decreases n,
{
    if n == 0 {
        0
    } else {
        let r = spec_isqrt((n - 1) as nat);
        if (r as int + 1) * (r as int + 1) <= n as int {
            r + 1
        } else {
            r
        }
    }
}

/// `spec_isqrt(n)` is exactly the floor of the square root of `n`.
pub proof fn lemma_isqrt(n: nat)
    ensures
        (spec_isqrt(n) as int) * (spec_isqrt(n) as int) <= n as int,
        (spec_isqrt(n) as int + 1) * (spec_isqrt(n) as int + 1) > n as int,
    decreases n,
{
    if n == 0 {
        assert(spec_isqrt(n) == 0);
        assert((spec_isqrt(n) as int) * (spec_isqrt(n) as int) <= n as int);
        assert((spec_isqrt(n) as int + 1) * (spec_isqrt(n) as int + 1) > n as int);
    } else {
        let r = spec_isqrt((n - 1) as nat) as int;
        lemma_isqrt((n - 1) as nat);
        if (r + 1) * (r + 1) <= n as int {
            assert(spec_isqrt(n) == r + 1);
            assert((r + 2) * (r + 2) > n) by (nonlinear_arith)
                requires
                    r >= 0,
                    (r + 1) * (r + 1) > n - 1,
                ;
            assert((spec_isqrt(n) as int) * (spec_isqrt(n) as int) == (r + 1) * (r + 1));
            assert((spec_isqrt(n) as int + 1) * (spec_isqrt(n) as int + 1) == (r + 2) * (r + 2));
        } else {
            assert(spec_isqrt(n) == r);
            assert((spec_isqrt(n) as int) * (spec_isqrt(n) as int) == r * r);
            assert((spec_isqrt(n) as int + 1) * (spec_isqrt(n) as int + 1) == (r + 1) * (r + 1));
        }
    }
}

/// Relies on `fixed::types::U64F64`'s `Mul`: the product of the raw bit
/// patterns shifted down by the 64 fractional bits, truncated.  Inputs whose
/// exact product does not fit the 128-bit representation are excluded.
#[verifier::external_body]
pub fn fp_mul(a: u128, b: u128) -> (r: u128)
    requires
        fmul(a as int, b as int) <= u128::MAX,
    ensures
        r as int == fmul(a as int, b as int),
{
    (fixed::types::U64F64::from_bits(a) * fixed::types::U64F64::from_bits(b)).to_bits()
}

/// Relies on `fixed::types::U64F64`'s `Div`: the dividend's raw bits shifted
/// up by the 64 fractional bits, divided by the divisor's raw bits,
/// truncated.  A zero divisor and quotients that do not fit are excluded.
#[verifier::external_body]
pub fn fp_div(a: u128, b: u128) -> (r: u128)
    requires
        b != 0,
        fdiv(a as int, b as int) <= u128::MAX,
    ensures
        r as int == fdiv(a as int, b as int),
{
    (fixed::types::U64F64::from_bits(a) / fixed::types::U64F64::from_bits(b)).to_bits()
}

/// Relies on `fixed_sqrt::FastSqrt` for `U64F64` (even number of fractional
/// bits): the result's raw bits are the integer square root of the input's
/// raw bits, shifted left by half the fractional bits.
#[verifier::external_body]
pub fn fp_sqrt(a: u128) -> (r: u128)
    ensures
        r as int == 0x1_0000_0000 * (spec_isqrt(a as nat) as int),
{
    fixed_sqrt::FastSqrt::fast_sqrt(fixed::types::U64F64::from_bits(a)).to_bits()
}

/// Converts a balance to its 64.64 fixed-point bit pattern.
pub fn to_fixed(b: u128) -> (r: u128)
    requires
        b < FP_ONE,
    ensures
        r as int == fixed_of_balance(b as int),
{
    (b * FP_ONE) / BALANCE_UNIT
}

/// Converts a 64.64 fixed-point bit pattern to balance units, truncating.
pub fn from_fixed(bits: u128) -> (r: u128)
    ensures
        r as int == balance_of_fixed(bits as int),
{
    let hi = bits / FP_ONE;
    let lo = bits % FP_ONE;
    proof {
        lemma_fundamental_div_mod(bits as int, FP_ONE as int);
        lemma_hoist_over_denominator(
            (lo * BALANCE_UNIT) as int,
            (hi * BALANCE_UNIT) as int,
            FP_ONE as nat,
        );
        assert(bits * BALANCE_UNIT
            == (lo * BALANCE_UNIT) as int + ((hi * BALANCE_UNIT) as int) * (FP_ONE as int))
            by (nonlinear_arith)
            requires
                bits == (FP_ONE as int) * (hi as int) + lo,
            ;
    }
    hi * BALANCE_UNIT + (lo * BALANCE_UNIT) / FP_ONE
}

/// A fixed-point factor of at most one can only shrink what it scales.
pub proof fn lemma_fmul_le(a: int, b: int)
    requires
        0 <= a <= FP_ONE,
        0 <= b,
    ensures
        fmul(a, b) <= b,
        fmul(b, a) <= b,
        fmul(a, b) >= 0,
{
    lemma_mul_inequality(a, FP_ONE as int, b);
    lemma_div_is_ordered(a * b, (FP_ONE as int) * b, FP_ONE as int);
    assert(((FP_ONE as int) * b) / (FP_ONE as int) == b) by (nonlinear_arith);
    assert(a * b == b * a) by (nonlinear_arith);
    vstd::arithmetic::mul::lemma_mul_nonnegative(a, b);
    lemma_div_is_ordered(0, a * b, FP_ONE as int);
}

/// Scaling down to balance units never exceeds the original balance.
pub proof fn lemma_balance_round_trip(stake: int, x: int)
    requires
        0 <= x <= fixed_of_balance(stake),
        0 <= stake,
    ensures
        balance_of_fixed(x) <= stake,
{
    let s = FP_ONE as int;
    let e = BALANCE_UNIT as int;
    lemma_div_is_ordered(x * e, fixed_of_balance(stake) * e, s);
    assert(fixed_of_balance(stake) * e <= stake * s) by {
        lemma_fundamental_div_mod(stake * s, e);
        assert(e * ((stake * s) / e) <= stake * s);
        lemma_mul_inequality((stake * s) / e, stake * s / e + 0, e);
        assert(((stake * s) / e) * e == e * ((stake * s) / e)) by (nonlinear_arith);
    }
    lemma_div_is_ordered(fixed_of_balance(stake) * e, stake * s, s);
    assert((stake * s) / s == stake) by (nonlinear_arith)
        requires
            s > 0,
        ;
    assert(x * e <= fixed_of_balance(stake) * e) by {
        lemma_mul_inequality(x, fixed_of_balance(stake), e);
    }
}

} // verus!
