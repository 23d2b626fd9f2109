//! Numbers are doubles held as their IEEE-754 bit patterns. Comparisons and
//! truthiness are decided on the bits: among non-NaN values, those with the
//! sign bit clear are ordered by their magnitude bits, those with it set by
//! the negated magnitude, and the two zeros are equal.

use vstd::arithmetic::div_mod::lemma_fundamental_div_mod;
use vstd::arithmetic::power2::{lemma2_to64, lemma2_to64_rest, lemma_pow2_pos, pow2};
use vstd::bits::{lemma_u64_shl_is_mul, lemma_u64_shr_is_div};
use vstd::prelude::*;

verus! {

pub const SIGN_BIT: u64 = 0x8000_0000_0000_0000;
pub const MAGNITUDE: u64 = 0x7fff_ffff_ffff_ffff;
pub const INFINITY_BITS: u64 = 0x7ff0_0000_0000_0000;
/// The bits of `0.5`.
pub const HALF_BITS: u64 = 0x3fe0_0000_0000_0000;
/// The bits of `1.0`.
pub const ONE_BITS: u64 = 0x3ff0_0000_0000_0000;

pub open spec fn is_nan(b: u64) -> bool {
    (b & MAGNITUDE) > INFINITY_BITS
}

/// An integer that orders non-NaN doubles as their values are ordered.
pub open spec fn order_key(b: u64) -> int {
    if b >= SIGN_BIT {
        -((b & MAGNITUDE) as int)
    } else {
        (b & MAGNITUDE) as int
    }
}

/// `a < b` on doubles.
pub open spec fn num_lt(a: u64, b: u64) -> bool {
    !is_nan(a) && !is_nan(b) && order_key(a) < order_key(b)
}

/// `a <= b` on doubles.
pub open spec fn num_le(a: u64, b: u64) -> bool {
    !is_nan(a) && !is_nan(b) && order_key(a) <= order_key(b)
}

/// `a == b` on doubles.
pub open spec fn num_eq(a: u64, b: u64) -> bool {
    !is_nan(a) && !is_nan(b) && order_key(a) == order_key(b)
}

/// A value is true when it is at least `0.5`.
pub open spec fn truthy(b: u64) -> bool {
    num_le(HALF_BITS, b)
}

/// `1.0` for true, `0.0` for false.
pub open spec fn from_bool(c: bool) -> u64 {
    if c {
        ONE_BITS
    } else {
        0
    }
}

/// The index that a double stands for: its value when that value is a whole
/// number below `2^53`, else `None`. Positive zero stands for `0`; a double
/// with biased exponent `e` (the bits above the fraction, so at least `2048`
/// when the sign is set) and fraction `f` has the value
/// `(2^52 + f) / 2^(1075 - e)`, which is whole and in `1..2^53` exactly when
/// `1023 <= e <= 1075` and the division leaves no remainder.
pub open spec fn index_of(b: u64) -> Option<u64> {
    if b == 0 {
        Some(0)
    } else {
        let e = b as int / 0x10_0000_0000_0000;
        let significand = b as int % 0x10_0000_0000_0000 + 0x10_0000_0000_0000;
        let scale = pow2((1075 - e) as nat) as int;
        if 1023 <= e <= 1075 && significand % scale == 0 {
            Some((significand / scale) as u64)
        } else {
            None
        }
    }
}

pub fn index_bits(b: u64) -> (r: Option<u64>)
    ensures
        r == index_of(b),
{
    if b == 0 {
        return Some(0);
    }
    let e = b >> 52u64;
    proof {
        lemma_u64_shr_is_div(b, 52u64);
        lemma2_to64();
        lemma2_to64_rest();
    }
    if e < 1023 || e > 1075 {
        return None;
    }
    let f = b & 0xf_ffff_ffff_ffffu64;
    let m = f | 0x10_0000_0000_0000u64;
    assert(f == b % 0x10_0000_0000_0000u64 && f < 0x10_0000_0000_0000u64) by (bit_vector)
        requires
            f == b & 0xf_ffff_ffff_ffffu64,
    ;
    assert(m == f + 0x10_0000_0000_0000u64) by (bit_vector)
        requires
            f < 0x10_0000_0000_0000u64,
            m == f | 0x10_0000_0000_0000u64,
    ;
    let sh = (1075 - e) as u64;
    let q = m >> sh;
    proof {
        lemma_u64_shr_is_div(m, sh);
        let p = pow2(sh as nat);
        lemma_pow2_pos(sh as nat);
        lemma_fundamental_div_mod(m as int, p as int);
        assert(q * p <= m) by (nonlinear_arith)
            requires
                m as int == p as int * q as int + m as int % p as int,
                m as int % p as int >= 0,
                p > 0,
        ;
        lemma_u64_shl_is_mul(q, sh);
    }
    if q << sh == m {
        Some(q)
    } else {
        None
    }
}

/// A double truncated toward zero and saturated to the range of `i8`, as
/// Rust's `as i8` converts it; NaN reads as `0`. `whole` is the magnitude
/// truncated, capped at `128` (every magnitude from `128` up saturates).
pub open spec fn small_of(b: u64) -> i8 {
    let mag = (b & MAGNITUDE) as int;
    let e = mag / 0x10_0000_0000_0000;
    let significand = mag % 0x10_0000_0000_0000 + 0x10_0000_0000_0000;
    let whole: int = if e < 1023 {
        0
    } else if e >= 1030 {
        128
    } else {
        significand / (pow2((1075 - e) as nat) as int)
    };
    if is_nan(b) {
        0i8
    } else if b >= SIGN_BIT {
        if whole >= 128 {
            -128i8
        } else {
            (-whole) as i8
        }
    } else {
        if whole >= 127 {
            127i8
        } else {
            whole as i8
        }
    }
}

pub fn small_bits(b: u64) -> (r: i8)
    ensures
        r == small_of(b),
{
    let mag = b & MAGNITUDE;
    if mag > INFINITY_BITS {
        return 0;
    }
    let e = mag >> 52u64;
    proof {
        lemma_u64_shr_is_div(mag, 52u64);
        lemma2_to64();
        lemma2_to64_rest();
    }
    let whole: u64 = if e < 1023 {
        0
    } else if e >= 1030 {
        128
    } else {
        let f = mag & 0xf_ffff_ffff_ffffu64;
        let m = f | 0x10_0000_0000_0000u64;
        assert(f == mag % 0x10_0000_0000_0000u64 && f < 0x10_0000_0000_0000u64) by (bit_vector)
            requires
                f == mag & 0xf_ffff_ffff_ffffu64,
        ;
        assert(m == f + 0x10_0000_0000_0000u64) by (bit_vector)
            requires
                f < 0x10_0000_0000_0000u64,
                m == f | 0x10_0000_0000_0000u64,
        ;
        let sh = (1075 - e) as u64;
        proof {
            lemma_u64_shr_is_div(m, sh);
            lemma_pow2_pos(sh as nat);
            lemma2_to64();
            if sh > 46 {
                vstd::arithmetic::power2::lemma_pow2_strictly_increases(46, sh as nat);
            }
            assert(m < 0x20_0000_0000_0000u64);
            vstd::arithmetic::div_mod::lemma_div_is_ordered_by_denominator(
                m as int,
                pow2(46) as int,
                pow2(sh as nat) as int,
            );
            assert(m as int / 0x4000_0000_0000 < 128);
        }
        m >> sh
    };
    assert(whole <= 128);
    if b >= SIGN_BIT {
        if whole >= 128 {
            -128
        } else {
            -(whole as i8)
        }
    } else {
        if whole >= 127 {
            127
        } else {
            whole as i8
        }
    }
}

pub fn lt_bits(a: u64, b: u64) -> (r: bool)
    ensures
        r == num_lt(a, b),
{
    let ma = a & MAGNITUDE;
    let mb = b & MAGNITUDE;
    if ma > INFINITY_BITS || mb > INFINITY_BITS {
        false
    } else if a < SIGN_BIT && b < SIGN_BIT {
        ma < mb
    } else if a >= SIGN_BIT && b >= SIGN_BIT {
        ma > mb
    } else if a >= SIGN_BIT {
        !(ma == 0 && mb == 0)
    } else {
        false
    }
}

pub fn le_bits(a: u64, b: u64) -> (r: bool)
    ensures
        r == num_le(a, b),
{
    let ma = a & MAGNITUDE;
    let mb = b & MAGNITUDE;
    if ma > INFINITY_BITS || mb > INFINITY_BITS {
        false
    } else if a < SIGN_BIT && b < SIGN_BIT {
        ma <= mb
    } else if a >= SIGN_BIT && b >= SIGN_BIT {
        ma >= mb
    } else if a >= SIGN_BIT {
        true
    } else {
        ma == 0 && mb == 0
    }
}

pub fn eq_bits(a: u64, b: u64) -> (r: bool)
    ensures
        r == num_eq(a, b),
{
    le_bits(a, b) && le_bits(b, a)
}

pub fn truthy_bits(b: u64) -> (r: bool)
    ensures
        r == truthy(b),
{
    le_bits(HALF_BITS, b)
}

pub fn bool_bits(c: bool) -> (r: u64)
    ensures
        r == from_bool(c),
{
    if c {
        ONE_BITS
    } else {
        0
    }
}

} // verus!
