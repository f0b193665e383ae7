//! Samples, fixed-point scaling, and the `normalize` clamp that every
//! effect stage ends with.
//!
//! A sample is a signed 16-bit integer. Stage arithmetic is carried out in
//! Q16 fixed point: an `i64` holding `value * 65536`. `normalize` takes such
//! a fixed-point value back to a sample by truncating toward zero and
//! clamping symmetrically to `[-32767, 32767]`.

use vstd::prelude::*;

verus! {

/// Fixed-point scale: this many fixed-point units represent 1.0.
pub const SCALE: i64 = 65536;

/// The format metadata a buffer carries: read once from the input, never
/// changed by a stage, and used only as the time base that turns a
/// frequency into a per-sample phase increment.
#[derive(Clone, Copy, Debug, PartialEq, Eq, Structural)]
pub struct FormatSpec {
    pub sample_rate: u32,
    pub channels: u16,
    pub bits_per_sample: u16,
}

impl FormatSpec {
    /// A usable time base: at least one sample per second.
    pub open spec fn valid(self) -> bool {
        self.sample_rate >= 1
    }
}

/// Symmetric clamp bound used by `normalize`: the largest sample magnitude.
pub const SAMPLE_LIMIT: i64 = 32767;

/// Truncating division (quotient rounded toward zero) for a positive divisor.
pub open spec fn tdiv(a: int, b: int) -> int
    recommends
        b > 0,
{
    if a >= 0 {
        a / b
    } else {
        -((-a) / b)
    }
}

/// Clamp `x` into `[lo, hi]`.
pub open spec fn clamp_spec(x: int, lo: int, hi: int) -> int {
    if x < lo {
        lo
    } else if x > hi {
        hi
    } else {
        x
    }
}

/// What `normalize` returns: the fixed-point value truncated toward zero to
/// whole sample units, then clamped symmetrically to `[-32767, 32767]`.
pub open spec fn normalize_spec(x: int) -> int {
    clamp_spec(tdiv(x, SCALE as int), -(SAMPLE_LIMIT as int), SAMPLE_LIMIT as int)
}

/// `tdiv` never leaves `[-m, m]` when the dividend lies in `[-b*m, b*m]`.
pub proof fn lemma_tdiv_bound(a: int, b: int, m: int)
    requires
        b > 0,
        0 <= m,
        -(b * m) <= a <= b * m,
    ensures
        -m <= tdiv(a, b) <= m,
{
    if a >= 0 {
        vstd::arithmetic::div_mod::lemma_div_is_ordered(a, b * m, b);
        vstd::arithmetic::div_mod::lemma_div_multiples_vanish(m, b);
        vstd::arithmetic::div_mod::lemma_div_pos_is_pos(a, b);
    } else {
        vstd::arithmetic::div_mod::lemma_div_is_ordered(-a, b * m, b);
        vstd::arithmetic::div_mod::lemma_div_multiples_vanish(m, b);
        vstd::arithmetic::div_mod::lemma_div_pos_is_pos(-a, b);
    }
}

/// Multiplying a truncated quotient back by the divisor stays between zero
/// and the dividend: truncation never grows a magnitude.
pub proof fn lemma_tdiv_mul_range(a: int, b: int)
    requires
        b > 0,
    ensures
        a >= 0 ==> 0 <= tdiv(a, b) * b <= a,
        a < 0 ==> a <= tdiv(a, b) * b <= 0,
{
    if a >= 0 {
        vstd::arithmetic::div_mod::lemma_fundamental_div_mod(a, b);
        vstd::arithmetic::div_mod::lemma_mod_division_less_than_divisor(a, b);
        vstd::arithmetic::div_mod::lemma_div_pos_is_pos(a, b);
        vstd::arithmetic::mul::lemma_mul_nonnegative(a / b, b);
        vstd::arithmetic::mul::lemma_mul_is_commutative(a / b, b);
    } else {
        vstd::arithmetic::div_mod::lemma_fundamental_div_mod(-a, b);
        vstd::arithmetic::div_mod::lemma_mod_division_less_than_divisor(-a, b);
        vstd::arithmetic::div_mod::lemma_div_pos_is_pos(-a, b);
        vstd::arithmetic::mul::lemma_mul_nonnegative((-a) / b, b);
        vstd::arithmetic::mul::lemma_mul_is_commutative((-a) / b, b);
        assert(tdiv(a, b) * b == -(((-a) / b) * b)) by (nonlinear_arith)
            requires
                b > 0,
                a < 0,
                tdiv(a, b) == -((-a) / b),
        ;
    }
}

/// Truncating division by one is the identity.
pub proof fn lemma_tdiv_by_one(a: int)
    ensures
        tdiv(a, 1) == a,
{
    if a >= 0 {
        vstd::arithmetic::mul::lemma_mul_is_commutative(a, 1);
        vstd::arithmetic::div_mod::lemma_div_multiples_vanish(a, 1);
    } else {
        vstd::arithmetic::mul::lemma_mul_is_commutative(-a, 1);
        vstd::arithmetic::div_mod::lemma_div_multiples_vanish(-a, 1);
    }
}

/// A common positive factor of dividend and divisor cancels out of a
/// truncating division.
pub proof fn lemma_tdiv_scale(a: int, b: int, c: int)
    requires
        b > 0,
        c > 0,
    ensures
        tdiv(a * c, b * c) == tdiv(a, b),
{
    if a >= 0 {
        vstd::arithmetic::mul::lemma_mul_nonnegative(a, c);
        vstd::arithmetic::div_mod::lemma_div_denominator(a * c, c, b);
        vstd::arithmetic::mul::lemma_mul_is_commutative(a, c);
        vstd::arithmetic::div_mod::lemma_div_multiples_vanish(a, c);
        vstd::arithmetic::mul::lemma_mul_is_commutative(b, c);
    } else {
        vstd::arithmetic::mul::lemma_mul_strictly_positive(-a, c);
        assert(a * c == -((-a) * c)) by (nonlinear_arith);
        vstd::arithmetic::div_mod::lemma_div_denominator((-a) * c, c, b);
        vstd::arithmetic::mul::lemma_mul_is_commutative(-a, c);
        vstd::arithmetic::div_mod::lemma_div_multiples_vanish(-a, c);
        vstd::arithmetic::mul::lemma_mul_is_commutative(b, c);
    }
}

/// Truncating division of an `i64` by a positive divisor, computed through
/// unsigned magnitudes so the rounding direction is explicit.
pub fn tdiv_i64(a: i64, b: i64) -> (r: i64)
    requires
        b > 0,
        a > i64::MIN,
    ensures
        r == tdiv(a as int, b as int),
{
    if a >= 0 {
        ((a as u64) / (b as u64)) as i64
    } else {
        let m: u64 = (-a) as u64;
        let q: u64 = m / (b as u64);
        proof {
            vstd::arithmetic::div_mod::lemma_div_nonincreasing(m as int, b as int);
            vstd::arithmetic::div_mod::lemma_div_pos_is_pos(m as int, b as int);
        }
        -(q as i64)
    }
}

/// Clamp-then-truncate a Q16 fixed-point value into a sample, as the spec
/// `normalize_spec` describes. Total over every `i64` input.
pub fn normalize(x: i64) -> (s: i16)
    ensures
        s as int == normalize_spec(x as int),
{
    if x >= 32767 * SCALE {
        proof {
            vstd::arithmetic::div_mod::lemma_div_is_ordered(
                32767 * (SCALE as int),
                x as int,
                SCALE as int,
            );
            vstd::arithmetic::div_mod::lemma_div_multiples_vanish(32767, SCALE as int);
        }
        32767
    } else if x <= -32767 * SCALE {
        proof {
            vstd::arithmetic::div_mod::lemma_div_is_ordered(
                32767 * (SCALE as int),
                -(x as int),
                SCALE as int,
            );
            vstd::arithmetic::div_mod::lemma_div_multiples_vanish(32767, SCALE as int);
        }
        -32767
    } else {
        let t = tdiv_i64(x, SCALE);
        proof {
            lemma_tdiv_bound(x as int, SCALE as int, 32767);
        }
        t as i16
    }
}

/// `normalize` always lands inside the symmetric sample range.
pub proof fn lemma_normalize_in_range(x: int)
    ensures
        -32767 <= normalize_spec(x) <= 32767,
{
}

} // verus!
