//! Integer approximations of the two transcendental curves the effect
//! stages need: a sine for the oscillators and a hyperbolic tangent for
//! soft clipping. Both work in Q16 fixed point (65536 = 1.0).
//!
//! The sine uses the classic rational half-wave approximation
//! `sin(pi*u) ~= 16u(1-u) / (5 - 4u(1-u))` for `u` in `[0,1]`, which is
//! exact at 0, 1/2 and 1. The tangent uses the Pade form
//! `tanh(x) ~= x(27+x^2) / (27+9x^2)` with the argument clamped to
//! `[-3, 3]`; both results are clamped into `[-1, 1]`.

use vstd::prelude::*;
use crate::sample::{clamp_spec, tdiv, tdiv_i64, lemma_tdiv_bound};

verus! {

/// One full oscillator cycle in phase units (2^32): a phase accumulator is
/// a fraction of a cycle scaled by this modulus.
pub const PHASE_SCALE: u64 = 4294967296;

/// Half a cycle in phase units (2^31).
pub const HALF_PHASE: u64 = 2147483648;

/// The first half-wave of the sine, for a phase `p` in `[0, 2^31)`:
/// the rational approximation evaluated on the reduced argument
/// `q = p / 65536`, returning a Q16 value in `[0, 65536]`.
pub open spec fn sin_half_spec(p: int) -> int
    recommends
        0 <= p < HALF_PHASE as int,
{
    let q = p / 65536;
    let v = q * (32768 - q);
    tdiv(16 * v * 65536, 5368709120 - 4 * v)
}

/// Q16 sine of a phase in `[0, 2^32)`: the first half-cycle is the positive
/// half-wave, the second its negation.
pub open spec fn sin_q16_spec(phase: int) -> int
    recommends
        0 <= phase < PHASE_SCALE as int,
{
    if phase < HALF_PHASE as int {
        sin_half_spec(phase)
    } else {
        -sin_half_spec(phase - HALF_PHASE as int)
    }
}

/// The half-wave value lies in `[0, 65536]`, and is 0 at phase 0.
pub proof fn lemma_sin_half_bounds(p: int)
    requires
        0 <= p < HALF_PHASE as int,
    ensures
        0 <= sin_half_spec(p) <= 65536,
        p == 0 ==> sin_half_spec(p) == 0,
{
    let q = p / 65536;
    vstd::arithmetic::div_mod::lemma_div_pos_is_pos(p, 65536);
    vstd::arithmetic::div_mod::lemma_div_is_ordered(p, 2147483647, 65536);
    assert(0 <= q <= 32767);
    let v = q * (32768 - q);
    assert(0 <= q * (32768 - q) <= 268435456) by (nonlinear_arith)
        requires
            0 <= q <= 32767,
    ;
    lemma_tdiv_bound(16 * v * 65536, 5368709120 - 4 * v, 65536);
    vstd::arithmetic::div_mod::lemma_div_pos_is_pos(16 * v * 65536, 5368709120 - 4 * v);
    if p == 0 {
        assert(q == 0);
        assert(v == 0);
        vstd::arithmetic::div_mod::lemma_div_of0(5368709120);
    }
}

/// The sine value lies in `[-65536, 65536]`, and is 0 at phase 0.
pub proof fn lemma_sin_bounds(phase: int)
    requires
        0 <= phase < PHASE_SCALE as int,
    ensures
        -65536 <= sin_q16_spec(phase) <= 65536,
        phase == 0 ==> sin_q16_spec(phase) == 0,
{
    if phase < HALF_PHASE as int {
        lemma_sin_half_bounds(phase);
    } else {
        lemma_sin_half_bounds(phase - HALF_PHASE as int);
    }
}

/// Q16 sine of a phase accumulator value.
pub fn sin_q16(phase: u64) -> (r: i64)
    requires
        phase < PHASE_SCALE,
    ensures
        r == sin_q16_spec(phase as int),
        -65536 <= r <= 65536,
{
    let neg: bool = phase >= HALF_PHASE;
    let p: u64 = if neg {
        phase - HALF_PHASE
    } else {
        phase
    };
    let q: i64 = (p / 65536) as i64;
    proof {
        vstd::arithmetic::div_mod::lemma_div_pos_is_pos(p as int, 65536);
        vstd::arithmetic::div_mod::lemma_div_is_ordered(p as int, 2147483647, 65536);
    }
    proof {
        assert(0 <= q * (32768 - q) <= 268435456) by (nonlinear_arith)
            requires
                0 <= q <= 32767,
        ;
    }
    let v: i64 = q * (32768 - q);
    let num: i64 = 16 * v * 65536;
    let den: i64 = 5368709120 - 4 * v;
    let s: i64 = tdiv_i64(num, den);
    proof {
        lemma_tdiv_bound(num as int, den as int, 65536);
        vstd::arithmetic::div_mod::lemma_div_pos_is_pos(num as int, den as int);
    }
    if neg {
        -s
    } else {
        s
    }
}

/// What the soft-clip curve returns for a Q16 argument: the argument is
/// clamped to `[-3, 3]`, pushed through the rational tangent form, and the
/// result clamped to `[-1, 1]` (all in Q16 units).
pub open spec fn tanh_q16_spec(x: int) -> int {
    let t = clamp_spec(x, -196608, 196608);
    let x2 = tdiv(t * t, 65536);
    let num = tdiv(t * (1769472 + x2), 65536);
    let den = 1769472 + 9 * x2;
    clamp_spec(tdiv(num * 65536, den), -65536, 65536)
}

/// The curve is bounded by `[-65536, 65536]` and fixes 0.
pub proof fn lemma_tanh_bounds(x: int)
    ensures
        -65536 <= tanh_q16_spec(x) <= 65536,
        x == 0 ==> tanh_q16_spec(x) == 0,
{
    if x == 0 {
        let t = clamp_spec(0, -196608, 196608);
        assert(t == 0);
        vstd::arithmetic::div_mod::lemma_div_of0(65536);
        assert(tdiv(0int * 0, 65536) == 0);
        assert(tdiv(0int * (1769472 + 0), 65536) == 0);
        vstd::arithmetic::div_mod::lemma_div_of0(1769472);
    }
}

/// Q16 soft-clip curve of a Q16 argument, following `tanh_q16_spec`.
pub fn tanh_q16(x: i64) -> (r: i64)
    requires
        i64::MIN < x,
    ensures
        r == tanh_q16_spec(x as int),
        -65536 <= r <= 65536,
{
    let t: i64 = if x > 196608 {
        196608
    } else if x < -196608 {
        -196608
    } else {
        x
    };
    proof {
        assert(0 <= t * t <= 38654705664) by (nonlinear_arith)
            requires
                -196608 <= t <= 196608,
        ;
    }
    let x2: i64 = tdiv_i64(t * t, 65536);
    proof {
        lemma_tdiv_bound((t * t) as int, 65536, 589824);
        vstd::arithmetic::div_mod::lemma_div_pos_is_pos((t * t) as int, 65536);
    }
    proof {
        assert(-463856467968 <= t * (1769472 + x2) <= 463856467968) by (nonlinear_arith)
            requires
                -196608 <= t <= 196608,
                0 <= x2 <= 589824,
        ;
    }
    let num: i64 = tdiv_i64(t * (1769472 + x2), 65536);
    proof {
        lemma_tdiv_bound((t * (1769472 + x2)) as int, 65536, 7077888);
    }
    let den: i64 = 1769472 + 9 * x2;
    let u: i64 = tdiv_i64(num * 65536, den);
    let r: i64 = if u > 65536 {
        65536
    } else if u < -65536 {
        -65536
    } else {
        u
    };
    r
}

} // verus!
