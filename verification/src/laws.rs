//! The laws the stages obey, stated once and proved from the stage specs:
//! boundary parameters that make a stage the identity (or a pure scaler),
//! the two-value collapse of one-bit crushing, silence preservation, and
//! determinism of pink noise generation.

use vstd::prelude::*;
use crate::sample::{clamp_spec, tdiv, lemma_tdiv_by_one, lemma_tdiv_scale};
use crate::trig::{sin_q16_spec, lemma_sin_bounds, lemma_tanh_bounds};
use crate::noise::{PinkBank, bank_at, pink_out_seq};
use crate::stages::{
    crush_sample_spec, crush_step, distort_sample_spec, ring_sample_spec, tel_sample_spec,
    trem_sample_spec, distort_seq, trem_seq, tel_seq, ring_seq, crush_seq, phase_at,
    lemma_phase_at_range,
};

verus! {

/// At full bit depth the crusher is the identity: the quantization step is
/// 1, so dividing and multiplying back changes nothing, and the clamp to
/// the full 16-bit range cannot bind.
pub proof fn lemma_bitcrush_full_depth_identity(s: int)
    requires
        -32768 <= s <= 32767,
    ensures
        crush_sample_spec(s, crush_step(16)) == s,
{
    vstd::arithmetic::power2::lemma2_to64();
    assert(crush_step(16) == 1);
    lemma_tdiv_by_one(s);
}

/// At one bit the crusher collapses every sample to one of exactly two
/// values: 0 for magnitudes under the step, -32768 for the one full
/// negative step.
pub proof fn lemma_bitcrush_one_bit_two_values(s: int)
    requires
        -32768 <= s <= 32767,
    ensures
        crush_sample_spec(s, crush_step(1)) == 0 || crush_sample_spec(s, crush_step(1)) == -32768,
        s == -32768 ==> crush_sample_spec(s, crush_step(1)) == -32768,
        -32767 <= s <= 32767 ==> crush_sample_spec(s, crush_step(1)) == 0,
{
    vstd::arithmetic::power2::lemma2_to64();
    assert(crush_step(1) == 32768);
    if s >= 0 {
        vstd::arithmetic::div_mod::lemma_basic_div(s, 32768);
        assert(tdiv(s, 32768) == 0);
    } else if s == -32768 {
        vstd::arithmetic::div_mod::lemma_div_by_self(32768);
        assert(tdiv(s, 32768) == -1);
    } else {
        vstd::arithmetic::div_mod::lemma_basic_div(-s, 32768);
        assert(tdiv(s, 32768) == 0);
    }
}

/// With a zero high-pass coefficient the telephone stage is a pure 3/2
/// boost: each output is the input times 1.5, truncated toward zero and
/// clamped symmetrically, whatever the remembered previous sample was.
pub proof fn lemma_telephone_zero_alpha_boosts(s: int, prev: int)
    ensures
        tel_sample_spec(s, prev, 0) == clamp_spec(tdiv(3 * s, 2), -32767, 32767),
{
    let a = 3 * s;
    assert((s * 65536 - prev * 0) * 3 == (((3 * s) * 32768)) * 2) by (nonlinear_arith);
    lemma_tdiv_scale(a * 32768, 1, 2);
    lemma_tdiv_by_one(a * 32768);
    assert(tdiv((s * 65536 - prev * 0) * 3, 2) == a * 32768);
    lemma_tdiv_scale(a, 2, 32768);
    assert(tdiv(a * 32768, 65536) == tdiv(a, 2));
}

/// Ring modulation always zeroes the sample at phase zero: the sine of
/// zero is exactly zero.
pub proof fn lemma_ring_zero_phase(s: int)
    ensures
        ring_sample_spec(s, 0) == 0,
{
    lemma_sin_bounds(0);
    assert(s * sin_q16_spec(0) == 0) by (nonlinear_arith)
        requires
            sin_q16_spec(0) == 0,
    ;
    vstd::arithmetic::div_mod::lemma_div_of0(65536);
}

/// Tremolo with zero depth is the identity on every sample in the
/// symmetric range, at every phase and rate: the modulation factor is
/// exactly 1.
pub proof fn lemma_tremolo_zero_depth_identity(s: int, phase: int)
    requires
        -32767 <= s <= 32767,
        0 <= phase < 4294967296,
    ensures
        trem_sample_spec(s, phase, 0) == s,
{
    lemma_sin_bounds(phase);
    let lfo = tdiv(sin_q16_spec(phase) + 65536, 2);
    assert(0 * (65536 - lfo) == 0) by (nonlinear_arith);
    vstd::arithmetic::div_mod::lemma_div_of0(65536);
    assert(tdiv(0, 65536) == 0);
    vstd::arithmetic::mul::lemma_mul_is_commutative(s, 65536);
    vstd::arithmetic::div_mod::lemma_div_multiples_vanish(s, 65536);
    if s >= 0 {
        assert(tdiv(s * 65536, 65536) == s);
    } else {
        assert(-(s * 65536) == (-s) * 65536) by (nonlinear_arith);
        vstd::arithmetic::mul::lemma_mul_is_commutative(-s, 65536);
        vstd::arithmetic::div_mod::lemma_div_multiples_vanish(-s, 65536);
    }
}

/// The full-depth crusher is the identity on whole buffers.
pub proof fn lemma_bitcrush_full_depth_seq_identity(s: Seq<int>)
    requires
        forall|j: int| 0 <= j < s.len() ==> -32768 <= #[trigger] s[j] <= 32767,
    ensures
        crush_seq(s, crush_step(16)) == s,
{
    assert forall|j: int| 0 <= j < s.len() implies crush_seq(s, crush_step(16))[j] == s[j] by {
        lemma_bitcrush_full_depth_identity(s[j]);
    }
    assert(crush_seq(s, crush_step(16)) =~= s);
}

/// Zero-depth tremolo is the identity on whole buffers in the symmetric
/// range, whatever the rate (and so whatever the phase step).
pub proof fn lemma_tremolo_zero_depth_seq_identity(s: Seq<int>, inc: int)
    requires
        forall|j: int| 0 <= j < s.len() ==> -32767 <= #[trigger] s[j] <= 32767,
        0 <= inc < 4294967296,
    ensures
        trem_seq(s, inc, 0) == s,
{
    assert forall|j: int| 0 <= j < s.len() implies trem_seq(s, inc, 0)[j] == s[j] by {
        lemma_phase_at_range(inc, j);
        lemma_tremolo_zero_depth_identity(s[j], phase_at(inc, j));
    }
    assert(trem_seq(s, inc, 0) =~= s);
}

/// Pink noise generation is deterministic: the bank state and every
/// generated value are functions of the starting state and the draw
/// sequence alone, so two runs over equal draws agree everywhere.
pub proof fn lemma_pink_deterministic(b1: PinkBank, b2: PinkBank, ws1: Seq<i64>, ws2: Seq<i64>)
    requires
        b1 == b2,
        ws1 == ws2,
    ensures
        pink_out_seq(b1, ws1) == pink_out_seq(b2, ws2),
        forall|i: int| bank_at(b1, ws1, i) == bank_at(b2, ws2, i),
{
}

/// Every noiseless stage maps silence to silence, one sample at a time:
/// distortion, tremolo, telephone (with silent memory), ring modulation
/// and bit crushing all fix zero.
pub proof fn lemma_stages_fix_zero(gain: int, phase: int, depth: int, alpha: int, step: int)
    requires
        1 <= step,
    ensures
        distort_sample_spec(0, gain) == 0,
        trem_sample_spec(0, phase, depth) == 0,
        tel_sample_spec(0, 0, alpha) == 0,
        ring_sample_spec(0, phase) == 0,
        crush_sample_spec(0, step) == 0,
{
    vstd::arithmetic::div_mod::lemma_div_of0(65536);
    vstd::arithmetic::div_mod::lemma_div_of0(32767);
    vstd::arithmetic::div_mod::lemma_div_of0(2);
    vstd::arithmetic::div_mod::lemma_div_of0(step);
    lemma_tanh_bounds(0);
    assert(0 * gain == 0) by (nonlinear_arith);
    assert(0int * 32767 == 0);
    let lfo = tdiv(sin_q16_spec(phase) + 65536, 2);
    let m = 65536 - tdiv(depth * (65536 - lfo), 65536);
    assert(0 * m == 0) by (nonlinear_arith);
    assert(0 * sin_q16_spec(phase) == 0) by (nonlinear_arith);
    assert(tdiv(0, step) * step == 0) by (nonlinear_arith)
        requires
            tdiv(0, step) == 0,
    ;
}

/// A silent buffer stays silent through the whole noiseless chain:
/// distortion, tremolo, telephone, ring modulation and bit crushing in
/// pipeline order map an all-zero buffer to itself.
pub proof fn lemma_noiseless_chain_keeps_silence(
    s: Seq<int>,
    gain: int,
    inc_t: int,
    depth: int,
    alpha: int,
    inc_r: int,
    step: int,
)
    requires
        forall|j: int| 0 <= j < s.len() ==> s[j] == 0,
        1 <= step,
    ensures
        crush_seq(
            ring_seq(tel_seq(trem_seq(distort_seq(s, gain), inc_t, depth), alpha), inc_r),
            step,
        ) == s,
{
    let s3 = distort_seq(s, gain);
    assert forall|j: int| 0 <= j < s.len() implies s3[j] == 0 by {
        lemma_stages_fix_zero(gain, 0, depth, alpha, step);
    }
    let s4 = trem_seq(s3, inc_t, depth);
    assert forall|j: int| 0 <= j < s.len() implies s4[j] == 0 by {
        lemma_stages_fix_zero(gain, phase_at(inc_t, j), depth, alpha, step);
    }
    let s5 = tel_seq(s4, alpha);
    assert forall|j: int| 0 <= j < s.len() implies s5[j] == 0 by {
        lemma_stages_fix_zero(gain, 0, depth, alpha, step);
    }
    let s6 = ring_seq(s5, inc_r);
    assert forall|j: int| 0 <= j < s.len() implies s6[j] == 0 by {
        lemma_stages_fix_zero(gain, phase_at(inc_r, j), depth, alpha, step);
    }
    let s7 = crush_seq(s6, step);
    assert forall|j: int| 0 <= j < s.len() implies s7[j] == 0 by {
        lemma_stages_fix_zero(gain, 0, depth, alpha, step);
    }
    assert(s7 =~= s);
}

} // verus!
