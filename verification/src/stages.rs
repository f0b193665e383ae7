//! The seven effect stages. Each one walks the buffer once, in index
//! order, rewrites every sample in place, and never changes the buffer's
//! length. Fractional parameters (level, depth, gain, alpha, rate in Hz)
//! are Q16 fixed point: 65536 stands for 1.0.

use vstd::prelude::*;
use crate::sample::{
    FormatSpec, clamp_spec, normalize, normalize_spec, tdiv, tdiv_i64, lemma_tdiv_bound,
    lemma_tdiv_mul_range,
};
use crate::trig::{sin_q16, sin_q16_spec, lemma_sin_bounds, tanh_q16, tanh_q16_spec};
use crate::noise::{PinkNoiseGenerator, PinkBank, bank_at, bank_out};

verus! {

/// What the white noise stage makes of one sample: the draw, scaled by
/// `level`, added in Q16, then normalized.
pub open spec fn white_sample_spec(s: int, n: int, level: int) -> int {
    normalize_spec(s * 65536 + n * level)
}

/// Mix one full-range uniform draw per sample into the buffer, scaled by
/// `level`, and normalize. `noise` supplies the draws in buffer order.
pub fn white(samples: &mut Vec<i16>, level: i64, noise: &Vec<i16>)
    requires
        0 <= level <= 65536,
        noise@.len() >= old(samples)@.len(),
    ensures
        final(samples)@.len() == old(samples)@.len(),
        forall|j: int|
            0 <= j < old(samples)@.len() ==> #[trigger] final(samples)@[j] as int
                == white_sample_spec(old(samples)@[j] as int, noise@[j] as int, level as int),
        forall|j: int|
            0 <= j < old(samples)@.len() ==> -32767 <= #[trigger] final(samples)@[j] <= 32767,
{
    let len: usize = samples.len();
    let mut i: usize = 0;
    while i < len
        invariant
            i <= len,
            len == old(samples)@.len(),
            samples@.len() == len,
            noise@.len() >= len,
            0 <= level <= 65536,
            forall|j: int| i <= j < len ==> #[trigger] samples@[j] == old(samples)@[j],
            forall|j: int|
                0 <= j < i ==> #[trigger] samples@[j] as int == white_sample_spec(
                    old(samples)@[j] as int,
                    noise@[j] as int,
                    level as int,
                ),
        decreases len - i,
    {
        let s: i64 = samples[i] as i64;
        let n: i64 = noise[i] as i64;
        proof {
            assert(-2147483648 <= n * level <= 2147483648) by (nonlinear_arith)
                requires
                    -32768 <= n <= 32767,
                    0 <= level <= 65536,
            ;
        }
        let mix: i64 = s * 65536 + n * level;
        samples[i] = normalize(mix);
        i = i + 1;
    }
}

/// What the pink noise stage makes of one sample: the generator's pink
/// value, scaled to sample range and by `level`, added in Q16, normalized.
pub open spec fn pink_sample_spec(s: int, g: int, level: int) -> int {
    normalize_spec(s * 65536 + tdiv(g * 32767 * level, 65536))
}

/// Mix spectrally shaped noise into the buffer: one white draw from
/// `noise` is folded into the generator per sample, and the shaped value
/// is scaled and added. The generator's feedback state carries across the
/// whole pass, starting from whatever state `pnkg` holds.
pub fn pink(samples: &mut Vec<i16>, level: i64, pnkg: &mut PinkNoiseGenerator, noise: &Vec<i64>)
    requires
        0 <= level <= 65536,
        old(pnkg).wf(),
        noise@.len() >= old(samples)@.len(),
        forall|j: int| 0 <= j < noise@.len() ==> -65536 <= #[trigger] noise@[j] <= 65536,
    ensures
        final(samples)@.len() == old(samples)@.len(),
        final(pnkg).wf(),
        final(pnkg)@ == bank_at(old(pnkg)@, noise@, old(samples)@.len() as int),
        forall|j: int|
            0 <= j < old(samples)@.len() ==> #[trigger] final(samples)@[j] as int
                == pink_sample_spec(
                old(samples)@[j] as int,
                bank_out(bank_at(old(pnkg)@, noise@, j), noise@[j] as int),
                level as int,
            ),
        forall|j: int|
            0 <= j < old(samples)@.len() ==> -32767 <= #[trigger] final(samples)@[j] <= 32767,
{
    let len: usize = samples.len();
    let mut i: usize = 0;
    while i < len
        invariant
            i <= len,
            len == old(samples)@.len(),
            samples@.len() == len,
            noise@.len() >= len,
            0 <= level <= 65536,
            pnkg.wf(),
            pnkg@ == bank_at(old(pnkg)@, noise@, i as int),
            forall|j: int| 0 <= j < noise@.len() ==> -65536 <= #[trigger] noise@[j] <= 65536,
            forall|j: int| i <= j < len ==> #[trigger] samples@[j] == old(samples)@[j],
            forall|j: int|
                0 <= j < i ==> #[trigger] samples@[j] as int == pink_sample_spec(
                    old(samples)@[j] as int,
                    bank_out(bank_at(old(pnkg)@, noise@, j), noise@[j] as int),
                    level as int,
                ),
        decreases len - i,
    {
        let s: i64 = samples[i] as i64;
        let g: i64 = pnkg.generate(noise[i]);
        proof {
            assert(-17038840000 <= g * 32767 <= 17038840000);
            assert(-1116657418240000 <= (g * 32767) * level <= 1116657418240000)
                by (nonlinear_arith)
                requires
                    -17038840000 <= g * 32767 <= 17038840000,
                    0 <= level <= 65536,
            ;
        }
        let scaled: i64 = tdiv_i64(g * 32767 * level, 65536);
        proof {
            lemma_tdiv_bound((g * 32767 * level) as int, 65536, 17038840000);
        }
        let mix: i64 = s * 65536 + scaled;
        samples[i] = normalize(mix);
        i = i + 1;
    }
}

/// What soft clipping makes of one sample: amplify by `gain`, map to the
/// unit range, push through the tangent curve, map back, normalize.
pub open spec fn distort_sample_spec(s: int, gain: int) -> int {
    normalize_spec(tanh_q16_spec(tdiv(s * gain, 32767)) * 32767)
}

/// Soft-clip the buffer: a pure per-sample transform with no cross-sample
/// state, saturating amplified samples smoothly.
pub fn distort(samples: &mut Vec<i16>, gain: i64)
    requires
        0 <= gain <= 4294967296,
    ensures
        final(samples)@.len() == old(samples)@.len(),
        forall|j: int|
            0 <= j < old(samples)@.len() ==> #[trigger] final(samples)@[j] as int
                == distort_sample_spec(old(samples)@[j] as int, gain as int),
        forall|j: int|
            0 <= j < old(samples)@.len() ==> -32767 <= #[trigger] final(samples)@[j] <= 32767,
{
    let len: usize = samples.len();
    let mut i: usize = 0;
    while i < len
        invariant
            i <= len,
            len == old(samples)@.len(),
            samples@.len() == len,
            0 <= gain <= 4294967296,
            forall|j: int| i <= j < len ==> #[trigger] samples@[j] == old(samples)@[j],
            forall|j: int|
                0 <= j < i ==> #[trigger] samples@[j] as int == distort_sample_spec(
                    old(samples)@[j] as int,
                    gain as int,
                ),
        decreases len - i,
    {
        let s: i64 = samples[i] as i64;
        proof {
            assert(-140737488355328 <= s * gain <= 140737488355328) by (nonlinear_arith)
                requires
                    -32768 <= s <= 32767,
                    0 <= gain <= 4294967296,
            ;
        }
        let x: i64 = tdiv_i64(s * gain, 32767);
        proof {
            lemma_tdiv_bound((s * gain) as int, 32767, 4295098373);
        }
        let d: i64 = tanh_q16(x);
        samples[i] = normalize(d * 32767);
        i = i + 1;
    }
}

/// The per-sample phase step for an oscillator running at `rate` (Q16 Hz)
/// against the given sample rate, reduced into one cycle.
pub open spec fn phase_inc_spec(rate: int, sample_rate: int) -> int
    recommends
        rate >= 0,
        sample_rate >= 1,
{
    ((65536 * rate) / sample_rate) % 4294967296
}

/// The oscillator phase before sample `i`: zero at the start of the pass,
/// advanced by `inc` and wrapped at a full cycle once per sample.
pub open spec fn phase_at(inc: int, i: int) -> int
    decreases i,
{
    if i <= 0 {
        0
    } else {
        (phase_at(inc, i - 1) + inc) % 4294967296
    }
}

/// The accumulated phase never leaves `[0, 2^32)`.
pub proof fn lemma_phase_at_range(inc: int, i: int)
    requires
        0 <= inc < 4294967296,
    ensures
        0 <= phase_at(inc, i) < 4294967296,
    decreases i,
{
    if i > 0 {
        lemma_phase_at_range(inc, i - 1);
        vstd::arithmetic::div_mod::lemma_mod_division_less_than_divisor(
            phase_at(inc, i - 1) + inc,
            4294967296,
        );
    }
}

/// What tremolo makes of one sample at a given oscillator phase: the LFO
/// maps the sine into `[0, 1]`, the modulation factor is
/// `1 - depth * (1 - lfo)`, and the sample is scaled by it.
pub open spec fn trem_sample_spec(s: int, phase: int, depth: int) -> int {
    let lfo = tdiv(sin_q16_spec(phase) + 65536, 2);
    let m = 65536 - tdiv(depth * (65536 - lfo), 65536);
    normalize_spec(s * m)
}

/// Amplitude-modulate the buffer with a sine LFO at `rate` (Q16 Hz) and
/// the given `depth`. The phase accumulator starts at zero and advances by
/// the same step every sample.
pub fn tremolo(samples: &mut Vec<i16>, fmt: FormatSpec, rate: i64, depth: i64)
    requires
        fmt.valid(),
        0 <= rate <= 4294967296,
        0 <= depth <= 65536,
    ensures
        final(samples)@.len() == old(samples)@.len(),
        forall|j: int|
            0 <= j < old(samples)@.len() ==> #[trigger] final(samples)@[j] as int
                == trem_sample_spec(
                old(samples)@[j] as int,
                phase_at(phase_inc_spec(rate as int, fmt.sample_rate as int), j),
                depth as int,
            ),
        forall|j: int|
            0 <= j < old(samples)@.len() ==> -32767 <= #[trigger] final(samples)@[j] <= 32767,
{
    let raw: i64 = tdiv_i64(65536 * rate, fmt.sample_rate as i64);
    proof {
        vstd::arithmetic::div_mod::lemma_div_pos_is_pos(65536 * (rate as int), fmt.sample_rate as int);
    }
    let inc: u64 = (raw as u64) % 4294967296;
    proof {
        vstd::arithmetic::div_mod::lemma_mod_division_less_than_divisor(raw as int, 4294967296);
        assert(inc as int == phase_inc_spec(rate as int, fmt.sample_rate as int));
    }
    let len: usize = samples.len();
    let mut i: usize = 0;
    let mut phase: u64 = 0;
    while i < len
        invariant
            i <= len,
            len == old(samples)@.len(),
            samples@.len() == len,
            0 <= depth <= 65536,
            inc < 4294967296,
            inc as int == phase_inc_spec(rate as int, fmt.sample_rate as int),
            phase as int == phase_at(inc as int, i as int),
            phase < 4294967296,
            forall|j: int| i <= j < len ==> #[trigger] samples@[j] == old(samples)@[j],
            forall|j: int|
                0 <= j < i ==> #[trigger] samples@[j] as int == trem_sample_spec(
                    old(samples)@[j] as int,
                    phase_at(inc as int, j),
                    depth as int,
                ),
        decreases len - i,
    {
        let s: i64 = samples[i] as i64;
        let sv: i64 = sin_q16(phase);
        let lfo: i64 = tdiv_i64(sv + 65536, 2);
        proof {
            lemma_tdiv_bound((sv + 65536) as int, 2, 65536);
            vstd::arithmetic::div_mod::lemma_div_pos_is_pos((sv + 65536) as int, 2);
        }
        proof {
            assert(0 <= depth * (65536 - lfo) <= 4294967296) by (nonlinear_arith)
                requires
                    0 <= depth <= 65536,
                    0 <= lfo <= 65536,
            ;
        }
        let dterm: i64 = tdiv_i64(depth * (65536 - lfo), 65536);
        proof {
            lemma_tdiv_bound((depth * (65536 - lfo)) as int, 65536, 65536);
            vstd::arithmetic::div_mod::lemma_div_pos_is_pos((depth * (65536 - lfo)) as int, 65536);
        }
        let m: i64 = 65536 - dterm;
        proof {
            assert(-2147483648 <= s * m <= 2147483648) by (nonlinear_arith)
                requires
                    -32768 <= s <= 32767,
                    0 <= m <= 65536,
            ;
        }
        samples[i] = normalize(s * m);
        phase = (phase + inc) % 4294967296;
        proof {
            vstd::arithmetic::div_mod::lemma_mod_division_less_than_divisor(
                phase_at(inc as int, i as int) + inc as int,
                4294967296,
            );
        }
        i = i + 1;
    }
}

/// What the telephone coloration makes of one sample, given the previous
/// original (pre-filter) sample: subtract `alpha` times the previous
/// sample, boost by 3/2, normalize.
pub open spec fn tel_sample_spec(s: int, prev: int, alpha: int) -> int {
    normalize_spec(tdiv((s * 65536 - prev * alpha) * 3, 2))
}

/// One-pole high-pass coloration with a 1.5 boost. The one sample of
/// memory holds the previous original sample, not the previous output:
/// storing the pre-filter value is what gives the filter its transfer
/// function.
pub fn telephone(samples: &mut Vec<i16>, alpha: i64)
    requires
        0 <= alpha <= 65536,
    ensures
        final(samples)@.len() == old(samples)@.len(),
        forall|j: int|
            0 <= j < old(samples)@.len() ==> #[trigger] final(samples)@[j] as int
                == tel_sample_spec(
                old(samples)@[j] as int,
                if j == 0 {
                    0int
                } else {
                    old(samples)@[j - 1] as int
                },
                alpha as int,
            ),
        forall|j: int|
            0 <= j < old(samples)@.len() ==> -32767 <= #[trigger] final(samples)@[j] <= 32767,
{
    let len: usize = samples.len();
    let mut i: usize = 0;
    let mut prev: i64 = 0;
    while i < len
        invariant
            i <= len,
            len == old(samples)@.len(),
            samples@.len() == len,
            0 <= alpha <= 65536,
            -32768 <= prev <= 32767,
            prev as int == (if i == 0 {
                0int
            } else {
                old(samples)@[i - 1] as int
            }),
            forall|j: int| i <= j < len ==> #[trigger] samples@[j] == old(samples)@[j],
            forall|j: int|
                0 <= j < i ==> #[trigger] samples@[j] as int == tel_sample_spec(
                    old(samples)@[j] as int,
                    if j == 0 {
                        0int
                    } else {
                        old(samples)@[j - 1] as int
                    },
                    alpha as int,
                ),
        decreases len - i,
    {
        let s: i64 = samples[i] as i64;
        proof {
            assert(-2147483648 <= prev * alpha <= 2147483648) by (nonlinear_arith)
                requires
                    -32768 <= prev <= 32767,
                    0 <= alpha <= 65536,
            ;
        }
        let hp: i64 = s * 65536 - prev * alpha;
        let tel: i64 = tdiv_i64(hp * 3, 2);
        samples[i] = normalize(tel);
        prev = s;
        i = i + 1;
    }
}

/// What ring modulation makes of one sample at a given phase: multiply by
/// the sine, with no additive offset, and normalize.
pub open spec fn ring_sample_spec(s: int, phase: int) -> int {
    normalize_spec(s * sin_q16_spec(phase))
}

/// Multiply the buffer by a sine at `frequency` (Q16 Hz), with an
/// independent phase accumulator starting at zero. The very first sample
/// is always zeroed: the sine of phase zero is exactly zero.
pub fn ring_modulate(samples: &mut Vec<i16>, fmt: FormatSpec, frequency: i64)
    requires
        fmt.valid(),
        0 <= frequency <= 4294967296,
    ensures
        final(samples)@.len() == old(samples)@.len(),
        forall|j: int|
            0 <= j < old(samples)@.len() ==> #[trigger] final(samples)@[j] as int
                == ring_sample_spec(
                old(samples)@[j] as int,
                phase_at(phase_inc_spec(frequency as int, fmt.sample_rate as int), j),
            ),
        old(samples)@.len() > 0 ==> final(samples)@[0] as int == 0,
        forall|j: int|
            0 <= j < old(samples)@.len() ==> -32767 <= #[trigger] final(samples)@[j] <= 32767,
{
    let raw: i64 = tdiv_i64(65536 * frequency, fmt.sample_rate as i64);
    proof {
        vstd::arithmetic::div_mod::lemma_div_pos_is_pos(
            65536 * (frequency as int),
            fmt.sample_rate as int,
        );
    }
    let inc: u64 = (raw as u64) % 4294967296;
    proof {
        vstd::arithmetic::div_mod::lemma_mod_division_less_than_divisor(raw as int, 4294967296);
    }
    let len: usize = samples.len();
    let mut i: usize = 0;
    let mut phase: u64 = 0;
    while i < len
        invariant
            i <= len,
            len == old(samples)@.len(),
            samples@.len() == len,
            inc < 4294967296,
            inc as int == phase_inc_spec(frequency as int, fmt.sample_rate as int),
            phase as int == phase_at(inc as int, i as int),
            phase < 4294967296,
            forall|j: int| i <= j < len ==> #[trigger] samples@[j] == old(samples)@[j],
            forall|j: int|
                0 <= j < i ==> #[trigger] samples@[j] as int == ring_sample_spec(
                    old(samples)@[j] as int,
                    phase_at(inc as int, j),
                ),
        decreases len - i,
    {
        let s: i64 = samples[i] as i64;
        let sv: i64 = sin_q16(phase);
        proof {
            assert(-2147483648 <= s * sv <= 2147483648) by (nonlinear_arith)
                requires
                    -32768 <= s <= 32767,
                    -65536 <= sv <= 65536,
            ;
        }
        samples[i] = normalize(s * sv);
        phase = (phase + inc) % 4294967296;
        proof {
            vstd::arithmetic::div_mod::lemma_mod_division_less_than_divisor(
                phase_at(inc as int, i as int) + inc as int,
                4294967296,
            );
        }
        i = i + 1;
    }
    proof {
        if old(samples)@.len() > 0 {
            let inc0 = phase_inc_spec(frequency as int, fmt.sample_rate as int);
            assert(phase_at(inc0, 0) == 0);
            lemma_sin_bounds(0);
            assert(old(samples)@[0] as int * sin_q16_spec(0) == 0);
            vstd::arithmetic::div_mod::lemma_div_of0(65536);
        }
    }
}

/// The quantization step the bit crusher uses for a given bit depth:
/// `2^(16 - min(bits, 16))`.
pub open spec fn crush_step(bits: int) -> int {
    vstd::arithmetic::power2::pow2(
        (if bits >= 16 {
            0int
        } else {
            16 - bits
        }) as nat,
    ) as int
}

/// What the bit crusher makes of one sample: truncate toward zero in
/// `step`-sized buckets (zeroing low-order bits), then clamp to the full
/// 16-bit signed range.
pub open spec fn crush_sample_spec(s: int, step: int) -> int {
    clamp_spec(tdiv(s, step) * step, -32768, 32767)
}

/// Reduce the effective bit depth to `bits` by flooring each sample toward
/// zero in `step`-sized buckets. A pure per-sample quantizer: truncating,
/// not rounding, so quantization biases toward zero.
pub fn bitcrush(samples: &mut Vec<i16>, bits: u32)
    ensures
        final(samples)@.len() == old(samples)@.len(),
        forall|j: int|
            0 <= j < old(samples)@.len() ==> #[trigger] final(samples)@[j] as int
                == crush_sample_spec(old(samples)@[j] as int, crush_step(bits as int)),
        forall|j: int|
            0 <= j < old(samples)@.len() ==> -32768 <= #[trigger] final(samples)@[j] <= 32767,
        forall|j: int|
            0 <= j < old(samples)@.len() && old(samples)@[j] >= -32767
                ==> #[trigger] final(samples)@[j] >= -32767,
{
    let shift: u32 = if bits >= 16 {
        0
    } else {
        16 - bits
    };
    let mut step: i64 = 1;
    let mut k: u32 = 0;
    proof {
        vstd::arithmetic::power2::lemma2_to64();
    }
    while k < shift
        invariant
            k <= shift <= 16,
            step == vstd::arithmetic::power2::pow2(k as nat),
        decreases shift - k,
    {
        proof {
            vstd::arithmetic::power2::lemma2_to64();
            vstd::arithmetic::power2::lemma_pow2_strictly_increases(k as nat, 16);
            vstd::arithmetic::power2::lemma_pow2_unfold((k + 1) as nat);
        }
        step = step * 2;
        k = k + 1;
    }
    proof {
        vstd::arithmetic::power2::lemma2_to64();
        if shift < 16 {
            vstd::arithmetic::power2::lemma_pow2_strictly_increases(shift as nat, 16);
        }
        vstd::arithmetic::power2::lemma_pow2_pos(shift as nat);
        assert(step == crush_step(bits as int));
    }
    let len: usize = samples.len();
    let mut i: usize = 0;
    while i < len
        invariant
            i <= len,
            len == old(samples)@.len(),
            samples@.len() == len,
            1 <= step <= 65536,
            step == crush_step(bits as int),
            forall|j: int| i <= j < len ==> #[trigger] samples@[j] == old(samples)@[j],
            forall|j: int|
                0 <= j < i ==> #[trigger] samples@[j] as int == crush_sample_spec(
                    old(samples)@[j] as int,
                    crush_step(bits as int),
                ),
        decreases len - i,
    {
        let s: i64 = samples[i] as i64;
        let q: i64 = tdiv_i64(s, step);
        proof {
            lemma_tdiv_mul_range(s as int, step as int);
        }
        let crushed: i64 = q * step;
        samples[i] = crushed as i16;
        i = i + 1;
    }
    proof {
        assert forall|j: int|
            0 <= j < old(samples)@.len() && old(samples)@[j] >= -32767 implies samples@[j]
            >= -32767 by {
            lemma_tdiv_mul_range(old(samples)@[j] as int, step as int);
        }
    }
}

/// A sample sequence as unbounded integers, index for index.
pub open spec fn sample_ints(s: Seq<i16>) -> Seq<int> {
    Seq::new(s.len(), |j: int| s[j] as int)
}

/// The white noise stage over a whole buffer.
pub open spec fn white_seq(s: Seq<int>, n: Seq<int>, level: int) -> Seq<int> {
    Seq::new(s.len(), |j: int| white_sample_spec(s[j], n[j], level))
}

/// The pink noise stage over a whole buffer, from a starting bank state.
pub open spec fn pink_seq(s: Seq<int>, b: PinkBank, ws: Seq<i64>, level: int) -> Seq<int> {
    Seq::new(s.len(), |j: int| pink_sample_spec(s[j], bank_out(bank_at(b, ws, j), ws[j] as int), level))
}

/// The soft-clip stage over a whole buffer.
pub open spec fn distort_seq(s: Seq<int>, gain: int) -> Seq<int> {
    Seq::new(s.len(), |j: int| distort_sample_spec(s[j], gain))
}

/// The tremolo stage over a whole buffer, with phase step `inc`.
pub open spec fn trem_seq(s: Seq<int>, inc: int, depth: int) -> Seq<int> {
    Seq::new(s.len(), |j: int| trem_sample_spec(s[j], phase_at(inc, j), depth))
}

/// The telephone stage over a whole buffer: each position sees the
/// previous original sample, the first sees zero.
pub open spec fn tel_seq(s: Seq<int>, alpha: int) -> Seq<int> {
    Seq::new(
        s.len(),
        |j: int|
            tel_sample_spec(
                s[j],
                if j == 0 {
                    0int
                } else {
                    s[j - 1]
                },
                alpha,
            ),
    )
}

/// The ring modulation stage over a whole buffer, with phase step `inc`.
pub open spec fn ring_seq(s: Seq<int>, inc: int) -> Seq<int> {
    Seq::new(s.len(), |j: int| ring_sample_spec(s[j], phase_at(inc, j)))
}

/// The bit crusher over a whole buffer.
pub open spec fn crush_seq(s: Seq<int>, step: int) -> Seq<int> {
    Seq::new(s.len(), |j: int| crush_sample_spec(s[j], step))
}

} // verus!
