//! The fixed effect chain: white noise, pink noise, distortion, tremolo,
//! telephone coloration, ring modulation, bit crushing, in that order,
//! once, over the same buffer. The chain's constants are fixed; only the
//! noise draws vary between runs.

use vstd::prelude::*;
use crate::sample::FormatSpec;
use crate::noise::{PinkNoiseGenerator, PinkBank, draw_sample_noise, draw_unit_noise};
use crate::stages::{
    white, pink, distort, tremolo, telephone, ring_modulate, bitcrush, sample_ints, white_seq,
    pink_seq, distort_seq, trem_seq, tel_seq, ring_seq, crush_seq, phase_inc_spec, crush_step,
};

verus! {

/// White noise mix level: 0.01 in Q16.
pub const WHITE_LEVEL: i64 = 655;

/// Pink noise mix level: 0.05 in Q16.
pub const PINK_LEVEL: i64 = 3277;

/// Distortion pre-gain: 2.0 in Q16.
pub const DISTORT_GAIN: i64 = 131072;

/// Tremolo LFO rate: 6 Hz in Q16.
pub const TREMOLO_RATE: i64 = 393216;

/// Tremolo depth: 0.2 in Q16.
pub const TREMOLO_DEPTH: i64 = 13107;

/// Telephone high-pass coefficient: 0.9 in Q16.
pub const TELEPHONE_ALPHA: i64 = 58982;

/// Ring modulator frequency: 20 Hz in Q16.
pub const RING_FREQUENCY: i64 = 1310720;

/// Bit crusher target depth in bits.
pub const CRUSH_BITS: u32 = 8;

/// What the whole chain makes of a buffer, given the two noise draw
/// sequences and the sample rate: the seven stage maps composed in the
/// fixed order, the pink bank starting from all-zero state.
pub open spec fn chain_spec(s: Seq<int>, wn: Seq<int>, pw: Seq<i64>, sample_rate: int) -> Seq<
    int,
> {
    let zero_bank = PinkBank { b0: 0, b1: 0, b2: 0, b3: 0, b4: 0, b5: 0, b6: 0 };
    let s1 = white_seq(s, wn, WHITE_LEVEL as int);
    let s2 = pink_seq(s1, zero_bank, pw, PINK_LEVEL as int);
    let s3 = distort_seq(s2, DISTORT_GAIN as int);
    let s4 = trem_seq(s3, phase_inc_spec(TREMOLO_RATE as int, sample_rate), TREMOLO_DEPTH as int);
    let s5 = tel_seq(s4, TELEPHONE_ALPHA as int);
    let s6 = ring_seq(s5, phase_inc_spec(RING_FREQUENCY as int, sample_rate));
    crush_seq(s6, crush_step(CRUSH_BITS as int))
}

/// Run the fixed chain over the buffer, taking the two noise draw
/// sequences as arguments (one full-range draw and one unit-range draw per
/// sample). The result is exactly `chain_spec` of the input.
pub fn apply_chain(
    samples: &mut Vec<i16>,
    fmt: FormatSpec,
    white_noise: &Vec<i16>,
    pink_noise: &Vec<i64>,
)
    requires
        fmt.valid(),
        white_noise@.len() >= old(samples)@.len(),
        pink_noise@.len() >= old(samples)@.len(),
        forall|j: int|
            0 <= j < pink_noise@.len() ==> -65536 <= #[trigger] pink_noise@[j] <= 65536,
    ensures
        final(samples)@.len() == old(samples)@.len(),
        sample_ints(final(samples)@) == chain_spec(
            sample_ints(old(samples)@),
            sample_ints(white_noise@),
            pink_noise@,
            fmt.sample_rate as int,
        ),
        forall|j: int|
            0 <= j < old(samples)@.len() ==> -32767 <= #[trigger] final(samples)@[j] <= 32767,
{
    let ghost s0 = sample_ints(old(samples)@);
    let ghost wn = sample_ints(white_noise@);
    let ghost pw = pink_noise@;
    let ghost sr = fmt.sample_rate as int;

    white(samples, WHITE_LEVEL, white_noise);
    let ghost s1 = white_seq(s0, wn, WHITE_LEVEL as int);
    proof {
        assert(sample_ints(samples@) =~= s1);
    }

    let mut pnkg = PinkNoiseGenerator::new();
    let ghost zero_bank = pnkg@;
    pink(samples, PINK_LEVEL, &mut pnkg, pink_noise);
    let ghost s2 = pink_seq(s1, zero_bank, pw, PINK_LEVEL as int);
    proof {
        assert(sample_ints(samples@) =~= s2);
    }

    distort(samples, DISTORT_GAIN);
    let ghost s3 = distort_seq(s2, DISTORT_GAIN as int);
    proof {
        assert(sample_ints(samples@) =~= s3);
    }

    tremolo(samples, fmt, TREMOLO_RATE, TREMOLO_DEPTH);
    let ghost s4 = trem_seq(s3, phase_inc_spec(TREMOLO_RATE as int, sr), TREMOLO_DEPTH as int);
    proof {
        assert(sample_ints(samples@) =~= s4);
    }

    telephone(samples, TELEPHONE_ALPHA);
    let ghost s5 = tel_seq(s4, TELEPHONE_ALPHA as int);
    proof {
        assert(sample_ints(samples@) =~= s5);
    }

    ring_modulate(samples, fmt, RING_FREQUENCY);
    let ghost s6 = ring_seq(s5, phase_inc_spec(RING_FREQUENCY as int, sr));
    proof {
        assert(sample_ints(samples@) =~= s6);
    }

    bitcrush(samples, CRUSH_BITS);
    proof {
        assert(sample_ints(samples@) =~= crush_seq(s6, crush_step(CRUSH_BITS as int)));
    }
}

/// Run the fixed chain over the buffer, drawing the noise from the system
/// RNG: one full-range draw and one unit-range draw per sample, in buffer
/// order. The result is the chain applied to the input under some pair of
/// in-range draw sequences; its length and sample range are guaranteed.
pub fn process(samples: &mut Vec<i16>, fmt: FormatSpec)
    requires
        fmt.valid(),
    ensures
        final(samples)@.len() == old(samples)@.len(),
        forall|j: int|
            0 <= j < old(samples)@.len() ==> -32767 <= #[trigger] final(samples)@[j] <= 32767,
        exists|wn: Seq<i16>, pw: Seq<i64>|
            sample_ints(final(samples)@) == chain_spec(
                sample_ints(old(samples)@),
                sample_ints(wn),
                pw,
                fmt.sample_rate as int,
            ),
{
    let n: usize = samples.len();
    let white_noise: Vec<i16> = draw_sample_noise(n);
    let pink_noise: Vec<i64> = draw_unit_noise(n);
    apply_chain(samples, fmt, &white_noise, &pink_noise);
    proof {
        assert(sample_ints(samples@) == chain_spec(
            sample_ints(old(samples)@),
            sample_ints(white_noise@),
            pink_noise@,
            fmt.sample_rate as int,
        ));
    }
}

} // verus!
