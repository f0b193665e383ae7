//! Noise sources for the two additive stages: a uniform random draw
//! (behind a trusted wrapper over the system RNG) and the stateful pink
//! noise filter bank that spectrally shapes a white draw sequence.
//!
//! The pink generator keeps seven Q16 feedback terms. Each call folds one
//! fresh white draw into the first six terms with fixed decay and gain
//! weights, sums the bank with a one-sample-delayed raw-white term and a
//! constant offset, and attenuates the sum. Every weight is the Q16
//! rounding of the classic filter-bank coefficients.

use vstd::prelude::*;
use rand::Rng;
use crate::sample::{tdiv, tdiv_i64, lemma_tdiv_bound};

verus! {

/// Relies on rand: `Rng::gen_range` on `thread_rng()` returns a value drawn
/// from the given inclusive range, which is non-empty when `lo <= hi`.
#[verifier::external_body]
fn random_in(lo: i64, hi: i64) -> (r: i64)
    requires
        lo <= hi,
    ensures
        lo <= r <= hi,
{
    rand::thread_rng().gen_range(lo..=hi)
}

/// Draw `n` uniform sample-range values, one per buffer position, for the
/// white noise stage. Each draw spans the full symmetric sample range.
pub fn draw_sample_noise(n: usize) -> (v: Vec<i16>)
    ensures
        v@.len() == n,
        forall|i: int| 0 <= i < n ==> -32767 <= #[trigger] v@[i] <= 32767,
{
    let mut v: Vec<i16> = Vec::new();
    let mut i: usize = 0;
    while i < n
        invariant
            i <= n,
            v@.len() == i,
            forall|j: int| 0 <= j < i ==> -32767 <= #[trigger] v@[j] <= 32767,
        decreases n - i,
    {
        let d: i64 = random_in(-32767, 32767);
        v.push(d as i16);
        i = i + 1;
    }
    v
}

/// Draw `n` uniform Q16 unit-range values in `[-65536, 65535]` (the Q16
/// image of `[-1, 1)`), one per buffer position, for the pink noise stage.
pub fn draw_unit_noise(n: usize) -> (v: Vec<i64>)
    ensures
        v@.len() == n,
        forall|i: int| 0 <= i < n ==> -65536 <= #[trigger] v@[i] <= 65536,
{
    let mut v: Vec<i64> = Vec::new();
    let mut i: usize = 0;
    while i < n
        invariant
            i <= n,
            v@.len() == i,
            forall|j: int| 0 <= j < i ==> -65536 <= #[trigger] v@[j] <= 65536,
        decreases n - i,
    {
        let d: i64 = random_in(-65536, 65535);
        v.push(d);
        i = i + 1;
    }
    v
}

/// How one call advances the first feedback term: decay the old value by
/// 0.99886 and add 0.0555179 of the white draw, both in Q16.
pub open spec fn pink_step_b0(b: int, w: int) -> int {
    tdiv(65461 * b, 65536) + tdiv(3639 * w, 65536)
}

/// Second term: decay 0.99332, gain 0.0750759.
pub open spec fn pink_step_b1(b: int, w: int) -> int {
    tdiv(65098 * b, 65536) + tdiv(4921 * w, 65536)
}

/// Third term: decay 0.96900, gain 0.1538520.
pub open spec fn pink_step_b2(b: int, w: int) -> int {
    tdiv(63504 * b, 65536) + tdiv(10084 * w, 65536)
}

/// Fourth term: decay 0.86650, gain 0.3104856.
pub open spec fn pink_step_b3(b: int, w: int) -> int {
    tdiv(56787 * b, 65536) + tdiv(20350 * w, 65536)
}

/// Fifth term: decay 0.55000, gain 0.5329522.
pub open spec fn pink_step_b4(b: int, w: int) -> int {
    tdiv(36045 * b, 65536) + tdiv(34928 * w, 65536)
}

/// Sixth term: decay -0.7616, gain -0.0168980.
pub open spec fn pink_step_b5(b: int, w: int) -> int {
    tdiv(-49912 * b, 65536) - tdiv(1107 * w, 65536)
}

/// Seventh term: the white draw plus 0.115926, kept for the next call.
pub open spec fn pink_step_b6(w: int) -> int {
    w + 7598
}

/// The mathematical image of the filter bank: its seven feedback terms as
/// unbounded integers.
#[verifier::ext_equal]
pub struct PinkBank {
    pub b0: int,
    pub b1: int,
    pub b2: int,
    pub b3: int,
    pub b4: int,
    pub b5: int,
    pub b6: int,
}

/// How one white draw advances the whole bank.
pub open spec fn bank_step(b: PinkBank, w: int) -> PinkBank {
    PinkBank {
        b0: pink_step_b0(b.b0, w),
        b1: pink_step_b1(b.b1, w),
        b2: pink_step_b2(b.b2, w),
        b3: pink_step_b3(b.b3, w),
        b4: pink_step_b4(b.b4, w),
        b5: pink_step_b5(b.b5, w),
        b6: pink_step_b6(w),
    }
}

/// The pink value one draw produces: the six advanced terms, the delayed
/// raw-white term, the draw itself and the 0.5362 offset, summed and
/// attenuated by 0.11 (all in Q16).
pub open spec fn bank_out(b: PinkBank, w: int) -> int {
    tdiv(
        (pink_step_b0(b.b0, w) + pink_step_b1(b.b1, w) + pink_step_b2(b.b2, w) + pink_step_b3(
            b.b3,
            w,
        ) + pink_step_b4(b.b4, w) + pink_step_b5(b.b5, w) + b.b6 + w + 35141) * 7209,
        65536,
    )
}

/// The bank after folding in the first `i` draws of `ws`.
pub open spec fn bank_at(b: PinkBank, ws: Seq<i64>, i: int) -> PinkBank
    decreases i,
{
    if i <= 0 {
        b
    } else {
        bank_step(bank_at(b, ws, i - 1), ws[i - 1] as int)
    }
}

/// Every pink value a draw sequence produces, in order: the `j`-th value
/// comes from the bank after the first `j` draws, fed the `j`-th draw.
pub open spec fn pink_out_seq(b: PinkBank, ws: Seq<i64>) -> Seq<int> {
    Seq::new(ws.len(), |j: int| bank_out(bank_at(b, ws, j), ws[j] as int))
}

/// The spectrally shaped filter bank turning a white draw sequence into
/// pink noise. The seven terms are Q16 feedback state, all zero at the
/// start of a buffer pass.
pub struct PinkNoiseGenerator {
    pub b0: i64,
    pub b1: i64,
    pub b2: i64,
    pub b3: i64,
    pub b4: i64,
    pub b5: i64,
    pub b6: i64,
}

impl View for PinkNoiseGenerator {
    type V = PinkBank;

    open spec fn view(&self) -> PinkBank {
        PinkBank {
            b0: self.b0 as int,
            b1: self.b1 as int,
            b2: self.b2 as int,
            b3: self.b3 as int,
            b4: self.b4 as int,
            b5: self.b5 as int,
            b6: self.b6 as int,
        }
    }
}

impl PinkNoiseGenerator {
    /// The feedback terms stay inside these bounds whenever every white
    /// draw fed to `generate` lies in `[-65536, 65536]`.
    pub open spec fn wf(self) -> bool {
        &&& -3210000 <= self.b0 <= 3210000
        &&& -740000 <= self.b1 <= 740000
        &&& -330000 <= self.b2 <= 330000
        &&& -155000 <= self.b3 <= 155000
        &&& -79000 <= self.b4 <= 79000
        &&& -4800 <= self.b5 <= 4800
        &&& -73134 <= self.b6 <= 73134
    }

    /// A fresh generator: all feedback terms zero.
    pub fn new() -> (g: Self)
        ensures
            g@ == (PinkBank { b0: 0, b1: 0, b2: 0, b3: 0, b4: 0, b5: 0, b6: 0 }),
            g.wf(),
    {
        PinkNoiseGenerator { b0: 0, b1: 0, b2: 0, b3: 0, b4: 0, b5: 0, b6: 0 }
    }

    /// Fold one white draw into the bank and return the shaped pink value.
    /// The update order is the one the spec functions state: the first six
    /// terms advance, the sum uses the not-yet-advanced seventh term, and
    /// the seventh term is replaced last.
    pub fn generate(&mut self, white: i64) -> (r: i64)
        requires
            old(self).wf(),
            -65536 <= white <= 65536,
        ensures
            final(self).wf(),
            final(self)@ == bank_step(old(self)@, white as int),
            r == bank_out(old(self)@, white as int),
            -520000 <= r <= 520000,
    {
        proof {
            lemma_tdiv_bound(65461 * (self.b0 as int), 65536, 3206327);
            lemma_tdiv_bound(3639 * (white as int), 65536, 3639);
            lemma_tdiv_bound(65098 * (self.b1 as int), 65536, 735055);
            lemma_tdiv_bound(4921 * (white as int), 65536, 4921);
            lemma_tdiv_bound(63504 * (self.b2 as int), 65536, 319769);
            lemma_tdiv_bound(10084 * (white as int), 65536, 10084);
            lemma_tdiv_bound(56787 * (self.b3 as int), 65536, 134308);
            lemma_tdiv_bound(20350 * (white as int), 65536, 20350);
            lemma_tdiv_bound(36045 * (self.b4 as int), 65536, 43451);
            lemma_tdiv_bound(34928 * (white as int), 65536, 34928);
            lemma_tdiv_bound(-49912 * (self.b5 as int), 65536, 3656);
            lemma_tdiv_bound(1107 * (white as int), 65536, 1107);
        }
        self.b0 = tdiv_i64(65461 * self.b0, 65536) + tdiv_i64(3639 * white, 65536);
        self.b1 = tdiv_i64(65098 * self.b1, 65536) + tdiv_i64(4921 * white, 65536);
        self.b2 = tdiv_i64(63504 * self.b2, 65536) + tdiv_i64(10084 * white, 65536);
        self.b3 = tdiv_i64(56787 * self.b3, 65536) + tdiv_i64(20350 * white, 65536);
        self.b4 = tdiv_i64(36045 * self.b4, 65536) + tdiv_i64(34928 * white, 65536);
        self.b5 = tdiv_i64(-49912 * self.b5, 65536) - tdiv_i64(1107 * white, 65536);
        let pink: i64 = self.b0 + self.b1 + self.b2 + self.b3 + self.b4 + self.b5 + self.b6 + white
            + 35141;
        self.b6 = white + 7598;
        proof {
            lemma_tdiv_bound((pink as int) * 7209, 65536, 516191);
        }
        tdiv_i64(pink * 7209, 65536)
    }
}

} // verus!
