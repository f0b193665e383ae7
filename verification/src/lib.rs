//! A lo-fi audio effects library: a fixed chain of degradation effects over
//! a buffer of signed 16-bit PCM samples.
//!
//! All signal arithmetic is done in Q16 fixed point (65536 units represent
//! 1.0), so every stage is exact integer arithmetic with a precise contract:
//! noise injection (white and pink), soft-clip distortion, tremolo, a
//! telephone-style high-pass coloration, ring modulation and bit-depth
//! reduction, applied in that fixed order.

pub mod sample;
pub mod trig;
pub mod noise;
pub mod stages;
pub mod pipeline;
pub mod laws;
