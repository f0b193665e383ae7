// Per-stage behavior on concrete buffers, with exact expected values
// computed from the Q16 integer semantics.

use lofi::noise::PinkNoiseGenerator;
use lofi::sample::{normalize, FormatSpec};
use lofi::stages::{bitcrush, distort, pink, ring_modulate, telephone, tremolo, white};
use lofi::trig::{sin_q16, tanh_q16};

fn spec_44100() -> FormatSpec {
    FormatSpec { sample_rate: 44100, channels: 1, bits_per_sample: 16 }
}

#[test]
fn normalize_truncates_and_clamps() {
    assert_eq!(normalize(0), 0);
    assert_eq!(normalize(65536), 1);
    assert_eq!(normalize(-65536), -1);
    assert_eq!(normalize(65535), 0);
    assert_eq!(normalize(-65535), 0);
    assert_eq!(normalize(32767 * 65536), 32767);
    assert_eq!(normalize(i64::MAX), 32767);
    assert_eq!(normalize(i64::MIN), -32767);
    assert_eq!(normalize(-32768 * 65536), -32767);
}

#[test]
fn sine_quarter_points_are_exact() {
    assert_eq!(sin_q16(0), 0);
    assert_eq!(sin_q16(1073741824), 65536);
    assert_eq!(sin_q16(2147483648), 0);
    assert_eq!(sin_q16(3221225472), -65536);
}

#[test]
fn tanh_fixes_zero_and_saturates() {
    assert_eq!(tanh_q16(0), 0);
    assert_eq!(tanh_q16(196608), 65536);
    assert_eq!(tanh_q16(-196608), -65536);
    assert_eq!(tanh_q16(1000000), 65536);
    assert!(tanh_q16(32768) > 0);
    assert_eq!(tanh_q16(32768), -tanh_q16(-32768));
}

#[test]
fn white_scales_the_draw() {
    let mut v: Vec<i16> = vec![0, 0, 0];
    let noise: Vec<i16> = vec![32767, -32767, 0];
    white(&mut v, 655, &noise);
    assert_eq!(v, vec![327, -327, 0]);
}

#[test]
fn white_full_level_adds_the_draw() {
    let mut v: Vec<i16> = vec![5, -5];
    let noise: Vec<i16> = vec![100, 100];
    white(&mut v, 65536, &noise);
    assert_eq!(v, vec![105, 95]);
}

#[test]
fn white_zero_noise_keeps_samples() {
    let mut v: Vec<i16> = vec![123, -456, 32767, -32767];
    let noise: Vec<i16> = vec![0, 0, 0, 0];
    white(&mut v, 655, &noise);
    assert_eq!(v, vec![123, -456, 32767, -32767]);
}

#[test]
fn pink_generator_zero_draws_have_dc_offset() {
    let mut g = PinkNoiseGenerator::new();
    assert_eq!(g.generate(0), 3865);
    assert_eq!(g.generate(0), 4701);
    assert_eq!(g.generate(0), 4701);
}

#[test]
fn pink_stage_exact_values() {
    let mut v: Vec<i16> = vec![0, 0];
    let mut g = PinkNoiseGenerator::new();
    let draws: Vec<i64> = vec![0, 0];
    pink(&mut v, 3277, &mut g, &draws);
    assert_eq!(v, vec![96, 117]);

    let mut v2: Vec<i16> = vec![1000, -1000];
    let mut g2 = PinkNoiseGenerator::new();
    let draws2: Vec<i64> = vec![65536, -65536];
    pink(&mut v2, 3277, &mut g2, &draws2);
    assert_eq!(v2, vec![1477, -928]);
}

#[test]
fn distort_exact_values() {
    let mut v: Vec<i16> = vec![32767, -32767, 1000, 0];
    distort(&mut v, 131072);
    assert_eq!(v, vec![32246, -32246, 1997, 0]);
}

#[test]
fn tremolo_exact_values() {
    let mut v: Vec<i16> = vec![10000; 5];
    tremolo(&mut v, spec_44100(), 393216, 13107);
    assert_eq!(v, vec![9000, 9000, 9001, 9002, 9003]);
}

#[test]
fn tremolo_zero_depth_is_identity_in_symmetric_range() {
    let mut v: Vec<i16> = vec![-32768, 32767, -5];
    tremolo(&mut v, spec_44100(), 393216, 0);
    assert_eq!(v, vec![-32767, 32767, -5]);
}

#[test]
fn telephone_exact_values() {
    let mut v: Vec<i16> = vec![1000, 2000, -3000];
    telephone(&mut v, 58982);
    assert_eq!(v, vec![1500, 1650, -7199]);
}

#[test]
fn telephone_full_alpha_differences() {
    let mut v: Vec<i16> = vec![1000, 2000];
    telephone(&mut v, 65536);
    assert_eq!(v, vec![1500, 1500]);
}

#[test]
fn telephone_zero_alpha_is_three_halves_boost() {
    let mut v: Vec<i16> = vec![100, -101, 32767, -32768];
    telephone(&mut v, 0);
    assert_eq!(v, vec![150, -151, 32767, -32767]);
}

#[test]
fn ring_modulator_zeroes_first_sample() {
    let mut v: Vec<i16> = vec![20000; 4];
    ring_modulate(&mut v, spec_44100(), 1310720);
    assert_eq!(v, vec![0, 56, 115, 173]);

    let mut v2: Vec<i16> = vec![-32768];
    ring_modulate(&mut v2, spec_44100(), 655360000);
    assert_eq!(v2, vec![0]);
}

#[test]
fn bitcrush_exact_values() {
    let mut v: Vec<i16> = vec![1000, -1000, 255, -255, 32767];
    bitcrush(&mut v, 8);
    assert_eq!(v, vec![768, -768, 0, 0, 32512]);
}

#[test]
fn bitcrush_full_depth_is_identity() {
    let mut v: Vec<i16> = vec![-32768, -32767, -1, 0, 1, 255, 32767];
    bitcrush(&mut v, 16);
    assert_eq!(v, vec![-32768, -32767, -1, 0, 1, 255, 32767]);
}

#[test]
fn bitcrush_one_bit_two_values_exhaustive() {
    let mut v: Vec<i16> = Vec::new();
    let mut s: i32 = -32768;
    while s <= 32767 {
        v.push(s as i16);
        s += 1;
    }
    bitcrush(&mut v, 1);
    for (k, &out) in v.iter().enumerate() {
        let input: i32 = k as i32 - 32768;
        if input == -32768 {
            assert_eq!(out, -32768);
        } else {
            assert_eq!(out, 0);
        }
        assert!(out == 0 || out == -32768);
    }
}

#[test]
fn stages_preserve_length_and_range() {
    let mut v: Vec<i16> = vec![-32768, -12345, 0, 12345, 32767];
    let noise16: Vec<i16> = vec![32767, -32767, 11111, -11111, 0];
    let noise64: Vec<i64> = vec![65536, -65536, 30000, -30000, 0];
    let mut g = PinkNoiseGenerator::new();
    white(&mut v, 655, &noise16);
    assert_eq!(v.len(), 5);
    pink(&mut v, 3277, &mut g, &noise64);
    assert_eq!(v.len(), 5);
    distort(&mut v, 131072);
    assert_eq!(v.len(), 5);
    tremolo(&mut v, spec_44100(), 393216, 13107);
    assert_eq!(v.len(), 5);
    telephone(&mut v, 58982);
    assert_eq!(v.len(), 5);
    ring_modulate(&mut v, spec_44100(), 1310720);
    assert_eq!(v.len(), 5);
    for &s in v.iter() {
        assert!(-32767 <= s && s <= 32767);
    }
    bitcrush(&mut v, 8);
    assert_eq!(v.len(), 5);
    for &s in v.iter() {
        assert!(-32767 <= s && s <= 32767);
    }
}

#[test]
fn pink_generator_is_deterministic() {
    let mut draws: Vec<i64> = Vec::new();
    let mut x: i64 = 12345;
    for _ in 0..200 {
        x = (x * 1103515245 + 12345) % 131073;
        draws.push(x - 65536);
    }
    let mut g1 = PinkNoiseGenerator::new();
    let mut g2 = PinkNoiseGenerator::new();
    let out1: Vec<i64> = draws.iter().map(|&w| g1.generate(w)).collect();
    let out2: Vec<i64> = draws.iter().map(|&w| g2.generate(w)).collect();
    assert_eq!(out1, out2);
    assert_eq!(g1.b0, g2.b0);
    assert_eq!(g1.b1, g2.b1);
    assert_eq!(g1.b2, g2.b2);
    assert_eq!(g1.b3, g2.b3);
    assert_eq!(g1.b4, g2.b4);
    assert_eq!(g1.b5, g2.b5);
    assert_eq!(g1.b6, g2.b6);
}
