// Whole-chain behavior: the fixed stage order, silence preservation,
// length preservation, output range, and the noise draw helpers.

use lofi::noise::{draw_sample_noise, draw_unit_noise, PinkNoiseGenerator};
use lofi::pipeline::{apply_chain, process};
use lofi::sample::FormatSpec;
use lofi::stages::{bitcrush, distort, pink, ring_modulate, telephone, tremolo, white};

fn spec_44100() -> FormatSpec {
    FormatSpec { sample_rate: 44100, channels: 1, bits_per_sample: 16 }
}

#[test]
fn silence_through_tremolo_and_ring_stays_silent() {
    let mut v: Vec<i16> = vec![0; 1000];
    tremolo(&mut v, spec_44100(), 393216, 13107);
    ring_modulate(&mut v, spec_44100(), 1310720);
    assert_eq!(v.len(), 1000);
    assert!(v.iter().all(|&s| s == 0));
}

#[test]
fn silence_through_noiseless_chain_stays_silent() {
    let mut v: Vec<i16> = vec![0; 1000];
    distort(&mut v, 131072);
    tremolo(&mut v, spec_44100(), 393216, 13107);
    telephone(&mut v, 58982);
    ring_modulate(&mut v, spec_44100(), 1310720);
    bitcrush(&mut v, 8);
    assert_eq!(v.len(), 1000);
    assert!(v.iter().all(|&s| s == 0));
}

#[test]
fn chain_with_zero_draws_on_small_signal() {
    let mut v: Vec<i16> = vec![100, -200, 300, -400];
    let wn: Vec<i16> = vec![0; 4];
    let pw: Vec<i64> = vec![0; 4];
    apply_chain(&mut v, spec_44100(), &wn, &pw);
    assert_eq!(v, vec![0, 0, 0, 0]);
}

#[test]
fn chain_is_deterministic_given_the_draws() {
    let mut draws16: Vec<i16> = Vec::new();
    let mut draws64: Vec<i64> = Vec::new();
    let mut x: i64 = 777;
    for _ in 0..300 {
        x = (x * 1103515245 + 12345) % 65535;
        draws16.push((x - 32767) as i16);
        draws64.push(((x * 2) % 131073) - 65536);
    }
    let base: Vec<i16> = (0..300).map(|k| ((k * 211) % 30000 - 15000) as i16).collect();
    let mut a = base.clone();
    let mut b = base.clone();
    apply_chain(&mut a, spec_44100(), &draws16, &draws64);
    apply_chain(&mut b, spec_44100(), &draws16, &draws64);
    assert_eq!(a, b);
    assert_eq!(a.len(), 300);
    assert!(a.iter().all(|&s| -32767 <= s && s <= 32767));
}

#[test]
fn chain_preserves_length_and_range_on_extremes() {
    let mut v: Vec<i16> = vec![-32768, 32767, -32767, 0, 1, -1];
    let wn: Vec<i16> = vec![32767, -32767, 32767, -32767, 32767, -32767];
    let pw: Vec<i64> = vec![65536, -65536, 65536, -65536, 65536, -65536];
    apply_chain(&mut v, spec_44100(), &wn, &pw);
    assert_eq!(v.len(), 6);
    assert!(v.iter().all(|&s| -32767 <= s && s <= 32767));
}

#[test]
fn process_preserves_length_and_range() {
    let mut v: Vec<i16> = (0..500).map(|k| ((k * 131) % 20000 - 10000) as i16).collect();
    process(&mut v, spec_44100());
    assert_eq!(v.len(), 500);
    assert!(v.iter().all(|&s| -32767 <= s && s <= 32767));
}

#[test]
fn process_empty_buffer_is_fine() {
    let mut v: Vec<i16> = Vec::new();
    process(&mut v, spec_44100());
    assert!(v.is_empty());
}

#[test]
fn draw_helpers_respect_length_and_range() {
    let wn: Vec<i16> = draw_sample_noise(1000);
    assert_eq!(wn.len(), 1000);
    assert!(wn.iter().all(|&d| -32767 <= d && d <= 32767));
    let pw: Vec<i64> = draw_unit_noise(1000);
    assert_eq!(pw.len(), 1000);
    assert!(pw.iter().all(|&d| -65536 <= d && d <= 65536));
}

#[test]
fn stage_order_matters_and_matches_the_chain() {
    // Applying the seven stages by hand, in pipeline order, agrees with
    // apply_chain on the same draws.
    let mut draws16: Vec<i16> = Vec::new();
    let mut draws64: Vec<i64> = Vec::new();
    let mut x: i64 = 4242;
    for _ in 0..64 {
        x = (x * 1103515245 + 12345) % 65535;
        draws16.push((x - 32767) as i16);
        draws64.push(((x * 3) % 131073) - 65536);
    }
    let base: Vec<i16> = (0..64).map(|k| ((k * 997) % 32000 - 16000) as i16).collect();

    let mut by_chain = base.clone();
    apply_chain(&mut by_chain, spec_44100(), &draws16, &draws64);

    let mut by_hand = base.clone();
    let mut g = PinkNoiseGenerator::new();
    white(&mut by_hand, 655, &draws16);
    pink(&mut by_hand, 3277, &mut g, &draws64);
    distort(&mut by_hand, 131072);
    tremolo(&mut by_hand, spec_44100(), 393216, 13107);
    telephone(&mut by_hand, 58982);
    ring_modulate(&mut by_hand, spec_44100(), 1310720);
    bitcrush(&mut by_hand, 8);

    assert_eq!(by_chain, by_hand);
}
