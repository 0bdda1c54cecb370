use rust_sampler::adsr::{AdsrState, ADSR};
use rust_sampler::fixed::LEVEL_ONE;

fn level(x: u64) -> f32 {
    x as f32 / LEVEL_ONE as f32
}

fn assert_close(left: f32, right: f32, epsilon: f32) {
    assert!(
        (left - right).abs() <= epsilon,
        "{} is not close to {} within an epsilon of {}",
        left,
        right,
        epsilon
    );
}

#[test]
fn test_functionality() {
    let mut adsr = ADSR::new(50, 200, 100, (LEVEL_ONE / 2) as i64, 200);
    let mut signal: Vec<f32> = vec![1.0; 50];
    for (i, sample) in signal.iter_mut().enumerate() {
        if i == 0 {
            adsr.note_on();
        }
        if i == 40 {
            adsr.note_off();
        }
        *sample *= level(adsr.getNextSample());
        if i < 10 {
            assert_close(*sample, i as f32 * 0.1 + 0.1, 0.001);
        } else if i > 9 && i < 15 {
            assert_close(*sample, 1.0 - (i - 9) as f32 * 0.1, 0.001);
        } else if i > 14 && i < 40 {
            assert_eq!(*sample, 0.5);
        } else {
            assert_close(*sample, 0.5 - (i - 39) as f32 * 0.05, 0.001);
        }
    }
}

#[test]
fn envelope_phases_are_linear_and_end_inactive() {
    // 40 ms attack, 20 ms decay, quarter sustain, 80 ms release at 1 kHz
    let mut adsr = ADSR::new(1000, 40, 20, (LEVEL_ONE / 4) as i64, 80);
    adsr.note_on();
    let mut out = Vec::new();
    for _ in 0..100 {
        out.push(adsr.getNextSample());
    }
    // attack: 40 samples of LEVEL_ONE / 40 (rounded up), the 40th clamps to full level
    let atk = (LEVEL_ONE + 39) / 40;
    for k in 0..39 {
        assert_eq!(out[k], (k as u64 + 1) * atk);
    }
    assert_eq!(out[39], LEVEL_ONE);
    // decay: 20 samples down to the sustain level
    let dec = (LEVEL_ONE - LEVEL_ONE / 4 + 19) / 20;
    for k in 0..19 {
        assert_eq!(out[40 + k], LEVEL_ONE - (k as u64 + 1) * dec);
    }
    assert_eq!(out[59], LEVEL_ONE / 4);
    assert!(out[60..].iter().all(|&v| v == LEVEL_ONE / 4));
    adsr.note_off();
    let rel = (LEVEL_ONE / 4 + 79) / 80;
    let mut last = LEVEL_ONE / 4;
    let mut n = 0;
    while adsr.is_active() {
        let v = adsr.getNextSample();
        assert!(v < last || v == 0);
        if v > 0 {
            assert_eq!(v, LEVEL_ONE / 4 - (n + 1) * rel);
        }
        last = v;
        n += 1;
    }
    assert_eq!(n, 80);
    assert_eq!(adsr.state, AdsrState::Inactive);
    assert_eq!(adsr.envelope_value, 0);
}

#[test]
fn zero_times_are_instant() {
    let mut adsr = ADSR::new(48000, 0, 0, (LEVEL_ONE / 2) as i64, 0);
    adsr.note_on();
    assert_eq!(adsr.getNextSample(), LEVEL_ONE);
    assert_eq!(adsr.state, AdsrState::Sustain);
    assert_eq!(adsr.getNextSample(), LEVEL_ONE / 2);
    adsr.note_off();
    assert_eq!(adsr.getNextSample(), 0);
    assert!(!adsr.is_active());
}

#[test]
fn release_during_attack_starts_from_current_level() {
    let mut adsr = ADSR::new(100, 100, 100, LEVEL_ONE as i64, 100);
    adsr.note_on();
    let mut v = 0;
    for _ in 0..3 {
        v = adsr.getNextSample();
    }
    adsr.note_off();
    assert_eq!(adsr.state, AdsrState::Release);
    let next = adsr.getNextSample();
    // the release step covers the level at note-off in 10 samples
    assert_eq!(next, v - (v + 9) / 10);
}

#[test]
fn parameters_are_clamped() {
    let adsr = ADSR::new(100, -5, -1, LEVEL_ONE as i64 * 3, -20);
    assert_eq!(adsr.get_adsr(), (0, 0, LEVEL_ONE, 0));
    let adsr = ADSR::new(100, 10, 10, -7, 10);
    assert_eq!(adsr.get_adsr(), (10, 10, 0, 10));
}

#[test]
fn note_off_leaves_inactive_envelope_alone() {
    let mut adsr = ADSR::new(100, 10, 10, 10, 10);
    adsr.note_off();
    assert!(!adsr.is_active());
    assert_eq!(adsr.getNextSample(), 0);
    adsr.note_on();
    assert!(adsr.is_active());
    adsr.reset();
    assert_eq!(adsr.state, AdsrState::Inactive);
}

#[test]
fn release_from_above_sustain_ends_in_release_time() {
    // 1 kHz, 10 ms release, 1% sustain, released at full level during decay
    let mut adsr = ADSR::new(1000, 0, 100, (LEVEL_ONE / 100) as i64, 10);
    adsr.note_on();
    assert_eq!(adsr.getNextSample(), LEVEL_ONE);
    assert_eq!(adsr.state, AdsrState::Decay);
    adsr.note_off();
    let mut n = 0;
    while adsr.is_active() {
        adsr.getNextSample();
        n += 1;
    }
    assert_eq!(n, 10);
}

#[test]
fn release_with_zero_sustain_ends_in_release_time() {
    let mut adsr = ADSR::new(44100, 100, 100, 0, 50);
    adsr.note_on();
    for _ in 0..100 {
        adsr.getNextSample();
    }
    assert_eq!(adsr.state, AdsrState::Attack);
    adsr.note_off();
    let mut n = 0;
    while adsr.is_active() {
        adsr.getNextSample();
        n += 1;
    }
    assert!(n <= 50 * 44100 / 1000);
    assert!(n >= 50 * 44100 / 1000 - 1);
}
