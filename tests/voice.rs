use rust_sampler::adsr::AdsrState;
use rust_sampler::crossfade::crossfade;
use rust_sampler::fixed::{lerp, pitch_ratio, scale, FRAC_ONE, LEVEL_ONE, PERCENT_100};
use rust_sampler::ring_buffer::RingBuffer;
use rust_sampler::sampler_voice::{SamplerVoice, SustainModes};

fn pct(x: i64) -> i64 {
    x * FRAC_ONE as i64
}

/// A buffer whose sample i holds 1000 * i.
fn ramp(n: usize) -> RingBuffer<i32> {
    let mut b = RingBuffer::<i32>::new(n);
    for i in 0..n {
        b.push(1000 * i as i32);
    }
    b
}

/// A voice with an instant envelope at full sustain level.
fn instant_voice(base: u8) -> SamplerVoice {
    let mut v = SamplerVoice::new(1, base, 1000);
    v.set_adsr(0, 0, LEVEL_ONE as i64, 0);
    v
}

#[test]
fn reversed_playback_descends_then_stops() {
    let buf = ramp(100);
    let mut v = instant_voice(60);
    v.set_start_and_end_point(pct(80), pct(20), 100);
    assert_eq!(v.get_points(100), (pct(80) as u64, pct(20) as u64));
    v.note_on(60, LEVEL_ONE as i64);
    let mut out = Vec::new();
    for _ in 0..70 {
        out.push(v.processAssign(&buf, FRAC_ONE));
    }
    for k in 0..59 {
        assert_eq!(out[k], 1000 * (80 - k as i32));
    }
    assert_eq!(out[59], 0);
    assert!(!v.is_active());
    assert!(out[59..].iter().all(|&x| x == 0));
}

#[test]
fn forward_playback_stops_at_end_point() {
    let buf = ramp(10);
    let mut v = instant_voice(60);
    v.note_on(60, 0);
    let mut out = Vec::new();
    for _ in 0..12 {
        out.push(v.processAssign(&buf, FRAC_ONE));
    }
    let expected: Vec<i32> = vec![0, 1000, 2000, 3000, 4000, 5000, 6000, 7000, 8000, 0, 0, 0];
    assert_eq!(out, expected);
    assert!(!v.is_active());
}

#[test]
fn warp_pitch_follows_the_note() {
    let buf = ramp(100);
    let mut v = instant_voice(60);
    v.note_on(72, 0);
    let a = v.processWarp(&buf, FRAC_ONE);
    let b = v.processWarp(&buf, FRAC_ONE);
    let c = v.processWarp(&buf, FRAC_ONE);
    // an octave up reads every other sample
    assert_eq!((a, b, c), (0, 2000, 4000));
}

#[test]
fn half_rate_ratio_interpolates() {
    let buf = ramp(100);
    let mut v = instant_voice(60);
    v.note_on(60, 0);
    let outs: Vec<i32> = (0..4).map(|_| v.processWarp(&buf, FRAC_ONE / 2)).collect();
    assert_eq!(outs, vec![0, 500, 1000, 1500]);
}

#[test]
fn loop_wrap_keeps_playing_while_held() {
    let buf = ramp(100);
    let mut v = instant_voice(60);
    v.set_sus_points(pct(10), pct(20), 100);
    v.set_sus_mode(SustainModes::LoopWrap);
    v.note_on(60, 0);
    let mut out = Vec::new();
    for _ in 0..45 {
        out.push(v.processAssign(&buf, FRAC_ONE));
    }
    // after the first sample the envelope sustains and the loop is in force
    assert_eq!(out[19], 19000);
    assert_eq!(out[20], 10000);
    assert_eq!(out[30], 10000);
    assert!(v.is_active());
}

#[test]
fn loop_bounce_turns_around() {
    let buf = ramp(100);
    let mut v = instant_voice(60);
    v.set_sus_points(pct(10), pct(20), 100);
    v.set_sus_mode(SustainModes::LoopBounce);
    v.note_on(60, 0);
    let out: Vec<i32> = (0..24).map(|_| v.processAssign(&buf, FRAC_ONE)).collect();
    assert_eq!(&out[18..24], &[18000, 19000, 20000, 19000, 18000, 17000]);
}

#[test]
fn velocity_sets_sustain_when_enabled() {
    let buf = ramp(100);
    let mut v = instant_voice(60);
    v.sus_is_velo = true;
    v.note_on(60, (LEVEL_ONE / 2) as i64);
    v.processAssign(&buf, FRAC_ONE);
    let second = v.processAssign(&buf, FRAC_ONE);
    assert_eq!(second, 500);
    assert_eq!(v.get_adsr().2, LEVEL_ONE / 2);
}

#[test]
fn note_off_releases() {
    let mut v = instant_voice(60);
    v.note_on(60, 0);
    v.note_off();
    assert_eq!(v.envelope().0, AdsrState::Release);
}

#[test]
fn points_are_clamped() {
    let mut v = SamplerVoice::new(1, 60, 1000);
    v.set_start_and_end_point(pct(150), pct(-3), 200);
    assert_eq!(v.get_points(200), (pct(99) as u64, 0));
    v.set_sus_points(pct(-1), pct(250), 200);
    assert_eq!(v.get_sus_points(200), (0, PERCENT_100));
    assert_eq!(v.get_points(0), (0, PERCENT_100));
}

#[test]
fn pitch_ratios() {
    assert_eq!(pitch_ratio(0), FRAC_ONE);
    assert_eq!(pitch_ratio(12), 2 * FRAC_ONE);
    assert_eq!(pitch_ratio(-12), FRAC_ONE / 2);
    assert_eq!(pitch_ratio(7), 98193);
    assert_eq!(pitch_ratio(-5), 98193 / 2);
    assert_eq!(pitch_ratio(127), 98193 * 1024);
}

#[test]
fn fixed_point_helpers() {
    assert_eq!(scale(-7, 1, 2), -3);
    assert_eq!(scale(7, 1, 2), 3);
    assert_eq!(lerp(10, 20, FRAC_ONE / 2), 15);
    assert_eq!(crossfade(100, 200, 0, 4), 100);
    assert_eq!(crossfade(100, 200, 1, 4), 125);
    assert_eq!(crossfade(100, 200, 3, 4), 175);
}

#[test]
fn loop_seam_is_crossfaded() {
    let buf = ramp(100);
    let mut v = instant_voice(60);
    v.set_sus_points(pct(10), pct(20), 100);
    v.set_sus_mode(SustainModes::LoopWrap);
    v.set_fade_time(4);
    v.note_on(60, 0);
    let out: Vec<i32> = (0..22).map(|_| v.processAssign(&buf, FRAC_ONE)).collect();
    // the last four samples before the loop end blend toward the samples before its start
    assert_eq!(&out[15..22], &[15000, 16000, 14500, 13000, 11500, 10000, 11000]);
}
