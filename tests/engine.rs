use rust_sampler::adsr::AdsrState;
use rust_sampler::fixed::{FRAC_ONE, LEVEL_ONE, PERCENT_100, SAMPLE_ONE};
use rust_sampler::sampler_engine::{decode_int_sample, SamplerEngine, SamplerError, SamplerMode};
use rust_sampler::sampler_voice::SustainModes;

fn ramp(n: usize) -> Vec<i32> {
    (0..n).map(|i| 1000 * i as i32).collect()
}

/// An engine at 1 kHz with a 100-sample ramp loaded and an instant envelope.
fn loaded_engine() -> SamplerEngine {
    let mut engine = SamplerEngine::new(1000, 1);
    engine.add_to_paths_and_load("ramp.wav", &ramp(100), 1000).unwrap();
    engine.set_warp_base(60);
    engine.set_adsr(0, 0, LEVEL_ONE as i64, 1000);
    engine
}

#[test]
fn new_engine_defaults() {
    let engine = SamplerEngine::new(48000, 2);
    assert_eq!(engine.warp_buffer().capacity(), 1);
    assert!(engine.file_paths().is_empty());
    for i in 0..6 {
        let (_, st, lv) = engine.voice_status(i).unwrap();
        assert_eq!((st, lv), (AdsrState::Inactive, 0));
    }
    assert!(engine.voice_status(6).is_none());
    assert_eq!(engine.get_adsr_warp(), (200, 100, LEVEL_ONE / 2, 200));
}

#[test]
fn warp_mix_sums_voices() {
    let mut engine = loaded_engine();
    engine.note_on(60, LEVEL_ONE as i64);
    engine.note_on(72, LEVEL_ONE as i64);
    let outs: Vec<i64> = (0..3).map(|_| engine.process().unwrap()).collect();
    // one voice reads 0, 1, 2; the octave above reads 0, 2, 4
    assert_eq!(outs, vec![0, 3000, 6000]);
}

#[test]
fn stealing_prefers_free_then_quietest() {
    let mut engine = loaded_engine();
    engine.set_num_voices(2);
    engine.set_adsr(100, 0, LEVEL_ONE as i64, 1000);
    engine.note_on(60, 0);
    for _ in 0..5 {
        engine.process().unwrap();
    }
    engine.note_on(62, 0);
    engine.process().unwrap();
    assert_eq!(engine.voice_status(0).unwrap().0, 60);
    assert_eq!(engine.voice_status(1).unwrap().0, 62);
    // both attacking, none releasing: the quieter (later) voice is taken
    engine.note_on(64, 0);
    assert_eq!(engine.voice_status(0).unwrap().0, 60);
    assert_eq!(engine.voice_status(1).unwrap().0, 64);
}

#[test]
fn stealing_prefers_releasing_voices() {
    let mut engine = loaded_engine();
    engine.set_num_voices(3);
    engine.note_on(60, 0);
    engine.note_on(62, 0);
    engine.note_on(64, 0);
    engine.process().unwrap();
    engine.note_off(64);
    engine.process().unwrap();
    assert_eq!(engine.voice_status(2).unwrap().1, AdsrState::Release);
    // the releasing voice is louder than nothing but still preferred
    engine.note_on(65, 0);
    assert_eq!(engine.voice_status(2).unwrap().0, 65);
    assert_eq!(engine.voice_status(2).unwrap().1, AdsrState::Attack);
    assert_eq!(engine.voice_status(0).unwrap().0, 60);
    assert_eq!(engine.voice_status(1).unwrap().0, 62);
}

#[test]
fn equal_levels_steal_the_first_voice() {
    let mut engine = loaded_engine();
    engine.set_num_voices(2);
    engine.note_on(60, 0);
    engine.note_on(62, 0);
    engine.process().unwrap();
    engine.note_on(64, 0);
    assert_eq!(engine.voice_status(0).unwrap().0, 64);
    assert_eq!(engine.voice_status(1).unwrap().0, 62);
}

#[test]
fn note_off_releases_the_held_voice() {
    let mut engine = loaded_engine();
    engine.note_on(60, 0);
    engine.note_on(67, 0);
    engine.process().unwrap();
    engine.note_off(67);
    assert_eq!(engine.voice_status(0).unwrap().1, AdsrState::Sustain);
    assert_eq!(engine.voice_status(1).unwrap().1, AdsrState::Release);
    engine.note_off(50);
    assert_eq!(engine.voice_status(0).unwrap().1, AdsrState::Sustain);
}

#[test]
fn second_load_replaces_first() {
    let mut engine = SamplerEngine::new(1000, 1);
    engine.load_file_from_path(&ramp(10), 1000).unwrap();
    assert_eq!(engine.warp_buffer().capacity(), 10);
    engine.load_file_from_path(&vec![5, 6, 7], 1000).unwrap();
    assert_eq!(engine.warp_buffer().capacity(), 3);
    assert_eq!(engine.warp_buffer().get(2), 7);
    assert_eq!(engine.warp_buffer().get_write_index(), 0);
    assert!(engine.file_paths().is_empty());
    engine.load_file_from_path(&vec![], 1000).unwrap();
    assert_eq!(engine.warp_buffer().capacity(), 1);
    assert_eq!(engine.warp_buffer().get(0), 0);
}

#[test]
fn file_rate_scales_playback() {
    let mut engine = SamplerEngine::new(1000, 1);
    engine.load_file_from_path(&ramp(100), 2000).unwrap();
    engine.set_warp_base(60);
    engine.set_adsr(0, 0, LEVEL_ONE as i64, 0);
    engine.note_on(60, 0);
    let outs: Vec<i64> = (0..3).map(|_| engine.process().unwrap()).collect();
    assert_eq!(outs, vec![0, 2000, 4000]);
}

#[test]
fn assign_mode_plays_assigned_notes_only() {
    let mut engine = SamplerEngine::new(1000, 1);
    engine.assign_file_to_midi("a.wav", &ramp(50), 1000, 60).unwrap();
    engine.assign_file_to_midi("a.wav", &ramp(50), 1000, 61).unwrap();
    assert_eq!(engine.file_paths().len(), 1);
    engine.set_mode(SamplerMode::Assign);
    engine.set_adsr_assign(0, 0, LEVEL_ONE as i64, 0, 60).unwrap();
    engine.note_on(62, 0);
    assert_eq!(engine.process(), Ok(0));
    engine.note_on(60, 0);
    let outs: Vec<i64> = (0..3).map(|_| engine.process().unwrap()).collect();
    assert_eq!(outs, vec![0, 1000, 2000]);
    assert_eq!(engine.get_adsr_assign(60), (0, 0, LEVEL_ONE, 0));
    assert_eq!(engine.get_adsr_assign(99), (100, 100, LEVEL_ONE, 100));
    engine.note_off(60);
    engine.process().unwrap();
    assert_eq!(engine.process(), Ok(0));
}

#[test]
fn reassigning_a_note_replaces_its_sound() {
    let mut engine = SamplerEngine::new(1000, 1);
    engine.assign_file_to_midi("a.wav", &ramp(50), 1000, 60).unwrap();
    engine.set_points_assign(FRAC_ONE as i64 * 10, FRAC_ONE as i64 * 50, 60).unwrap();
    engine.assign_file_to_midi("b.wav", &vec![9, 9], 1000, 60).unwrap();
    assert_eq!(engine.get_points_assign(60), (0, PERCENT_100));
    assert_eq!(engine.file_paths().len(), 2);
}

#[test]
fn unassigned_notes_report_errors_and_defaults() {
    let mut engine = SamplerEngine::new(1000, 1);
    assert_eq!(engine.set_adsr_assign(1, 1, 1, 1, 70), Err(SamplerError::NotAssigned));
    assert_eq!(engine.set_points_assign(0, 0, 70), Err(SamplerError::NotAssigned));
    assert_eq!(engine.set_sus_points_assign(0, 0, 70), Err(SamplerError::NotAssigned));
    assert_eq!(
        engine.set_sus_looping_assign(SustainModes::LoopWrap, 70),
        Err(SamplerError::NotAssigned)
    );
    assert_eq!(engine.set_fade_time_assign(5, 70), Err(SamplerError::NotAssigned));
    assert_eq!(engine.get_points_assign(70), (0, PERCENT_100));
    assert_eq!(engine.get_sus_points_assign(70), (0, PERCENT_100));
}

#[test]
fn sfz_mode_is_unsupported() {
    let mut engine = SamplerEngine::new(1000, 1);
    engine.set_mode(SamplerMode::Sfz);
    assert_eq!(engine.process(), Err(SamplerError::SfzUnsupported));
}

#[test]
fn warp_points_round_trip() {
    let mut engine = loaded_engine();
    engine.set_points_warp(FRAC_ONE as i64 * 25, FRAC_ONE as i64 * 75);
    assert_eq!(engine.get_points_warp(), (25 * FRAC_ONE, 75 * FRAC_ONE));
    engine.set_sus_points_warp(FRAC_ONE as i64 * 40, FRAC_ONE as i64 * 60);
    assert_eq!(engine.get_sus_points_warp(), (40 * FRAC_ONE, 60 * FRAC_ONE));
    engine.set_sus_looping_warp(SustainModes::LoopBounce);
    engine.set_fade_time_warp(10);
    engine.set_num_voices(0);
    assert_eq!(engine.get_points_warp(), (0, PERCENT_100));
    engine.note_on(60, 0);
    assert_eq!(engine.process(), Ok(0));
}

#[test]
fn integer_samples_decode_to_full_scale() {
    assert_eq!(decode_int_sample(127, 8), Ok(SAMPLE_ONE as i32));
    assert_eq!(decode_int_sample(32767, 16), Ok(SAMPLE_ONE as i32));
    assert_eq!(decode_int_sample(-8388608, 24), Ok(-(SAMPLE_ONE as i32)));
    assert_eq!(decode_int_sample(-16384, 16), Ok(-8388864));
    assert_eq!(decode_int_sample(i32::MAX, 8), Ok(i32::MAX));
    assert_eq!(decode_int_sample(5, 12), Err(SamplerError::UnsupportedBitDepth));
    assert_eq!(decode_int_sample(5, 32), Err(SamplerError::UnsupportedBitDepth));
}
