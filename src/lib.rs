//! A polyphonic sample-playback engine with verified fixed-point arithmetic.
//!
//! Audio quantities are integers: sample amplitudes are `i32` (decoded files use
//! `fixed::SAMPLE_ONE` as full scale), read positions, percentages and pitch ratios
//! are Q16 fixed-point values (`fixed::FRAC_ONE` is one sample, one percent, or a
//! ratio of 1), and envelope levels are Q32 fixed-point values (`fixed::LEVEL_ONE`
//! is full level). Times are whole milliseconds.
//!
//! Modules, leaves first: `ring_buffer` (circular sample store with interpolated
//! reads), `adsr` (envelope state machine), `crossfade` (loop-seam blend),
//! `sampler_voice` (one resampling voice) and `sampler_engine` (voice pool, sound
//! bank and mixing).
pub mod fixed;
pub mod adsr;
pub mod crossfade;
pub mod ring_buffer;
pub mod sampler_engine;
pub mod sampler_voice;
