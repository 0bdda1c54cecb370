//! One playback voice: resamples a buffer at a pitch ratio inside a start/end region,
//! with an optional sustain loop, scaled by its own envelope.
use vstd::prelude::*;
use crate::adsr::{ADSR, AdsrModel, AdsrState, clamp_level, iclamp};
use crate::crossfade::{crossfade, crossfade_spec};
use crate::fixed::{
    FRAC_ONE, LEVEL_ONE, MAX_POS, PERCENT_100, pitch_ratio, pitch_ratio_spec, scale, scale_spec,
};
use crate::ring_buffer::RingBuffer;

verus! {

/// What a voice does at the end of its sustain loop while the note is held.
#[derive(PartialEq, Eq, Structural, Debug, Clone, Copy)]
pub enum SustainModes {
    NoLoop,
    LoopWrap,
    LoopBounce,
}

/// A voice reading a buffer it does not own.
///
/// Read positions and region points are Q16 sample offsets; the phase step is a Q16
/// pitch ratio.
#[derive(Clone, Debug)]
pub struct SamplerVoice {
    phase_offset: u64,
    phase_step: u64,
    pub midi_note: u8,
    pub base_midi: u8,
    num_channels: usize,
    sample_rate: u32,
    pub adsr: ADSR,
    pub sus_is_velo: bool,
    start_point: u64,
    end_point: u64,
    has_end: bool,
    reversed: bool,
    moving_back: bool,
    sus_start: u64,
    sus_end: u64,
    sus_mode: SustainModes,
    fade_len: u64,
}

/// `x` clamped to `[lo, hi]`.
pub open spec fn clamp_int(x: int, lo: int, hi: int) -> int {
    if x < lo {
        lo
    } else if x > hi {
        hi
    } else {
        x
    }
}

/// The Q16 position at the Q16 percentage `pct` (clamped to `[0, max_pct]`) of a buffer
/// of `length` samples.
pub open spec fn pct_pos(pct: int, max_pct: int, length: nat) -> int {
    clamp_int(pct, 0, max_pct) * length / 100
}

/// The Q16 percentage of a buffer of `length` samples at the Q16 position `pos`.
pub open spec fn pos_pct(pos: int, length: nat) -> int {
    pos * 100 / (length as int)
}

/// The distance a voice moves per sample in warp mode: its pitch ratio times the
/// sample-rate ratio (both Q16), capped at `MAX_POS`.
pub open spec fn warp_increment(step: int, ratio: int) -> int {
    let x = step * ratio / (FRAC_ONE as int);
    if x > MAX_POS {
        MAX_POS as int
    } else {
        x
    }
}

/// The distance a voice moves per sample in assign mode: the sample-rate ratio alone,
/// capped at `MAX_POS`.
pub open spec fn assign_increment(ratio: int) -> int {
    if ratio > MAX_POS {
        MAX_POS as int
    } else {
        ratio
    }
}

/// The value read at the Q16 position `pos`: 0 from an empty buffer.
pub open spec fn read_at(buf: RingBuffer<i32>, pos: int) -> int {
    if buf.cap() > 0 {
        buf.frac_at(pos)
    } else {
        0
    }
}

impl SamplerVoice {
    /// This is a voice as `new` makes it for `base` at `rate`: inactive at level 0 with the
    /// default envelope (200 ms attack, 100 ms decay, half-level sustain, 200 ms release),
    /// the whole buffer as its region, no sustain loop and no crossfade.
    pub open spec fn is_fresh(&self, base: u8, rate: u32) -> bool {
        &&& self.env().state == AdsrState::Inactive
        &&& self.env().value == 0
        &&& self.env().sample_rate == rate
        &&& self.env().attack_ms == 200
        &&& self.env().decay_ms == 100
        &&& self.env().sustain == LEVEL_ONE / 2
        &&& self.env().release_ms == 200
        &&& self.rate() == rate
        &&& self.base() == base
        &&& self.note() == 0
        &&& !self.velocity_sustain()
        &&& self.phase() == 0
        &&& self.step() == FRAC_ONE
        &&& self.start() == 0
        &&& !self.has_end()
        &&& !self.is_reversed()
        &&& !self.moving_back()
        &&& self.mode() == SustainModes::NoLoop
        &&& self.fade() == 0
    }

    /// Whether the envelope is active.
    pub open spec fn is_active_spec(&self) -> bool {
        self.env().state != AdsrState::Inactive
    }

    /// The envelope's abstract state.
    pub closed spec fn env(&self) -> AdsrModel {
        self.adsr@
    }

    pub closed spec fn note(&self) -> u8 {
        self.midi_note
    }

    pub closed spec fn base(&self) -> u8 {
        self.base_midi
    }

    /// Whether note-on velocity sets the sustain level.
    pub closed spec fn velocity_sustain(&self) -> bool {
        self.sus_is_velo
    }

    pub closed spec fn phase(&self) -> int {
        self.phase_offset as int
    }

    pub closed spec fn step(&self) -> int {
        self.phase_step as int
    }

    pub closed spec fn start(&self) -> int {
        self.start_point as int
    }

    pub closed spec fn end_raw(&self) -> int {
        self.end_point as int
    }

    /// Whether an end point was set; without one the region ends at the buffer's end.
    pub closed spec fn has_end(&self) -> bool {
        self.has_end
    }

    pub closed spec fn is_reversed(&self) -> bool {
        self.reversed
    }

    /// Whether the voice is moving toward lower positions.
    pub closed spec fn moving_back(&self) -> bool {
        self.moving_back
    }

    pub closed spec fn sus_a(&self) -> int {
        self.sus_start as int
    }

    pub closed spec fn sus_b(&self) -> int {
        self.sus_end as int
    }

    pub closed spec fn mode(&self) -> SustainModes {
        self.sus_mode
    }

    /// The crossfade window at a loop seam, as a Q16 length.
    pub closed spec fn fade(&self) -> int {
        self.fade_len as int
    }

    pub closed spec fn rate(&self) -> nat {
        self.sample_rate as nat
    }

    /// The region's end for a buffer of `cap` samples.
    pub open spec fn end_for(&self, cap: nat) -> int {
        if self.has_end() {
            self.end_raw()
        } else {
            cap * FRAC_ONE
        }
    }

    pub open spec fn loop_lo(&self) -> int {
        if self.sus_a() <= self.sus_b() {
            self.sus_a()
        } else {
            self.sus_b()
        }
    }

    pub open spec fn loop_hi(&self) -> int {
        if self.sus_a() <= self.sus_b() {
            self.sus_b()
        } else {
            self.sus_a()
        }
    }

    pub open spec fn span(&self) -> int {
        self.loop_hi() - self.loop_lo()
    }

    /// The crossfade window actually used: never longer than the loop.
    pub open spec fn fade_window(&self) -> int {
        if self.fade() <= self.span() {
            self.fade()
        } else {
            self.span()
        }
    }

    /// The sustain loop is in force: a loop mode is set, the loop is not empty, and the
    /// envelope is in sustain or later.
    pub open spec fn looping(&self) -> bool {
        &&& self.mode() != SustainModes::NoLoop
        &&& self.loop_lo() < self.loop_hi()
        &&& (self.env().state == AdsrState::Sustain || self.env().state == AdsrState::Release)
    }

    /// Position and direction after moving `inc` inside the sustain loop: a wrap jumps to
    /// the other end of the loop, a bounce reflects off the end and turns around.
    pub open spec fn loop_next(&self, inc: int) -> (int, bool) {
        let lo = self.loop_lo();
        let hi = self.loop_hi();
        let span = self.span();
        let pos = self.phase();
        if !self.moving_back() {
            if pos + inc < hi {
                (pos + inc, false)
            } else if self.mode() == SustainModes::LoopWrap {
                (lo + (pos + inc - hi) % span, false)
            } else {
                let over = pos + inc - hi;
                (if over <= span {
                    hi - over
                } else {
                    lo
                }, true)
            }
        } else {
            if pos >= lo + inc {
                (pos - inc, true)
            } else if self.mode() == SustainModes::LoopWrap {
                (hi - (lo + inc - pos) % span, true)
            } else {
                let under = lo + inc - pos;
                (if under <= span {
                    lo + under
                } else {
                    hi
                }, false)
            }
        }
    }

    /// Position and direction after moving `inc` in a buffer of `cap` samples, or `None`
    /// when the move passes the region's end with no loop in force.
    pub open spec fn advance(&self, cap: nat, inc: int) -> Option<(int, bool)> {
        if self.looping() {
            Some(self.loop_next(inc))
        } else if !self.is_reversed() {
            if self.phase() + inc >= self.end_for(cap) {
                None
            } else {
                Some((self.phase() + inc, self.moving_back()))
            }
        } else {
            if self.phase() <= self.end_for(cap) + inc {
                None
            } else {
                Some((self.phase() - inc, self.moving_back()))
            }
        }
    }

    /// The value the voice reads at its position: near a wrapping loop's seam it is
    /// crossfaded with the value one loop length away, which is where playback continues.
    pub open spec fn source(&self, buf: RingBuffer<i32>) -> int {
        let pos = self.phase();
        let lo = self.loop_lo();
        let hi = self.loop_hi();
        let span = self.span();
        let fade = self.fade_window();
        if self.looping() && self.mode() == SustainModes::LoopWrap && fade > 0 {
            if !self.moving_back() && hi - fade <= pos < hi && pos >= span {
                crossfade_spec(read_at(buf, pos), read_at(buf, pos - span), pos - (hi - fade), fade)
            } else if self.moving_back() && lo < pos <= lo + fade {
                crossfade_spec(read_at(buf, pos), read_at(buf, pos + span), lo + fade - pos, fade)
            } else {
                read_at(buf, pos)
            }
        } else {
            read_at(buf, pos)
        }
    }

    /// Positions and the pitch ratio are in range and the envelope is well formed.
    pub open spec fn wf(&self) -> bool {
        &&& self.env().wf()
        &&& self.phase() <= MAX_POS
        &&& self.step() <= 123715 * 1024
        &&& self.start() <= MAX_POS
        &&& self.end_raw() <= MAX_POS
        &&& self.sus_a() <= MAX_POS
        &&& self.sus_b() <= MAX_POS
        &&& self.fade() <= MAX_POS
    }

    /// Everything but the note, position, direction, phase step and envelope is equal.
    pub open spec fn same_settings(&self, other: &SamplerVoice) -> bool {
        &&& self.base() == other.base()
        &&& self.velocity_sustain() == other.velocity_sustain()
        &&& self.start() == other.start()
        &&& self.end_raw() == other.end_raw()
        &&& self.has_end() == other.has_end()
        &&& self.is_reversed() == other.is_reversed()
        &&& self.sus_a() == other.sus_a()
        &&& self.sus_b() == other.sus_b()
        &&& self.mode() == other.mode()
        &&& self.fade() == other.fade()
        &&& self.rate() == other.rate()
    }

    /// The value rendered with a move of `inc`: silence when inactive or at the region's
    /// end, otherwise the source value scaled by the envelope's next level.
    pub open spec fn output(&self, buf: RingBuffer<i32>, inc: int) -> int {
        if self.env().state == AdsrState::Inactive {
            0
        } else {
            match self.advance(buf.cap(), inc) {
                None => 0,
                Some(_) => scale_spec(
                    self.source(buf),
                    self.env().next().1 as int,
                    LEVEL_ONE as int,
                ),
            }
        }
    }

    /// `after` is this voice once `note` started with Q32 `velocity`: the pitch follows
    /// the note, the position rewinds to the start point, the envelope enters its attack
    /// from its current level, and velocity sets the sustain level when it controls it.
    pub open spec fn started(&self, after: &SamplerVoice, note: u8, velocity: i64) -> bool {
        &&& after.note() == note
        &&& after.step() == pitch_ratio_spec(note_offset(note, self.base()))
        &&& after.phase() == self.start()
        &&& after.moving_back() == self.is_reversed()
        &&& after.same_settings(self)
        &&& after.env().state == AdsrState::Attack
        &&& after.env().value == self.env().value
        &&& after.env().attack_ms == self.env().attack_ms
        &&& after.env().decay_ms == self.env().decay_ms
        &&& after.env().release_ms == self.env().release_ms
        &&& after.env().sample_rate == self.env().sample_rate
        &&& self.velocity_sustain() ==> after.env().sustain == clamp_level(velocity as int)
        &&& !self.velocity_sustain() ==> after.env().sustain == self.env().sustain
    }

    /// `after` is this voice once its note was released: an active envelope moves to its
    /// release phase from its current level, an inactive one stays as it is, and nothing
    /// else changes.
    pub open spec fn released(&self, after: &SamplerVoice) -> bool {
        &&& after.same_settings(self)
        &&& after.note() == self.note()
        &&& after.phase() == self.phase()
        &&& after.step() == self.step()
        &&& after.moving_back() == self.moving_back()
        &&& self.env().state == AdsrState::Inactive ==> after.env() == self.env()
        &&& self.env().state != AdsrState::Inactive ==> after.env() == self.env().release()
    }

    /// The effect of rendering one sample with a move of `inc`, given the value `r`
    /// returned: silence and a rewind when inactive or at the region's end, otherwise
    /// the source value scaled by the envelope's next level.
    pub open spec fn rendered(
        &self,
        after: &SamplerVoice,
        buf: RingBuffer<i32>,
        inc: int,
        r: int,
    ) -> bool {
        &&& after.same_settings(self)
        &&& after.note() == self.note()
        &&& r == self.output(buf, inc)
        &&& -0x8000_0000 <= r < 0x8000_0000
        &&& if self.env().state == AdsrState::Inactive {
            &&& r == 0
            &&& after.phase() == self.start()
            &&& after.step() == 0
            &&& after.env() == self.env()
            &&& after.moving_back() == self.moving_back()
        } else {
            match self.advance(buf.cap(), inc) {
                None => {
                    &&& r == 0
                    &&& after.phase() == self.start()
                    &&& after.step() == 0
                    &&& after.moving_back() == self.moving_back()
                    &&& after.env() == (AdsrModel {
                        state: AdsrState::Inactive,
                        value: 0,
                        ..self.env()
                    })
                },
                Some((p, back)) => {
                    &&& after.phase() == p
                    &&& after.moving_back() == back
                    &&& after.step() == self.step()
                    &&& after.env() == self.env().next().0
                    &&& r == scale_spec(self.source(buf), self.env().next().1 as int, LEVEL_ONE as int)
                },
            }
        }
    }
}

impl SamplerVoice {
    /// An inactive voice at `base_midi_` with the default envelope (200 ms attack, 100 ms
    /// decay, half-level sustain, 200 ms release), the whole buffer as its region and no
    /// sustain loop.
    pub fn new(num_channels_: usize, base_midi_: u8, sample_rate_: u32) -> (r: Self)
        ensures
            r.wf(),
            r.is_fresh(base_midi_, sample_rate_),
    {
        let adsr_ = ADSR::new(sample_rate_, 200, 100, (LEVEL_ONE / 2) as i64, 200);
        SamplerVoice {
            phase_offset: 0,
            phase_step: FRAC_ONE,
            midi_note: 0,
            base_midi: base_midi_,
            num_channels: num_channels_,
            sample_rate: sample_rate_,
            adsr: adsr_,
            sus_is_velo: false,
            start_point: 0,
            end_point: 0,
            has_end: false,
            reversed: false,
            moving_back: false,
            sus_start: 0,
            sus_end: 0,
            sus_mode: SustainModes::NoLoop,
            fade_len: 0,
        }
    }

    fn loop_bounds(&self) -> (r: (u64, u64))
        ensures
            r.0 == self.loop_lo(),
            r.1 == self.loop_hi(),
    {
        if self.sus_start <= self.sus_end {
            (self.sus_start, self.sus_end)
        } else {
            (self.sus_end, self.sus_start)
        }
    }

    fn is_looping(&self) -> (r: bool)
        ensures
            r == self.looping(),
    {
        let (lo, hi) = self.loop_bounds();
        let st = self.adsr.get_state();
        self.sus_mode != SustainModes::NoLoop && lo < hi && (st == AdsrState::Sustain || st
            == AdsrState::Release)
    }

    fn source_sample(&self, buffer: &RingBuffer<i32>) -> (r: i32)
        requires
            self.wf(),
        ensures
            r == self.source(*buffer),
    {
        let pos = self.phase_offset;
        let (lo, hi) = self.loop_bounds();
        let span = hi - lo;
        let fade = if self.fade_len <= span {
            self.fade_len
        } else {
            span
        };
        if self.is_looping() && self.sus_mode == SustainModes::LoopWrap && fade > 0 {
            if !self.moving_back && hi - fade <= pos && pos < hi && pos >= span {
                let a = buffer.get_frac(pos);
                let b = buffer.get_frac(pos - span);
                crossfade(a, b, pos - (hi - fade), fade)
            } else if self.moving_back && lo < pos && pos <= lo + fade {
                let a = buffer.get_frac(pos);
                let b = buffer.get_frac(pos + span);
                crossfade(a, b, lo + fade - pos, fade)
            } else {
                buffer.get_frac(pos)
            }
        } else {
            buffer.get_frac(pos)
        }
    }

    fn next_position(&self, cap: u64, inc: u64) -> (r: Option<(u64, bool)>)
        requires
            self.wf(),
            inc <= MAX_POS,
            cap <= u32::MAX,
        ensures
            match self.advance(cap as nat, inc as int) {
                None => r is None,
                Some((p, b)) => r matches Some((q, b2)) && q == p && b2 == b && q <= MAX_POS,
            },
    {
        let pos = self.phase_offset;
        if self.is_looping() {
            let (lo, hi) = self.loop_bounds();
            let span = hi - lo;
            if !self.moving_back {
                if pos + inc < hi {
                    Some((pos + inc, false))
                } else if self.sus_mode == SustainModes::LoopWrap {
                    Some((lo + (pos + inc - hi) % span, false))
                } else {
                    let over = pos + inc - hi;
                    if over <= span {
                        Some((hi - over, true))
                    } else {
                        Some((lo, true))
                    }
                }
            } else {
                if pos >= lo + inc {
                    Some((pos - inc, true))
                } else if self.sus_mode == SustainModes::LoopWrap {
                    Some((hi - (lo + inc - pos) % span, true))
                } else {
                    let under = lo + inc - pos;
                    if under <= span {
                        Some((lo + under, false))
                    } else {
                        Some((hi, false))
                    }
                }
            }
        } else {
            assert(cap * FRAC_ONE <= u32::MAX * FRAC_ONE) by (nonlinear_arith)
                requires
                    cap <= u32::MAX,
            ;
            let end = if self.has_end {
                self.end_point
            } else {
                cap * FRAC_ONE
            };
            if !self.reversed {
                if pos + inc >= end {
                    None
                } else {
                    Some((pos + inc, self.moving_back))
                }
            } else {
                if pos <= end + inc {
                    None
                } else {
                    Some((pos - inc, self.moving_back))
                }
            }
        }
    }

    fn render(&mut self, buffer: &RingBuffer<i32>, inc: u64) -> (r: i32)
        requires
            old(self).wf(),
            inc <= MAX_POS,
            buffer.cap() <= u32::MAX,
        ensures
            final(self).wf(),
            old(self).rendered(final(self), *buffer, inc as int, r as int),
    {
        if !self.adsr.is_active() {
            self.phase_offset = self.start_point;
            self.phase_step = 0;
            return 0;
        }
        let cap = buffer.capacity() as u64;
        let sample = self.source_sample(buffer);
        match self.next_position(cap, inc) {
            None => {
                self.adsr.reset();
                self.phase_offset = self.start_point;
                self.phase_step = 0;
                0
            },
            Some((p, back)) => {
                self.phase_offset = p;
                self.moving_back = back;
                let level = self.adsr.getNextSample();
                scale(sample as i64, level, LEVEL_ONE) as i32
            },
        }
    }

    /// Renders one sample in warp mode: the voice moves by its pitch ratio times the
    /// Q16 sample-rate ratio `sr_scalar`.
    #[allow(non_snake_case)]
    pub fn processWarp(&mut self, buffer: &RingBuffer<i32>, sr_scalar: u64) -> (r: i32)
        requires
            old(self).wf(),
            buffer.cap() <= u32::MAX,
        ensures
            final(self).wf(),
            old(self).rendered(
                final(self),
                *buffer,
                warp_increment(old(self).step(), sr_scalar as int),
                r as int,
            ),
    {
        assert(self.phase_step * sr_scalar <= u64::MAX * u64::MAX) by (nonlinear_arith);
        let x = (self.phase_step as u128) * (sr_scalar as u128) / (FRAC_ONE as u128);
        let inc: u64 = if x > MAX_POS as u128 {
            MAX_POS
        } else {
            x as u64
        };
        self.render(buffer, inc)
    }

    /// Renders one sample in assign mode: the voice moves by the Q16 sample-rate ratio
    /// `sr_scalar` alone, with no pitch change.
    #[allow(non_snake_case)]
    pub fn processAssign(&mut self, buffer: &RingBuffer<i32>, sr_scalar: u64) -> (r: i32)
        requires
            old(self).wf(),
            buffer.cap() <= u32::MAX,
        ensures
            final(self).wf(),
            old(self).rendered(final(self), *buffer, assign_increment(sr_scalar as int), r as int),
    {
        let inc: u64 = if sr_scalar > MAX_POS {
            MAX_POS
        } else {
            sr_scalar
        };
        self.render(buffer, inc)
    }
}

/// The semitone offset of `note` from `base`, clamped to `[-127, 127]`.
pub open spec fn note_offset(note: u8, base: u8) -> int {
    clamp_int(note - base, -127, 127)
}

/// Converts a Q16 percentage, clamped to `[0, max_pct]`, to a Q16 position in a buffer of
/// `length` samples.
fn percent_to_pos(pct: i64, max_pct: u64, length: usize) -> (r: u64)
    requires
        max_pct <= PERCENT_100,
        length <= u32::MAX,
    ensures
        r == pct_pos(pct as int, max_pct as int, length as nat),
        r <= length * FRAC_ONE,
{
    let c = iclamp(pct, 0, max_pct as i64) as u64;
    assert(c * length <= PERCENT_100 * u32::MAX) by (nonlinear_arith)
        requires
            c <= PERCENT_100,
            length <= u32::MAX,
    ;
    let p = (c as u128) * (length as u128) / 100;
    proof {
        assert(c * length <= 100 * FRAC_ONE * length) by (nonlinear_arith)
            requires
                c <= PERCENT_100,
        ;
        assert(100 * FRAC_ONE * length == (FRAC_ONE * length) * 100) by (nonlinear_arith);
        vstd::arithmetic::div_mod::lemma_div_is_ordered(
            (c * length) as int,
            (FRAC_ONE * length) * 100,
            100,
        );
        vstd::arithmetic::div_mod::lemma_div_by_multiple((FRAC_ONE * length) as int, 100);
    }
    p as u64
}

/// Converts a Q16 position to a Q16 percentage of a buffer of `length > 0` samples.
fn pos_to_percent(pos: u64, length: usize) -> (r: u64)
    requires
        pos <= MAX_POS,
        length > 0,
    ensures
        r == pos_pct(pos as int, length as nat),
{
    let x = (pos as u128) * 100 / (length as u128);
    proof {
        vstd::arithmetic::div_mod::lemma_div_is_ordered_by_denominator(
            (pos * 100) as int,
            1,
            length as int,
        );
    }
    x as u64
}

impl SamplerVoice {
    /// Plays `note` relative to the base note: the phase step becomes the Q16 ratio
    /// `2^(offset / 12)`.
    pub fn set_note(&mut self, note: u8)
        requires
            old(self).wf(),
        ensures
            final(self).wf(),
            final(self).note() == note,
            final(self).step() == pitch_ratio_spec(note_offset(note, old(self).base())),
            final(self).phase() == old(self).phase(),
            final(self).moving_back() == old(self).moving_back(),
            final(self).env() == old(self).env(),
            final(self).base() == old(self).base(),
            final(self).velocity_sustain() == old(self).velocity_sustain(),
            final(self).start() == old(self).start(),
            final(self).end_raw() == old(self).end_raw(),
            final(self).has_end() == old(self).has_end(),
            final(self).is_reversed() == old(self).is_reversed(),
            final(self).sus_a() == old(self).sus_a(),
            final(self).sus_b() == old(self).sus_b(),
            final(self).mode() == old(self).mode(),
            final(self).fade() == old(self).fade(),
            final(self).rate() == old(self).rate(),
    {
        self.midi_note = note;
        let d = iclamp(note as i64 - self.base_midi as i64, -127, 127);
        self.phase_step = pitch_ratio(d as i32);
    }

    /// Starts a note: with velocity-controlled sustain the Q32 `velocity` becomes the
    /// sustain level; the position rewinds to the start point, the pitch follows `note`,
    /// and the envelope enters its attack.
    pub fn note_on(&mut self, note: u8, velocity: i64)
        requires
            old(self).wf(),
        ensures
            final(self).wf(),
            old(self).started(final(self), note, velocity),
    {
        if self.sus_is_velo {
            self.adsr.set_sustain(velocity);
        }
        self.phase_offset = self.start_point;
        self.moving_back = self.reversed;
        self.set_note(note);
        self.adsr.note_on();
    }

    /// The same voice with region `[start, end]` (reversed when `start > end`).
    pub closed spec fn with_points(&self, start: int, end: int) -> SamplerVoice {
        SamplerVoice {
            start_point: start as u64,
            end_point: end as u64,
            has_end: true,
            reversed: start > end,
            ..*self
        }
    }

    /// The same voice with start point `start` and reversal flag `reversed`.
    pub closed spec fn with_start(&self, start: int, reversed: bool) -> SamplerVoice {
        SamplerVoice { start_point: start as u64, reversed, ..*self }
    }

    /// The same voice with sustain-loop points `a` and `b`.
    pub closed spec fn with_sus(&self, a: int, b: int) -> SamplerVoice {
        SamplerVoice { sus_start: a as u64, sus_end: b as u64, ..*self }
    }

    /// `after` is this voice with the envelope times (milliseconds) set and, unless
    /// velocity controls it, the Q32 sustain level; the envelope's level and phase and
    /// everything else are kept.
    pub open spec fn adsr_set(
        &self,
        after: &SamplerVoice,
        attack_: i32,
        decay_: i32,
        sustain_: i64,
        release_: i32,
    ) -> bool {
        &&& after.same_settings(self)
        &&& after.note() == self.note()
        &&& after.phase() == self.phase()
        &&& after.step() == self.step()
        &&& after.moving_back() == self.moving_back()
        &&& after.env().attack_ms == crate::adsr::clamp_time(attack_ as int)
        &&& after.env().decay_ms == crate::adsr::clamp_time(decay_ as int)
        &&& after.env().release_ms == crate::adsr::clamp_time(release_ as int)
        &&& !self.velocity_sustain() ==> after.env().sustain == clamp_level(sustain_ as int)
        &&& self.velocity_sustain() ==> after.env().sustain == self.env().sustain
        &&& after.env().value == self.env().value
        &&& after.env().state == self.env().state
        &&& after.env().sample_rate == self.env().sample_rate
    }

    /// `after` is this voice with its region set from Q16 percentages of a buffer of
    /// `length` samples, as `set_start_and_end_point` sets it.
    pub open spec fn points_applied(
        &self,
        after: SamplerVoice,
        start_point: i64,
        end_point: i64,
        length: nat,
    ) -> bool {
        let s = pct_pos(start_point as int, 99 * FRAC_ONE, length);
        let e = pct_pos(end_point as int, PERCENT_100 as int, length);
        &&& after == self.with_points(s, e)
        &&& after.start() == s
        &&& after.end_raw() == e
        &&& after.has_end()
        &&& after.is_reversed() == (s > e)
        &&& after.base() == self.base()
    }

    /// `after` is this voice with its sustain-loop points set from Q16 percentages of a
    /// buffer of `length` samples, as `set_sus_points` sets them.
    pub open spec fn sus_applied(
        &self,
        after: SamplerVoice,
        start_point: i64,
        end_point: i64,
        length: nat,
    ) -> bool {
        let a = pct_pos(start_point as int, PERCENT_100 as int, length);
        let b = pct_pos(end_point as int, PERCENT_100 as int, length);
        &&& after == self.with_sus(a, b)
        &&& after.sus_a() == a
        &&& after.sus_b() == b
        &&& after.base() == self.base()
    }

    /// `after` is this voice with loop mode `mode`.
    pub open spec fn mode_applied(&self, after: SamplerVoice, mode: SustainModes) -> bool {
        &&& after == self.with_mode(mode)
        &&& after.mode() == mode
        &&& after.base() == self.base()
    }

    /// `after` is this voice with a crossfade of `fade_ms` milliseconds, as
    /// `set_fade_time` sets it.
    pub open spec fn fade_applied(&self, after: SamplerVoice, fade_ms: i32) -> bool {
        let f = clamp_int(
            crate::adsr::clamp_time(fade_ms as int) * self.rate() / 1000 * FRAC_ONE,
            0,
            MAX_POS as int,
        );
        &&& after == self.with_fade(f)
        &&& after.fade() == f
        &&& after.base() == self.base()
    }

    /// The same voice with loop mode `mode`.
    pub closed spec fn with_mode(&self, mode: SustainModes) -> SamplerVoice {
        SamplerVoice { sus_mode: mode, ..*self }
    }

    /// The same voice with a crossfade window of `fade`.
    pub closed spec fn with_fade(&self, fade: int) -> SamplerVoice {
        SamplerVoice { fade_len: fade as u64, ..*self }
    }

    /// The same voice with base note `note`.
    pub closed spec fn with_base(&self, note: u8) -> SamplerVoice {
        SamplerVoice { base_midi: note, ..*self }
    }

    /// Releases the note: the envelope moves to its release phase.
    pub fn note_off(&mut self)
        requires
            old(self).wf(),
        ensures
            final(self).wf(),
            old(self).released(final(self)),
    {
        self.adsr.note_off()
    }

    /// Sets the envelope's times (milliseconds) and, unless velocity controls it, its
    /// Q32 sustain level.
    pub fn set_adsr(&mut self, attack_: i32, decay_: i32, sustain_: i64, release_: i32)
        requires
            old(self).wf(),
        ensures
            final(self).wf(),
            old(self).adsr_set(final(self), attack_, decay_, sustain_, release_),
    {
        if !self.sus_is_velo {
            self.adsr.set_sustain(sustain_);
        }
        self.adsr.set_attack(attack_);
        self.adsr.set_decay(decay_);
        self.adsr.set_release(release_);
    }

    /// Sets the start point at the Q16 percentage `start_point` (clamped to `[0, 99]`
    /// percent) of a buffer of `length` samples; playback is reversed when the start lies
    /// past the end.
    pub fn set_start_point(&mut self, start_point: i64, length: usize)
        requires
            old(self).wf(),
            length <= u32::MAX,
        ensures
            final(self).wf(),
            final(self).start() == pct_pos(start_point as int, 99 * FRAC_ONE, length as nat),
            final(self).is_reversed() == (final(self).start() > old(self).end_for(length as nat)),
            *final(self) == old(self).with_start(final(self).start(), final(self).is_reversed()),
            final(self).base() == old(self).base(),
            final(self).end_raw() == old(self).end_raw(),
            final(self).has_end() == old(self).has_end(),
    {
        self.start_point = percent_to_pos(start_point, 99 * FRAC_ONE, length);
        let end = self.end_for_length(length);
        self.reversed = self.start_point > end;
    }

    fn end_for_length(&self, length: usize) -> (r: u64)
        requires
            self.wf(),
            length <= u32::MAX,
        ensures
            r == self.end_for(length as nat),
            r <= MAX_POS,
    {
        if self.has_end {
            self.end_point
        } else {
            assert(length * FRAC_ONE <= u32::MAX * FRAC_ONE) by (nonlinear_arith)
                requires
                    length <= u32::MAX,
            ;
            (length as u64) * FRAC_ONE
        }
    }

    /// Sets the end point at the Q16 percentage `end_point` (clamped to `[0, 100]`
    /// percent) of a buffer of `length` samples; playback is reversed when the start lies
    /// past the end.
    pub fn set_end_point(&mut self, end_point: i64, length: usize)
        requires
            old(self).wf(),
            length <= u32::MAX,
        ensures
            final(self).wf(),
            final(self).end_raw() == pct_pos(end_point as int, PERCENT_100 as int, length as nat),
            final(self).has_end(),
            final(self).is_reversed() == (old(self).start() > final(self).end_raw()),
            *final(self) == old(self).with_points(old(self).start(), final(self).end_raw()),
            final(self).base() == old(self).base(),
            final(self).start() == old(self).start(),
    {
        proof {
            assert(length * FRAC_ONE <= u32::MAX * FRAC_ONE) by (nonlinear_arith)
                requires
                    length <= u32::MAX,
            ;
        }
        self.end_point = percent_to_pos(end_point, PERCENT_100, length);
        self.has_end = true;
        self.reversed = self.start_point > self.end_point;
    }

    /// Sets both points, with the same clamps as the two setters.
    pub fn set_start_and_end_point(&mut self, start_point: i64, end_point: i64, length: usize)
        requires
            old(self).wf(),
            length <= u32::MAX,
        ensures
            final(self).wf(),
            final(self).start() == pct_pos(start_point as int, 99 * FRAC_ONE, length as nat),
            final(self).end_raw() == pct_pos(end_point as int, PERCENT_100 as int, length as nat),
            final(self).has_end(),
            final(self).is_reversed() == (final(self).start() > final(self).end_raw()),
            *final(self) == old(self).with_points(final(self).start(), final(self).end_raw()),
            final(self).base() == old(self).base(),
    {
        proof {
            assert(length * FRAC_ONE <= u32::MAX * FRAC_ONE) by (nonlinear_arith)
                requires
                    length <= u32::MAX,
            ;
        }
        self.start_point = percent_to_pos(start_point, 99 * FRAC_ONE, length);
        self.end_point = percent_to_pos(end_point, PERCENT_100, length);
        self.has_end = true;
        self.reversed = self.start_point > self.end_point;
    }

    /// The start and end points as Q16 percentages of a buffer of `length` samples;
    /// `(0, 100%)` for an empty buffer.
    pub fn get_points(&self, length: usize) -> (r: (u64, u64))
        requires
            self.wf(),
            length <= u32::MAX,
        ensures
            length == 0 ==> r == (0u64, PERCENT_100),
            length > 0 ==> r.0 == pos_pct(self.start(), length as nat) && r.1 == pos_pct(
                self.end_for(length as nat),
                length as nat,
            ),
    {
        if length == 0 {
            return (0, PERCENT_100);
        }
        let end = self.end_for_length(length);
        (pos_to_percent(self.start_point, length), pos_to_percent(end, length))
    }

    /// Sets the sustain loop's two points at Q16 percentages (each clamped to `[0, 100]`
    /// percent) of a buffer of `length` samples.
    pub fn set_sus_points(&mut self, start_point: i64, end_point: i64, length: usize)
        requires
            old(self).wf(),
            length <= u32::MAX,
        ensures
            final(self).wf(),
            final(self).sus_a() == pct_pos(start_point as int, PERCENT_100 as int, length as nat),
            final(self).sus_b() == pct_pos(end_point as int, PERCENT_100 as int, length as nat),
            *final(self) == old(self).with_sus(final(self).sus_a(), final(self).sus_b()),
            final(self).base() == old(self).base(),
    {
        proof {
            assert(length * FRAC_ONE <= u32::MAX * FRAC_ONE) by (nonlinear_arith)
                requires
                    length <= u32::MAX,
            ;
        }
        self.sus_start = percent_to_pos(start_point, PERCENT_100, length);
        self.sus_end = percent_to_pos(end_point, PERCENT_100, length);
    }

    /// The sustain loop's points as Q16 percentages of a buffer of `length` samples;
    /// `(0, 100%)` for an empty buffer.
    pub fn get_sus_points(&self, length: usize) -> (r: (u64, u64))
        requires
            self.wf(),
        ensures
            length == 0 ==> r == (0u64, PERCENT_100),
            length > 0 ==> r.0 == pos_pct(self.sus_a(), length as nat) && r.1 == pos_pct(
                self.sus_b(),
                length as nat,
            ),
    {
        if length == 0 {
            return (0, PERCENT_100);
        }
        (pos_to_percent(self.sus_start, length), pos_to_percent(self.sus_end, length))
    }

    /// Sets what happens at the sustain loop's end.
    pub fn set_sus_mode(&mut self, mode: SustainModes)
        requires
            old(self).wf(),
        ensures
            final(self).wf(),
            final(self).mode() == mode,
            *final(self) == old(self).with_mode(mode),
            final(self).base() == old(self).base(),
    {
        self.sus_mode = mode;
    }

    /// Sets the loop-seam crossfade to `fade_ms` milliseconds (negative counts as 0) at the
    /// voice's sample rate, capped at `MAX_POS`.
    pub fn set_fade_time(&mut self, fade_ms: i32)
        requires
            old(self).wf(),
        ensures
            final(self).wf(),
            final(self).fade() == clamp_int(
                crate::adsr::clamp_time(fade_ms as int) * old(self).rate() / 1000 * FRAC_ONE,
                0,
                MAX_POS as int,
            ),
            *final(self) == old(self).with_fade(final(self).fade()),
            final(self).base() == old(self).base(),
    {
        let ms: u64 = if fade_ms < 0 {
            0
        } else {
            fade_ms as u64
        };
        assert(ms * self.sample_rate <= u32::MAX * u32::MAX) by (nonlinear_arith)
            requires
                ms <= u32::MAX,
        ;
        let samples = ms * (self.sample_rate as u64) / 1000;
        assert(samples * FRAC_ONE <= u64::MAX * FRAC_ONE) by (nonlinear_arith);
        let f = (samples as u128) * (FRAC_ONE as u128);
        self.fade_len = if f > MAX_POS as u128 {
            MAX_POS
        } else {
            f as u64
        };
    }

    /// Whether the envelope is active: the signal voice allocation uses.
    pub fn is_active(&self) -> (r: bool)
        ensures
            r == (self.env().state != AdsrState::Inactive),
    {
        self.adsr.is_active()
    }

    /// The envelope's phase and level, for voice allocation.
    pub fn envelope(&self) -> (r: (AdsrState, u64))
        ensures
            r.0 == self.env().state,
            r.1 == self.env().value,
    {
        (self.adsr.get_state(), self.adsr.get_value())
    }

    /// The note last played.
    pub fn get_note(&self) -> (r: u8)
        ensures
            r == self.note(),
    {
        self.midi_note
    }

    /// The envelope's parameters as `(attack_ms, decay_ms, sustain, release_ms)`.
    pub fn get_adsr(&self) -> (r: (u32, u32, u64, u32))
        ensures
            r.0 == self.env().attack_ms,
            r.1 == self.env().decay_ms,
            r.2 == self.env().sustain,
            r.3 == self.env().release_ms,
    {
        self.adsr.get_adsr()
    }

    /// Sets the note the pitch is measured from.
    pub fn set_base_midi(&mut self, note: u8)
        requires
            old(self).wf(),
        ensures
            final(self).wf(),
            *final(self) == old(self).with_base(note),
    {
        self.base_midi = note;
    }
}

/// A start point at 80% and an end point at 20% of a non-empty buffer put the start past
/// the end, so playback is reversed.
pub proof fn lemma_start_past_end(length: nat)
    requires
        length > 0,
    ensures
        pct_pos(80 * FRAC_ONE, 99 * FRAC_ONE, length) > pct_pos(
            20 * FRAC_ONE,
            PERCENT_100 as int,
            length,
        ),
{
    let x = 20 * FRAC_ONE * length;
    assert(80 * FRAC_ONE * length == 4 * x) by (nonlinear_arith)
        requires
            x == 20 * FRAC_ONE * length,
    ;
    assert(clamp_int(80 * FRAC_ONE, 0, 99 * FRAC_ONE) == 80 * FRAC_ONE);
    assert(clamp_int(20 * FRAC_ONE, 0, PERCENT_100 as int) == 20 * FRAC_ONE);
    assert(x >= 100) by (nonlinear_arith)
        requires
            x == 20 * FRAC_ONE * length,
            length >= 1,
    ;
    vstd::arithmetic::div_mod::lemma_div_is_ordered(x + 100, 4 * x, 100);
    vstd::arithmetic::div_mod::lemma_fundamental_div_mod(x as int, 100);
    vstd::arithmetic::div_mod::lemma_fundamental_div_mod(x + 100, 100);
}

/// Reversed playback: while a reversed voice with no loop in force is active, each
/// rendered sample lowers its position by the increment; the sample whose move reaches
/// the (lower) end point is silent and leaves the voice inactive, rewound to its start.
pub proof fn lemma_reversed_playback(
    v: SamplerVoice,
    after: SamplerVoice,
    buf: RingBuffer<i32>,
    inc: int,
    r: int,
)
    requires
        v.is_reversed(),
        !v.looping(),
        v.env().state != AdsrState::Inactive,
        inc > 0,
        v.rendered(&after, buf, inc, r),
    ensures
        v.phase() > v.end_for(buf.cap()) + inc ==> after.phase() == v.phase() - inc
            && after.phase() < v.phase(),
        v.phase() <= v.end_for(buf.cap()) + inc ==> r == 0 && after.env().state
            == AdsrState::Inactive && after.phase() == v.start(),
{
}

/// Forward playback stays in its region: a voice at a position in `[start, end)` is, one
/// rendered sample later, still in `[start, end)`, having either moved on or been rewound
/// to the start.
pub proof fn lemma_forward_stays_in_region(
    v: SamplerVoice,
    after: SamplerVoice,
    buf: RingBuffer<i32>,
    inc: int,
    r: int,
)
    requires
        !v.is_reversed(),
        !v.looping(),
        inc >= 0,
        v.start() <= v.phase() < v.end_for(buf.cap()),
        v.rendered(&after, buf, inc, r),
    ensures
        after.start() <= after.phase() < after.end_for(buf.cap()),
{
}

/// A sustain loop in force keeps the position in the loop: a voice at a position in
/// `[lo, hi]` is, one rendered sample later, still in `[lo, hi]`, whether it wraps or
/// bounces.
pub proof fn lemma_loop_stays_in_span(
    v: SamplerVoice,
    after: SamplerVoice,
    buf: RingBuffer<i32>,
    inc: int,
    r: int,
)
    requires
        v.looping(),
        inc >= 0,
        v.loop_lo() <= v.phase() <= v.loop_hi(),
        v.rendered(&after, buf, inc, r),
    ensures
        after.loop_lo() <= after.phase() <= after.loop_hi(),
{
    let lo = v.loop_lo();
    let hi = v.loop_hi();
    let span = v.span();
    let pos = v.phase();
    if pos + inc >= hi {
        vstd::arithmetic::div_mod::lemma_mod_bound(pos + inc - hi, span);
    }
    if pos < lo + inc {
        vstd::arithmetic::div_mod::lemma_mod_bound(lo + inc - pos, span);
    }
}

/// A stopped voice stays silent: an inactive voice renders 0 and stays inactive, so once
/// playback passes the end of its region the voice is quiet until its next note-on.
pub proof fn lemma_inactive_stays_silent(
    v: SamplerVoice,
    after: SamplerVoice,
    buf: RingBuffer<i32>,
    inc: int,
    r: int,
)
    requires
        !v.is_active_spec(),
        v.rendered(&after, buf, inc, r),
    ensures
        r == 0,
        !after.is_active_spec(),
        after.phase() == v.start(),
{
}

} // verus!
