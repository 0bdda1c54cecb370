//! The attack-decay-sustain-release amplitude envelope of one voice.
use vstd::prelude::*;
use crate::fixed::LEVEL_ONE;

verus! {

/// The phase an envelope is in.
#[derive(PartialEq, Eq, Structural, Debug, Clone, Copy)]
pub enum AdsrState {
    Attack,
    Decay,
    Sustain,
    Release,
    Inactive,
}

/// An envelope generator producing one Q32 level per sample.
///
/// Times are whole milliseconds, the sustain level and the output are Q32 levels
/// (`LEVEL_ONE` is full level), and the per-sample steps are derived from them.
#[derive(Clone, Debug)]
pub struct ADSR {
    atk_step: u64,
    dec_step: u64,
    rel_step: u64,
    rel_from: u64,
    atk_ms: u32,
    dec_ms: u32,
    rel_ms: u32,
    sus_value: u64,
    sample_rate: u32,
    pub envelope_value: u64,
    pub state: AdsrState,
}

/// The abstract state of an envelope.
pub ghost struct AdsrModel {
    pub attack_ms: nat,
    pub decay_ms: nat,
    pub release_ms: nat,
    pub sustain: nat,
    pub sample_rate: nat,
    pub atk_step: nat,
    pub dec_step: nat,
    pub rel_step: nat,
    /// The level the current (or last) release started from.
    pub release_from: nat,
    pub value: nat,
    pub state: AdsrState,
}

/// The number of samples in `ms` milliseconds at `rate` samples per second.
pub open spec fn samples_for(ms: nat, rate: nat) -> nat {
    ms * rate / 1000
}

/// The per-sample step that covers `dist` in `n` samples, rounded up and at least 1;
/// with no samples at all the step covers full level at once.
pub open spec fn step_for(dist: nat, n: nat) -> nat {
    if n == 0 {
        LEVEL_ONE as nat
    } else if dist == 0 {
        1
    } else {
        ((dist + n - 1) as nat / n) as nat
    }
}

/// A time in milliseconds with negative values clamped to 0.
pub open spec fn clamp_time(t: int) -> nat {
    if t < 0 {
        0
    } else {
        t as nat
    }
}

/// A level with values outside `[0, LEVEL_ONE]` clamped into it.
pub open spec fn clamp_level(x: int) -> nat {
    if x < 0 {
        0
    } else if x > LEVEL_ONE {
        LEVEL_ONE as nat
    } else {
        x as nat
    }
}

impl AdsrModel {
    /// The levels lie in `[0, LEVEL_ONE]` and the times fit an `i32`.
    pub open spec fn in_range(self) -> bool {
        &&& self.sustain <= LEVEL_ONE
        &&& self.value <= LEVEL_ONE
        &&& self.release_from <= LEVEL_ONE
        &&& self.attack_ms <= i32::MAX
        &&& self.decay_ms <= i32::MAX
        &&& self.release_ms <= i32::MAX
    }

    /// The steps are the ones derived from the times and the rate: attack covers full
    /// level, decay the distance from full level to the sustain level, release the level
    /// it started from; and the levels lie in `[0, LEVEL_ONE]`.
    pub open spec fn wf(self) -> bool {
        &&& self.in_range()
        &&& self.atk_step == step_for(
            LEVEL_ONE as nat,
            samples_for(self.attack_ms, self.sample_rate),
        )
        &&& self.dec_step == step_for(
            (LEVEL_ONE - self.sustain) as nat,
            samples_for(self.decay_ms, self.sample_rate),
        )
        &&& self.rel_step == step_for(
            self.release_from,
            samples_for(self.release_ms, self.sample_rate),
        )
    }

    /// The state after one sample, and the level produced for that sample.
    pub open spec fn next(self) -> (AdsrModel, nat) {
        match self.state {
            AdsrState::Inactive => (self, 0),
            AdsrState::Attack => {
                if self.value + self.atk_step >= LEVEL_ONE {
                    let st = if self.decay_ms > 0 {
                        AdsrState::Decay
                    } else {
                        AdsrState::Sustain
                    };
                    (AdsrModel { value: LEVEL_ONE as nat, state: st, ..self }, LEVEL_ONE as nat)
                } else {
                    let v = self.value + self.atk_step;
                    (AdsrModel { value: v as nat, ..self }, v as nat)
                }
            },
            AdsrState::Decay => {
                if self.value <= self.sustain + self.dec_step {
                    (
                        AdsrModel { value: self.sustain, state: AdsrState::Sustain, ..self },
                        self.sustain,
                    )
                } else {
                    let v = self.value - self.dec_step;
                    (AdsrModel { value: v as nat, ..self }, v as nat)
                }
            },
            AdsrState::Sustain => (AdsrModel { value: self.sustain, ..self }, self.sustain),
            AdsrState::Release => {
                if self.value <= self.rel_step {
                    (AdsrModel { value: 0, state: AdsrState::Inactive, ..self }, 0)
                } else {
                    let v = self.value - self.rel_step;
                    (AdsrModel { value: v as nat, ..self }, v as nat)
                }
            },
        }
    }

    /// The state right after a note-off from an active phase: release starts from the
    /// current level, with a step that covers that level in the release time.
    pub open spec fn release(self) -> AdsrModel {
        AdsrModel {
            state: AdsrState::Release,
            release_from: self.value,
            rel_step: step_for(self.value, samples_for(self.release_ms, self.sample_rate)),
            ..self
        }
    }

    /// The state after `k` samples.
    pub open spec fn run(self, k: nat) -> AdsrModel
        decreases k,
    {
        if k == 0 {
            self
        } else {
            self.next().0.run((k - 1) as nat)
        }
    }
}

proof fn lemma_step_bounds(dist: nat, n: nat)
    requires
        dist <= LEVEL_ONE,
    ensures
        1 <= step_for(dist, n) <= LEVEL_ONE,
{
    if n > 0 && dist > 0 {
        let x = (dist + n - 1) as nat;
        assert(x <= n * dist) by (nonlinear_arith)
            requires
                x == dist + n - 1,
                n >= 1,
                dist >= 1,
        ;
        vstd::arithmetic::div_mod::lemma_div_is_ordered(x as int, (n * dist) as int, n as int);
        vstd::arithmetic::div_mod::lemma_div_by_multiple(dist as int, n as int);
        assert(n * dist == dist * n) by (nonlinear_arith);
        vstd::arithmetic::div_mod::lemma_div_is_ordered(n as int, x as int, n as int);
        vstd::arithmetic::div_mod::lemma_div_by_multiple(1, n as int);
        assert(x / n <= dist);
        assert(x / n >= 1);
    }
}

proof fn lemma_model_steps(m: AdsrModel)
    requires
        m.wf(),
    ensures
        1 <= m.atk_step <= LEVEL_ONE,
        1 <= m.dec_step <= LEVEL_ONE,
        1 <= m.rel_step <= LEVEL_ONE,
{
    lemma_step_bounds(LEVEL_ONE as nat, samples_for(m.attack_ms, m.sample_rate));
    lemma_step_bounds(
        (LEVEL_ONE - m.sustain) as nat,
        samples_for(m.decay_ms, m.sample_rate),
    );
    lemma_step_bounds(m.release_from, samples_for(m.release_ms, m.sample_rate));
}

impl View for ADSR {
    type V = AdsrModel;

    closed spec fn view(&self) -> AdsrModel {
        AdsrModel {
            attack_ms: self.atk_ms as nat,
            decay_ms: self.dec_ms as nat,
            release_ms: self.rel_ms as nat,
            sustain: self.sus_value as nat,
            sample_rate: self.sample_rate as nat,
            atk_step: self.atk_step as nat,
            dec_step: self.dec_step as nat,
            rel_step: self.rel_step as nat,
            release_from: self.rel_from as nat,
            value: self.envelope_value as nat,
            state: self.state,
        }
    }
}

impl ADSR {
    /// An inactive envelope at level 0 with the given rate and parameters, clamped as the
    /// setters clamp them.
    pub fn new(sample_rate_: u32, attack_: i32, decay_: i32, sustain_: i64, release_: i32) -> (r:
        Self)
        ensures
            r@.wf(),
            r@.state == AdsrState::Inactive,
            r@.value == 0,
            r@.sample_rate == sample_rate_,
            r@.attack_ms == clamp_time(attack_ as int),
            r@.decay_ms == clamp_time(decay_ as int),
            r@.release_ms == clamp_time(release_ as int),
            r@.sustain == clamp_level(sustain_ as int),
    {
        let mut adsr = ADSR {
            atk_step: 0,
            dec_step: 0,
            rel_step: 0,
            rel_from: 0,
            atk_ms: 0,
            dec_ms: 0,
            rel_ms: 0,
            sus_value: LEVEL_ONE,
            sample_rate: sample_rate_,
            envelope_value: 0,
            state: AdsrState::Inactive,
        };
        adsr.set_adsr(attack_, decay_, sustain_, release_);
        adsr
    }

    /// Advances the envelope by one sample and returns the level for that sample.
    #[allow(non_snake_case)]
    pub fn getNextSample(&mut self) -> (r: u64)
        requires
            old(self)@.wf(),
        ensures
            final(self)@ == old(self)@.next().0,
            r == old(self)@.next().1,
            final(self)@.wf(),
            r <= LEVEL_ONE,
    {
        proof {
            lemma_model_steps(self@);
        }
        match self.state {
            AdsrState::Inactive => 0,
            AdsrState::Attack => {
                if self.envelope_value + self.atk_step >= LEVEL_ONE {
                    self.envelope_value = LEVEL_ONE;
                    self.get_next_state();
                } else {
                    self.envelope_value = self.envelope_value + self.atk_step;
                }
                self.envelope_value
            },
            AdsrState::Decay => {
                if self.envelope_value <= self.sus_value + self.dec_step {
                    self.envelope_value = self.sus_value;
                    self.get_next_state();
                } else {
                    self.envelope_value = self.envelope_value - self.dec_step;
                }
                self.envelope_value
            },
            AdsrState::Sustain => {
                self.envelope_value = self.sus_value;
                self.sus_value
            },
            AdsrState::Release => {
                if self.envelope_value <= self.rel_step {
                    self.get_next_state();
                } else {
                    self.envelope_value = self.envelope_value - self.rel_step;
                }
                self.envelope_value
            },
        }
    }

    fn samples(&self, ms: u32) -> (r: u64)
        ensures
            r == samples_for(ms as nat, self.sample_rate as nat),
    {
        assert(ms * self.sample_rate <= u32::MAX * u32::MAX) by (nonlinear_arith);
        (ms as u64) * (self.sample_rate as u64) / 1000
    }

    fn get_step(distance: u64, n: u64) -> (r: u64)
        requires
            distance <= LEVEL_ONE,
        ensures
            r == step_for(distance as nat, n as nat),
            1 <= r <= LEVEL_ONE,
    {
        if n == 0 {
            LEVEL_ONE
        } else if distance == 0 {
            1
        } else {
            let s = ((distance as u128 + n as u128 - 1) / n as u128) as u64;
            proof {
                lemma_step_bounds(distance as nat, n as nat);
            }
            s
        }
    }

    fn recompute_steps(&mut self)
        requires
            old(self)@.in_range(),
        ensures
            final(self)@.wf(),
            final(self)@ == (AdsrModel {
                atk_step: final(self)@.atk_step,
                dec_step: final(self)@.dec_step,
                rel_step: final(self)@.rel_step,
                ..old(self)@
            }),
    {
        self.atk_step = Self::get_step(LEVEL_ONE, self.samples(self.atk_ms));
        self.dec_step = Self::get_step(LEVEL_ONE - self.sus_value, self.samples(self.dec_ms));
        self.rel_step = Self::get_step(self.rel_from, self.samples(self.rel_ms));
    }

    /// Sets the attack time in milliseconds; negative times count as 0.
    pub fn set_attack(&mut self, attack_: i32)
        requires
            old(self)@.wf(),
        ensures
            final(self)@.wf(),
            final(self)@ == (AdsrModel {
                attack_ms: clamp_time(attack_ as int),
                atk_step: final(self)@.atk_step,
                ..old(self)@
            }),
    {
        self.atk_ms = if attack_ < 0 {
            0
        } else {
            attack_ as u32
        };
        self.recompute_steps();
    }

    /// Sets the decay time in milliseconds; negative times count as 0.
    pub fn set_decay(&mut self, decay_: i32)
        requires
            old(self)@.wf(),
        ensures
            final(self)@.wf(),
            final(self)@ == (AdsrModel {
                decay_ms: clamp_time(decay_ as int),
                dec_step: final(self)@.dec_step,
                ..old(self)@
            }),
    {
        self.dec_ms = if decay_ < 0 {
            0
        } else {
            decay_ as u32
        };
        self.recompute_steps();
    }

    /// Sets the sustain level, clamped to `[0, LEVEL_ONE]`; the decay step follows it.
    pub fn set_sustain(&mut self, sustain_: i64)
        requires
            old(self)@.wf(),
        ensures
            final(self)@.wf(),
            final(self)@ == (AdsrModel {
                sustain: clamp_level(sustain_ as int),
                dec_step: final(self)@.dec_step,
                rel_step: final(self)@.rel_step,
                ..old(self)@
            }),
    {
        self.sus_value = iclamp(sustain_, 0, LEVEL_ONE as i64) as u64;
        self.recompute_steps();
    }

    /// Sets the release time in milliseconds; negative times count as 0.
    pub fn set_release(&mut self, release_: i32)
        requires
            old(self)@.wf(),
        ensures
            final(self)@.wf(),
            final(self)@ == (AdsrModel {
                release_ms: clamp_time(release_ as int),
                rel_step: final(self)@.rel_step,
                ..old(self)@
            }),
    {
        self.rel_ms = if release_ < 0 {
            0
        } else {
            release_ as u32
        };
        self.recompute_steps();
    }

    /// Sets all four parameters; the level and the phase do not change.
    pub fn set_adsr(&mut self, attack_: i32, decay_: i32, sustain_: i64, release_: i32)
        requires
            old(self)@.in_range(),
        ensures
            final(self)@.wf(),
            final(self)@.attack_ms == clamp_time(attack_ as int),
            final(self)@.decay_ms == clamp_time(decay_ as int),
            final(self)@.release_ms == clamp_time(release_ as int),
            final(self)@.sustain == clamp_level(sustain_ as int),
            final(self)@.sample_rate == old(self)@.sample_rate,
            final(self)@.value == old(self)@.value,
            final(self)@.state == old(self)@.state,
    {
        self.recompute_steps();
        self.set_sustain(sustain_);
        self.set_attack(attack_);
        self.set_decay(decay_);
        self.set_release(release_);
    }

    /// The parameters as `(attack_ms, decay_ms, sustain, release_ms)`.
    pub fn get_adsr(&self) -> (r: (u32, u32, u64, u32))
        ensures
            r.0 == self@.attack_ms,
            r.1 == self@.decay_ms,
            r.2 == self@.sustain,
            r.3 == self@.release_ms,
    {
        (self.atk_ms, self.dec_ms, self.sus_value, self.rel_ms)
    }

    /// The current phase.
    pub fn get_state(&self) -> (r: AdsrState)
        ensures
            r == self@.state,
    {
        self.state
    }

    /// The current level.
    pub fn get_value(&self) -> (r: u64)
        ensures
            r == self@.value,
    {
        self.envelope_value
    }

    /// Starts the attack phase from the current level.
    pub fn note_on(&mut self)
        ensures
            final(self)@ == (AdsrModel { state: AdsrState::Attack, ..old(self)@ }),
    {
        self.state = AdsrState::Attack;
    }

    /// Moves an active envelope to its release phase from the current level, with a step
    /// that brings that level to 0 in the release time; an inactive one stays inactive.
    pub fn note_off(&mut self)
        requires
            old(self)@.wf(),
        ensures
            final(self)@.wf(),
            old(self)@.state == AdsrState::Inactive ==> final(self)@ == old(self)@,
            old(self)@.state != AdsrState::Inactive ==> final(self)@ == old(self)@.release(),
    {
        if self.state != AdsrState::Inactive {
            self.state = AdsrState::Release;
            self.rel_from = self.envelope_value;
            self.rel_step = Self::get_step(self.envelope_value, self.samples(self.rel_ms));
        }
    }

    /// Whether the envelope is in any phase but `Inactive`.
    pub fn is_active(&self) -> (r: bool)
        ensures
            r == (self@.state != AdsrState::Inactive),
    {
        self.state != AdsrState::Inactive
    }

    fn get_next_state(&mut self)
        ensures
            old(self)@.state == AdsrState::Attack ==> final(self)@ == (AdsrModel {
                state: if old(self)@.decay_ms > 0 {
                    AdsrState::Decay
                } else {
                    AdsrState::Sustain
                },
                ..old(self)@
            }),
            old(self)@.state == AdsrState::Decay ==> final(self)@ == (AdsrModel {
                state: AdsrState::Sustain,
                ..old(self)@
            }),
            old(self)@.state == AdsrState::Sustain ==> final(self)@ == (AdsrModel {
                state: AdsrState::Release,
                ..old(self)@
            }),
            old(self)@.state == AdsrState::Release ==> final(self)@ == (AdsrModel {
                state: AdsrState::Inactive,
                value: 0,
                ..old(self)@
            }),
            old(self)@.state == AdsrState::Inactive ==> final(self)@ == old(self)@,
    {
        match self.state {
            AdsrState::Inactive => {},
            AdsrState::Attack => {
                if self.dec_ms > 0 {
                    self.state = AdsrState::Decay;
                } else {
                    self.state = AdsrState::Sustain;
                }
            },
            AdsrState::Decay => {
                self.state = AdsrState::Sustain;
            },
            AdsrState::Sustain => {
                self.state = AdsrState::Release;
            },
            AdsrState::Release => {
                self.reset();
            },
        }
    }

    /// Stops the envelope: inactive, at level 0.
    pub fn reset(&mut self)
        ensures
            final(self)@ == (AdsrModel { state: AdsrState::Inactive, value: 0, ..old(self)@ }),
    {
        self.state = AdsrState::Inactive;
        self.envelope_value = 0;
    }
}

/// `x` clamped to `[min_val, max_val]`.
pub fn iclamp(x: i64, min_val: i64, max_val: i64) -> (r: i64)
    requires
        min_val <= max_val,
    ensures
        r == if x < min_val {
            min_val
        } else if x > max_val {
            max_val
        } else {
            x
        },
{
    if x < min_val {
        min_val
    } else if x > max_val {
        max_val
    } else {
        x
    }
}

/// Running `k + 1` samples is running `k` samples and then one more.
pub proof fn lemma_run_succ(m: AdsrModel, k: nat)
    ensures
        m.run(k + 1) == m.run(k).next().0,
    decreases k,
{
    if k > 0 {
        let j = (k - 1) as nat;
        lemma_run_succ(m.next().0, j);
        assert(m.run(k + 1) == m.next().0.run(k));
        assert(m.run(k) == m.next().0.run(j));
        assert(j + 1 == k);
    }
}

proof fn lemma_mul_succ(k: nat, step: nat)
    ensures
        (k + 1) * step == k * step + step,
{
    assert((k + 1) * step == k * step + step) by (nonlinear_arith);
}

/// The step derived for `n > 0` samples covers its distance within those `n` samples.
pub proof fn lemma_step_covers(dist: nat, n: nat)
    requires
        n > 0,
    ensures
        n * step_for(dist, n) >= dist,
{
    if dist > 0 {
        let x = (dist + n - 1) as int;
        let q = x / (n as int);
        let r = x % (n as int);
        vstd::arithmetic::div_mod::lemma_fundamental_div_mod(x, n as int);
        assert(step_for(dist, n) == q);
        assert(n * q >= dist) by (nonlinear_arith)
            requires
                x == n * q + r,
                r < n,
                x == dist + n - 1,
        ;
    }
}

/// Attack rises linearly: while the level stays under full level, each sample adds the
/// attack step.
pub proof fn lemma_attack_ramp(m: AdsrModel, k: nat)
    requires
        m.wf(),
        m.state == AdsrState::Attack,
        m.value + k * m.atk_step < LEVEL_ONE,
    ensures
        m.run(k) == (AdsrModel { value: (m.value + k * m.atk_step) as nat, ..m }),
    decreases k,
{
    if k > 0 {
        let j = (k - 1) as nat;
        assert(k == j + 1);
        lemma_mul_succ(j, m.atk_step);
        lemma_attack_ramp(m, j);
        lemma_run_succ(m, j);
    } else {
        assert(k * m.atk_step == 0) by (nonlinear_arith)
            requires
                k == 0,
        ;
    }
}

/// The attack sample that reaches full level clamps to it and moves on to decay, or to
/// sustain when the decay time is 0.
pub proof fn lemma_attack_peak(m: AdsrModel, k: nat)
    requires
        m.wf(),
        m.state == AdsrState::Attack,
        k >= 1,
        m.value + (k - 1) * m.atk_step < LEVEL_ONE <= m.value + k * m.atk_step,
    ensures
        m.run(k) == (AdsrModel {
            value: LEVEL_ONE as nat,
            state: if m.decay_ms > 0 {
                AdsrState::Decay
            } else {
                AdsrState::Sustain
            },
            ..m
        }),
{
    let j = (k - 1) as nat;
    assert(k == j + 1);
    lemma_mul_succ(j, m.atk_step);
    lemma_attack_ramp(m, j);
    lemma_run_succ(m, j);
}

/// Decay falls linearly: while the level stays above the sustain level by more than a
/// step, each sample subtracts the decay step.
pub proof fn lemma_decay_ramp(m: AdsrModel, k: nat)
    requires
        m.wf(),
        m.state == AdsrState::Decay,
        m.value > m.sustain + k * m.dec_step,
    ensures
        m.run(k) == (AdsrModel { value: (m.value - k * m.dec_step) as nat, ..m }),
    decreases k,
{
    if k > 0 {
        let j = (k - 1) as nat;
        assert(k == j + 1);
        lemma_mul_succ(j, m.dec_step);
        lemma_decay_ramp(m, j);
        lemma_run_succ(m, j);
        lemma_model_steps(m);
    } else {
        assert(k * m.dec_step == 0) by (nonlinear_arith)
            requires
                k == 0,
        ;
    }
}

/// The decay sample that reaches the sustain level clamps to it and moves on to sustain.
pub proof fn lemma_decay_floor(m: AdsrModel, k: nat)
    requires
        m.wf(),
        m.state == AdsrState::Decay,
        k >= 1,
        m.sustain + (k - 1) * m.dec_step < m.value <= m.sustain + k * m.dec_step,
    ensures
        m.run(k) == (AdsrModel { value: m.sustain, state: AdsrState::Sustain, ..m }),
{
    let j = (k - 1) as nat;
    assert(k == j + 1);
    lemma_mul_succ(j, m.dec_step);
    lemma_decay_ramp(m, j);
    lemma_run_succ(m, j);
}

/// Sustain holds the sustain level for as long as no note-off comes.
pub proof fn lemma_sustain_hold(m: AdsrModel, k: nat)
    requires
        m.state == AdsrState::Sustain,
        m.value == m.sustain,
    ensures
        m.run(k) == m,
    decreases k,
{
    if k > 0 {
        lemma_sustain_hold(m, (k - 1) as nat);
        lemma_run_succ(m, (k - 1) as nat);
    }
}

/// Release falls linearly from the level it started at: while the level stays above
/// 0 by more than a step, each sample subtracts the release step.
pub proof fn lemma_release_ramp(m: AdsrModel, k: nat)
    requires
        m.wf(),
        m.state == AdsrState::Release,
        m.value > k * m.rel_step,
    ensures
        m.run(k) == (AdsrModel { value: (m.value - k * m.rel_step) as nat, ..m }),
    decreases k,
{
    if k > 0 {
        let j = (k - 1) as nat;
        assert(k == j + 1);
        lemma_mul_succ(j, m.rel_step);
        lemma_release_ramp(m, j);
        lemma_run_succ(m, j);
    } else {
        assert(k * m.rel_step == 0) by (nonlinear_arith)
            requires
                k == 0,
        ;
    }
}

/// The release sample that reaches 0 stops the envelope: inactive, at level 0.
pub proof fn lemma_release_end(m: AdsrModel, k: nat)
    requires
        m.wf(),
        m.state == AdsrState::Release,
        k >= 1,
        (k - 1) * m.rel_step < m.value <= k * m.rel_step,
    ensures
        m.run(k) == (AdsrModel { value: 0, state: AdsrState::Inactive, ..m }),
{
    let j = (k - 1) as nat;
    assert(k == j + 1);
    lemma_mul_succ(j, m.rel_step);
    lemma_release_ramp(m, j);
    lemma_run_succ(m, j);
}

/// The number of steps of size `step` that cover `dist`: `dist / step` rounded up.
pub open spec fn cover(dist: nat, step: nat) -> nat {
    ((dist + step - 1) as nat / step) as nat
}

proof fn lemma_cover(dist: nat, step: nat)
    requires
        dist >= 1,
        step >= 1,
    ensures
        cover(dist, step) >= 1,
        (cover(dist, step) - 1) * step < dist <= cover(dist, step) * step,
{
    let x = (dist + step - 1) as int;
    let c = x / (step as int);
    vstd::arithmetic::div_mod::lemma_fundamental_div_mod(x, step as int);
    assert(c * step <= x < c * step + step) by (nonlinear_arith)
        requires
            x == step * c + x % (step as int),
            0 <= x % (step as int) < step,
    ;
    assert((c - 1) * step == c * step - step) by (nonlinear_arith);
    assert(c >= 1) by (nonlinear_arith)
        requires
            x < c * step + step,
            x >= step,
            step >= 1,
    ;
    assert(cover(dist, step) == c);
}

/// Within the `n > 0` samples a phase lasts, its steps cover `dist` at most `n` steps.
proof fn lemma_cover_within(dist: nat, n: nat)
    requires
        n > 0,
        dist >= 1,
        dist <= LEVEL_ONE,
    ensures
        cover(dist, step_for(dist, n)) <= n,
{
    let step = step_for(dist, n);
    lemma_step_bounds(dist, n);
    lemma_step_covers(dist, n);
    lemma_cover(dist, step);
    let c = cover(dist, step);
    assert(c <= n) by (nonlinear_arith)
        requires
            (c - 1) * step < dist,
            dist <= n * step,
            step >= 1,
    ;
}

/// Running `a + b` samples is running `a` samples and then `b` more.
pub proof fn lemma_run_add(m: AdsrModel, a: nat, b: nat)
    ensures
        m.run(a + b) == m.run(a).run(b),
    decreases b,
{
    if b > 0 {
        let c = (b - 1) as nat;
        lemma_run_add(m, a, c);
        lemma_run_succ(m, a + c);
        lemma_run_succ(m.run(a), c);
        assert(a + c + 1 == a + b);
    }
}

/// The envelope of a note from rest. Attack rises by the attack step each sample and
/// reaches full level after `cover(LEVEL_ONE, atk_step)` samples, no more than the attack
/// time holds; decay falls by the decay step each sample and reaches the sustain level
/// `cover(LEVEL_ONE - sustain, dec_step)` samples later, no more than the decay time
/// holds; the level then stays at the sustain level for as long as the note is held.
pub proof fn lemma_note_envelope(m: AdsrModel, hold: nat)
    requires
        m.wf(),
        m.state == AdsrState::Attack,
        m.value == 0,
        m.decay_ms > 0,
        m.sustain < LEVEL_ONE,
    ensures
        ({
            let na = cover(LEVEL_ONE as nat, m.atk_step);
            let nd = cover((LEVEL_ONE - m.sustain) as nat, m.dec_step);
            &&& forall|j: nat|
                j < na ==> #[trigger] m.run(j) == (AdsrModel { value: j * m.atk_step, ..m })
            &&& m.run(na) == (AdsrModel {
                value: LEVEL_ONE as nat,
                state: AdsrState::Decay,
                ..m
            })
            &&& forall|j: nat|
                j < nd ==> #[trigger] m.run(na + j) == (AdsrModel {
                    value: (LEVEL_ONE - j * m.dec_step) as nat,
                    state: AdsrState::Decay,
                    ..m
                })
            &&& m.run(na + nd + hold) == (AdsrModel {
                value: m.sustain,
                state: AdsrState::Sustain,
                ..m
            })
            &&& samples_for(m.attack_ms, m.sample_rate) > 0 ==> na <= samples_for(
                m.attack_ms,
                m.sample_rate,
            )
            &&& samples_for(m.decay_ms, m.sample_rate) > 0 ==> nd <= samples_for(
                m.decay_ms,
                m.sample_rate,
            )
        }),
{
    lemma_model_steps(m);
    let na = cover(LEVEL_ONE as nat, m.atk_step);
    let nd = cover((LEVEL_ONE - m.sustain) as nat, m.dec_step);
    lemma_cover(LEVEL_ONE as nat, m.atk_step);
    lemma_cover((LEVEL_ONE - m.sustain) as nat, m.dec_step);
    assert forall|j: nat| j < na implies #[trigger] m.run(j) == (AdsrModel {
        value: j * m.atk_step,
        ..m
    }) by {
        assert(j * m.atk_step <= (na - 1) * m.atk_step) by (nonlinear_arith)
            requires
                j <= na - 1,
        ;
        lemma_attack_ramp(m, j);
    }
    lemma_attack_peak(m, na);
    let p = m.run(na);
    assert forall|j: nat| j < nd implies #[trigger] m.run(na + j) == (AdsrModel {
        value: (LEVEL_ONE - j * m.dec_step) as nat,
        state: AdsrState::Decay,
        ..m
    }) by {
        assert(j * m.dec_step <= (nd - 1) * m.dec_step) by (nonlinear_arith)
            requires
                j <= nd - 1,
        ;
        lemma_run_add(m, na, j);
        lemma_decay_ramp(p, j);
    }
    lemma_run_add(m, na, nd);
    lemma_decay_floor(p, nd);
    let q = m.run(na + nd);
    lemma_run_add(m, na + nd, hold);
    lemma_sustain_hold(q, hold);
    if samples_for(m.attack_ms, m.sample_rate) > 0 {
        lemma_cover_within(LEVEL_ONE as nat, samples_for(m.attack_ms, m.sample_rate));
    }
    if samples_for(m.decay_ms, m.sample_rate) > 0 {
        lemma_cover_within(
            (LEVEL_ONE - m.sustain) as nat,
            samples_for(m.decay_ms, m.sample_rate),
        );
    }
}

/// Release from whatever level the note-off found: the level falls by the release step
/// each sample and reaches 0, leaving the envelope inactive, after `cover(level,
/// rel_step)` samples, which is no more than the release time holds.
pub proof fn lemma_release_to_silence(m: AdsrModel)
    requires
        m.wf(),
        m.state == AdsrState::Release,
        m.value == m.release_from,
        m.value > 0,
    ensures
        ({
            let nr = cover(m.value, m.rel_step);
            &&& forall|j: nat|
                j < nr ==> #[trigger] m.run(j) == (AdsrModel {
                    value: (m.value - j * m.rel_step) as nat,
                    ..m
                })
            &&& m.run(nr) == (AdsrModel { value: 0, state: AdsrState::Inactive, ..m })
            &&& samples_for(m.release_ms, m.sample_rate) > 0 ==> nr <= samples_for(
                m.release_ms,
                m.sample_rate,
            )
            &&& samples_for(m.release_ms, m.sample_rate) == 0 ==> nr == 1
        }),
{
    lemma_model_steps(m);
    let nr = cover(m.value, m.rel_step);
    lemma_cover(m.value, m.rel_step);
    assert forall|j: nat| j < nr implies #[trigger] m.run(j) == (AdsrModel {
        value: (m.value - j * m.rel_step) as nat,
        ..m
    }) by {
        assert(j * m.rel_step <= (nr - 1) * m.rel_step) by (nonlinear_arith)
            requires
                j <= nr - 1,
        ;
        lemma_release_ramp(m, j);
    }
    lemma_release_end(m, nr);
    if samples_for(m.release_ms, m.sample_rate) > 0 {
        lemma_cover_within(m.value, samples_for(m.release_ms, m.sample_rate));
    } else {
        let step = m.rel_step;
        assert(nr <= 1) by (nonlinear_arith)
            requires
                (nr - 1) * step < m.value,
                m.value <= step,
                nr >= 1,
        ;
    }
}

/// A note-off ends the envelope within the release time, whatever level and phase it
/// finds: release falls linearly from that level and reaches 0, inactive, after at most
/// `samples_for(release_ms, sample_rate)` samples (one sample when that is 0).
pub proof fn lemma_note_off_reaches_silence(m: AdsrModel)
    requires
        m.wf(),
        m.state != AdsrState::Inactive,
        m.value > 0,
    ensures
        ({
            let r = m.release();
            let nr = cover(m.value, r.rel_step);
            &&& r.wf()
            &&& forall|j: nat|
                j < nr ==> #[trigger] r.run(j) == (AdsrModel {
                    value: (m.value - j * r.rel_step) as nat,
                    ..r
                })
            &&& r.run(nr) == (AdsrModel { value: 0, state: AdsrState::Inactive, ..r })
            &&& nr <= if samples_for(m.release_ms, m.sample_rate) > 0 {
                samples_for(m.release_ms, m.sample_rate)
            } else {
                1
            }
        }),
{
    lemma_release_to_silence(m.release());
}

} // verus!
