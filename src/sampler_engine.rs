//! The polyphonic engine: a pool of pitch-shifted voices over one shared buffer (warp
//! mode), or one buffer and voice per assigned note (assign mode).
use vstd::prelude::*;
use crate::adsr::AdsrState;
use crate::fixed::{FRAC_ONE, LEVEL_ONE, MAX_POS, PERCENT_100, SAMPLE_ONE};
use crate::ring_buffer::RingBuffer;
use crate::sampler_voice::{
    SamplerVoice, SustainModes, assign_increment, clamp_int, pct_pos, pos_pct, warp_increment,
};

verus! {

/// How notes are turned into sound.
#[derive(PartialEq, Eq, Structural, Debug, Clone, Copy)]
pub enum SamplerMode {
    /// One loaded sample, pitch-shifted per note across a pool of voices.
    Warp,
    /// One sample and one voice per assigned note, played at its own pitch.
    Assign,
    /// Instrument files: not supported yet.
    Sfz,
}

/// What an engine operation can fail with.
#[derive(PartialEq, Eq, Structural, Debug, Clone, Copy)]
pub enum SamplerError {
    /// The engine is in `Sfz` mode, which has no implementation.
    SfzUnsupported,
    /// No sound is assigned to the note.
    NotAssigned,
    /// Integer samples of this bit depth cannot be read.
    UnsupportedBitDepth,
    /// The waveform has more samples than a buffer can hold (`u32::MAX`).
    TooLong,
}

/// A sound assigned to one note: where it came from, its sample-rate ratio (Q16), its
/// buffer and the voice that plays it.
pub struct BankEntry {
    pub file_path: String,
    pub sr_scalar: u64,
    pub buffer: RingBuffer<i32>,
    pub voice: SamplerVoice,
}

/// Number of notes a sound can be assigned to.
pub const NUM_NOTES: usize = 256;

/// The engine: its mode, the paths loaded so far, the warp buffer and voice pool, the
/// sound bank, and the rates that relate the warp sample to the output.
pub struct SamplerEngine {
    num_voices: u8,
    sound_bank: Vec<Option<BankEntry>>,
    file_names: Vec<String>,
    warp_buffer: RingBuffer<i32>,
    sampler_mode: SamplerMode,
    warp_voices: Vec<SamplerVoice>,
    sample_rate: u32,
    num_channels: usize,
    warp_sr_scalar: u64,
}

/// A buffer a voice can read: well formed, with between 1 and `u32::MAX` slots.
pub open spec fn buffer_ok(b: RingBuffer<i32>) -> bool {
    b.wf() && 1 <= b.cap() <= u32::MAX
}

/// The sum of what the warp voices render over `buf` at the Q16 rate ratio `ratio`.
pub open spec fn warp_mix(vs: Seq<SamplerVoice>, buf: RingBuffer<i32>, ratio: int) -> int
    decreases vs.len(),
{
    if vs.len() == 0 {
        0
    } else {
        let v = vs.last();
        warp_mix(vs.drop_last(), buf, ratio) + v.output(buf, warp_increment(v.step(), ratio))
    }
}

/// What the voice of an entry renders from its own buffer; 0 for an empty slot.
pub open spec fn entry_output(e: Option<BankEntry>) -> int {
    match e {
        None => 0,
        Some(e) => e.voice.output(e.buffer, assign_increment(e.sr_scalar as int)),
    }
}

/// The sum of what the assigned voices render.
pub open spec fn assign_mix(bank: Seq<Option<BankEntry>>) -> int
    decreases bank.len(),
{
    if bank.len() == 0 {
        0
    } else {
        assign_mix(bank.drop_last()) + entry_output(bank.last())
    }
}

/// The entry's voice rendered one sample in assign mode, going from `e` to `f`.
pub open spec fn entry_rendered(e: Option<BankEntry>, f: Option<BankEntry>) -> bool {
    match e {
        None => f is None,
        Some(e) => f matches Some(f) && f.file_path == e.file_path && f.sr_scalar == e.sr_scalar
            && f.buffer == e.buffer && e.voice.rendered(
            &f.voice,
            e.buffer,
            assign_increment(e.sr_scalar as int),
            entry_output(Some(e)),
        ),
    }
}

/// An entry whose voice is well formed and belongs to note `n`, over a readable buffer.
pub open spec fn entry_ok(e: Option<BankEntry>, n: int) -> bool {
    match e {
        None => true,
        Some(e) => buffer_ok(e.buffer) && e.voice.wf() && e.voice.base() == n,
    }
}

/// `b` equals `a` at every index but `k`.
pub open spec fn same_except<T>(a: Seq<T>, b: Seq<T>, k: int) -> bool {
    forall|m: int| 0 <= m < a.len() && m != k ==> #[trigger] b[m] == a[m]
}

/// The voice is in its release phase.
pub open spec fn releasing(v: SamplerVoice) -> bool {
    v.env().state == AdsrState::Release
}

/// The envelope level of a voice.
pub open spec fn level(v: SamplerVoice) -> nat {
    v.env().value
}

/// `id` is the quietest voice among those that satisfy `pick`, the first such on a tie.
pub open spec fn quietest(vs: Seq<SamplerVoice>, id: int, pick: spec_fn(SamplerVoice) -> bool) -> bool {
    &&& 0 <= id < vs.len()
    &&& pick(vs[id])
    &&& forall|j: int| 0 <= j < vs.len() && #[trigger] pick(vs[j]) ==> level(vs[id]) <= level(vs[j])
    &&& forall|j: int| 0 <= j < id && #[trigger] pick(vs[j]) ==> level(vs[id]) < level(vs[j])
}

/// The voice a new note takes: the first inactive voice; failing that the quietest voice
/// in release; failing that the quietest voice of all.
pub open spec fn steal_choice(vs: Seq<SamplerVoice>, id: int) -> bool {
    if exists|i: int| 0 <= i < vs.len() && !(#[trigger] vs[i]).is_active_spec() {
        &&& 0 <= id < vs.len()
        &&& !vs[id].is_active_spec()
        &&& forall|j: int| 0 <= j < id ==> (#[trigger] vs[j]).is_active_spec()
    } else if exists|i: int| 0 <= i < vs.len() && releasing(#[trigger] vs[i]) {
        quietest(vs, id, |v: SamplerVoice| releasing(v))
    } else {
        quietest(vs, id, |v: SamplerVoice| true)
    }
}

/// The voice holds `note`: it plays that note and is active but not yet released.
pub open spec fn holds(v: SamplerVoice, note: u8) -> bool {
    v.note() == note && v.is_active_spec() && !releasing(v)
}

/// The entry went from `e` to `f` by changing its voice alone, as `change` says.
pub open spec fn entry_changed(
    e: Option<BankEntry>,
    f: Option<BankEntry>,
    change: spec_fn(SamplerVoice, SamplerVoice) -> bool,
) -> bool {
    match e {
        None => f is None,
        Some(e) => f matches Some(f) && f.file_path == e.file_path && f.sr_scalar == e.sr_scalar
            && f.buffer == e.buffer && change(e.voice, f.voice),
    }
}

/// The divisor that maps an integer sample of `bits` bits to full scale, if that depth
/// can be read.
pub open spec fn depth_divisor(bits: u16) -> Option<int> {
    if bits == 8 {
        Some(127)
    } else if bits == 16 {
        Some(32767)
    } else if bits == 24 {
        Some(8388608)
    } else {
        None
    }
}

/// `x` limited to the range of an `i32`.
pub open spec fn saturate_i32(x: int) -> int {
    if x > i32::MAX {
        i32::MAX as int
    } else if x < i32::MIN {
        i32::MIN as int
    } else {
        x
    }
}

/// The integer sample `value` of `bits` bits rescaled so that full scale is `SAMPLE_ONE`,
/// rounded toward zero and limited to the range of an `i32`.
pub open spec fn decoded(value: int, d: int) -> int {
    saturate_i32(
        if value >= 0 {
            value * SAMPLE_ONE / d
        } else {
            -((-value) * SAMPLE_ONE / d)
        },
    )
}

/// What a buffer holds after `samples` were loaded into it: the samples, or one silent
/// slot when there are none.
pub open spec fn loaded(samples: Seq<i32>) -> Seq<i32> {
    if samples.len() == 0 {
        seq![0i32]
    } else {
        samples
    }
}

/// The Q16 ratio of a file's sample rate to the engine's.
pub open spec fn rate_ratio(file_rate: int, engine_rate: int) -> int {
    file_rate * FRAC_ONE / engine_rate
}

/// Every voice of the pool went from `old[i]` to `new[i]` as `change` says.
pub open spec fn pool_updated(
    old: Seq<SamplerVoice>,
    new: Seq<SamplerVoice>,
    change: spec_fn(SamplerVoice, SamplerVoice) -> bool,
) -> bool {
    &&& new.len() == old.len()
    &&& forall|i: int| 0 <= i < old.len() ==> #[trigger] change(old[i], new[i])
}

/// The bank changed at `note` alone, as `change` says of its voice, and `r` tells whether
/// a sound was assigned there: an unassigned note changes nothing.
pub open spec fn bank_updated(
    old: Seq<Option<BankEntry>>,
    new: Seq<Option<BankEntry>>,
    note: u8,
    change: spec_fn(SamplerVoice, SamplerVoice) -> bool,
    r: Result<(), SamplerError>,
) -> bool {
    &&& new.len() == NUM_NOTES
    &&& entry_changed(old[note as int], new[note as int], change)
    &&& same_except(old, new, note as int)
    &&& r == if old[note as int] is Some {
        Ok::<(), SamplerError>(())
    } else {
        Err::<(), SamplerError>(SamplerError::NotAssigned)
    }
}

/// The length of the buffer assigned to `note`, 0 when none is.
pub open spec fn bank_len(bank: Seq<Option<BankEntry>>, note: u8) -> nat {
    match bank[note as int] {
        Some(e) => e.buffer.cap(),
        None => 0,
    }
}

/// The envelope parameters reported when there is no voice to ask.
pub open spec fn default_adsr() -> (u32, u32, u64, u32) {
    (100, 100, LEVEL_ONE, 100)
}

impl SamplerEngine {
    /// Everything but the voices and the bank is equal.
    pub open spec fn same_config(&self, other: &SamplerEngine) -> bool {
        &&& self.mode() == other.mode()
        &&& self.paths() == other.paths()
        &&& self.warp_buf() == other.warp_buf()
        &&& self.ratio() == other.ratio()
        &&& self.rate() == other.rate()
        &&& self.channels() == other.channels()
    }

    pub closed spec fn voices(&self) -> Seq<SamplerVoice> {
        self.warp_voices@
    }

    pub closed spec fn bank(&self) -> Seq<Option<BankEntry>> {
        self.sound_bank@
    }

    /// The paths recorded so far, in order.
    pub closed spec fn paths(&self) -> Seq<Seq<char>> {
        self.file_names@.map_values(|s: String| s@)
    }

    pub closed spec fn warp_buf(&self) -> RingBuffer<i32> {
        self.warp_buffer
    }

    pub closed spec fn mode(&self) -> SamplerMode {
        self.sampler_mode
    }

    /// The engine's sample rate in Hz.
    pub closed spec fn rate(&self) -> nat {
        self.sample_rate as nat
    }

    /// The Q16 ratio of the warp sample's rate to the engine's.
    pub closed spec fn ratio(&self) -> int {
        self.warp_sr_scalar as int
    }

    pub closed spec fn channels(&self) -> nat {
        self.num_channels as nat
    }

    /// The buffers are readable, every voice is well formed, the pool holds at most 255
    /// voices, and the bank has one slot per note whose voice belongs to that note.
    pub open spec fn wf(&self) -> bool {
        &&& self.rate() > 0
        &&& buffer_ok(self.warp_buf())
        &&& self.voices().len() <= 255
        &&& forall|i: int| 0 <= i < self.voices().len() ==> (#[trigger] self.voices()[i]).wf()
        &&& self.bank().len() == NUM_NOTES
        &&& forall|n: int| 0 <= n < NUM_NOTES ==> entry_ok(#[trigger] self.bank()[n], n)
    }
}

impl SamplerEngine {
    /// An engine in warp mode with six inactive voices based at note 64, a one-slot warp
    /// buffer, a rate ratio of 1, no paths and an empty bank.
    pub fn new(sample_rate_: u32, num_channels_: usize) -> (r: Self)
        requires
            sample_rate_ > 0,
        ensures
            r.wf(),
            r.mode() == SamplerMode::Warp,
            r.rate() == sample_rate_,
            r.channels() == num_channels_,
            r.ratio() == FRAC_ONE,
            r.warp_buf().cap() == 1,
            r.paths().len() == 0,
            r.voices().len() == 6,
            forall|i: int| 0 <= i < 6 ==> (#[trigger] r.voices()[i]).is_fresh(64, sample_rate_),
            forall|n: int| 0 <= n < NUM_NOTES ==> #[trigger] r.bank()[n] is None,
    {
        let mut voices_: Vec<SamplerVoice> = Vec::new();
        let mut i: usize = 0;
        while i < 6
            invariant
                i <= 6,
                voices_@.len() == i,
                forall|j: int|
                    0 <= j < i ==> (#[trigger] voices_@[j]).wf() && voices_@[j].is_fresh(
                        64,
                        sample_rate_,
                    ),
            decreases 6 - i,
        {
            voices_.push(SamplerVoice::new(num_channels_, 64, sample_rate_));
            i = i + 1;
        }
        let mut bank: Vec<Option<BankEntry>> = Vec::new();
        let mut n: usize = 0;
        while n < NUM_NOTES
            invariant
                n <= NUM_NOTES,
                bank@.len() == n,
                forall|j: int| 0 <= j < n ==> #[trigger] bank@[j] is None,
            decreases NUM_NOTES - n,
        {
            bank.push(None);
            n = n + 1;
        }
        let buff = RingBuffer::<i32>::new(1);
        SamplerEngine {
            num_voices: 6,
            sound_bank: bank,
            file_names: Vec::new(),
            warp_buffer: buff,
            sampler_mode: SamplerMode::Warp,
            warp_voices: voices_,
            sample_rate: sample_rate_,
            num_channels: num_channels_,
            warp_sr_scalar: FRAC_ONE,
        }
    }

    /// Renders one output sample: the unscaled sum of what every voice of the current
    /// mode renders. `Sfz` mode is not supported and changes nothing.
    pub fn process(&mut self) -> (r: Result<i64, SamplerError>)
        requires
            old(self).wf(),
        ensures
            final(self).wf(),
            final(self).mode() == old(self).mode(),
            final(self).paths() == old(self).paths(),
            final(self).warp_buf() == old(self).warp_buf(),
            final(self).ratio() == old(self).ratio(),
            final(self).rate() == old(self).rate(),
            old(self).mode() == SamplerMode::Sfz ==> r == Err::<i64, SamplerError>(
                SamplerError::SfzUnsupported,
            ) && final(self).voices() == old(self).voices() && final(self).bank() == old(self).bank(),
            old(self).mode() == SamplerMode::Warp ==> {
                &&& r == Ok::<i64, SamplerError>(
                    warp_mix(old(self).voices(), old(self).warp_buf(), old(self).ratio()) as i64,
                )
                &&& final(self).bank() == old(self).bank()
                &&& final(self).voices().len() == old(self).voices().len()
                &&& forall|i: int|
                    0 <= i < old(self).voices().len() ==> {
                        let v = #[trigger] old(self).voices()[i];
                        let inc = warp_increment(v.step(), old(self).ratio());
                        v.rendered(
                            &final(self).voices()[i],
                            old(self).warp_buf(),
                            inc,
                            v.output(old(self).warp_buf(), inc),
                        )
                    }
            },
            old(self).mode() == SamplerMode::Assign ==> {
                &&& r == Ok::<i64, SamplerError>(assign_mix(old(self).bank()) as i64)
                &&& final(self).voices() == old(self).voices()
                &&& forall|n: int|
                    0 <= n < NUM_NOTES ==> entry_rendered(
                        #[trigger] old(self).bank()[n],
                        final(self).bank()[n],
                    )
            },
    {
        match self.sampler_mode {
            SamplerMode::Warp => Ok(self.mix_warp()),
            SamplerMode::Assign => Ok(self.mix_assign()),
            SamplerMode::Sfz => Err(SamplerError::SfzUnsupported),
        }
    }

    fn mix_warp(&mut self) -> (r: i64)
        requires
            old(self).wf(),
        ensures
            final(self).wf(),
            final(self).mode() == old(self).mode(),
            final(self).paths() == old(self).paths(),
            final(self).warp_buf() == old(self).warp_buf(),
            final(self).ratio() == old(self).ratio(),
            final(self).rate() == old(self).rate(),
            final(self).bank() == old(self).bank(),
            r == warp_mix(old(self).voices(), old(self).warp_buf(), old(self).ratio()),
            final(self).voices().len() == old(self).voices().len(),
            forall|i: int|
                0 <= i < old(self).voices().len() ==> {
                    let v = #[trigger] old(self).voices()[i];
                    let inc = warp_increment(v.step(), old(self).ratio());
                    v.rendered(
                        &final(self).voices()[i],
                        old(self).warp_buf(),
                        inc,
                        v.output(old(self).warp_buf(), inc),
                    )
                },
    {
        let mut out: i64 = 0;
        let mut i: usize = 0;
        let n = self.warp_voices.len();
        while i < n
            invariant
                n == old(self).voices().len(),
                self.warp_voices@.len() == n,
                i <= n <= 255,
                self.warp_buffer == old(self).warp_buf(),
                buffer_ok(self.warp_buffer),
                self.warp_sr_scalar == old(self).ratio(),
                self.sampler_mode == old(self).mode(),
                self.file_names@ == old(self).file_names@,
                self.sound_bank@ == old(self).bank(),
                self.sample_rate == old(self).rate(),
                self.sample_rate > 0,
                forall|j: int| 0 <= j < n ==> (#[trigger] self.warp_voices@[j]).wf(),
                forall|j: int| i <= j < n ==> #[trigger] self.warp_voices@[j] == old(self).voices()[j],
                forall|j: int|
                    0 <= j < i ==> {
                        let v = #[trigger] old(self).voices()[j];
                        let inc = warp_increment(v.step(), old(self).ratio());
                        v.rendered(
                            &self.warp_voices@[j],
                            old(self).warp_buf(),
                            inc,
                            v.output(old(self).warp_buf(), inc),
                        )
                    },
                out == warp_mix(
                    old(self).voices().take(i as int),
                    old(self).warp_buf(),
                    old(self).ratio(),
                ),
                -(i * 0x8000_0000) <= out <= i * 0x8000_0000,
            decreases n - i,
        {
            let s = self.warp_voices[i].processWarp(&self.warp_buffer, self.warp_sr_scalar);
            proof {
                let vs = old(self).voices();
                assert(vs.take(i + 1).drop_last() =~= vs.take(i as int));
                assert(vs.take(i + 1).last() == vs[i as int]);
            }
            out = out + s as i64;
            i = i + 1;
        }
        proof {
            assert(old(self).voices().take(n as int) =~= old(self).voices());
        }
        out
    }

    fn mix_assign(&mut self) -> (r: i64)
        requires
            old(self).wf(),
        ensures
            final(self).wf(),
            final(self).mode() == old(self).mode(),
            final(self).paths() == old(self).paths(),
            final(self).warp_buf() == old(self).warp_buf(),
            final(self).ratio() == old(self).ratio(),
            final(self).rate() == old(self).rate(),
            final(self).voices() == old(self).voices(),
            r == assign_mix(old(self).bank()),
            forall|n: int|
                0 <= n < NUM_NOTES ==> entry_rendered(
                    #[trigger] old(self).bank()[n],
                    final(self).bank()[n],
                ),
    {
        let mut out: i64 = 0;
        let mut i: usize = 0;
        while i < NUM_NOTES
            invariant
                self.sound_bank@.len() == NUM_NOTES,
                old(self).bank().len() == NUM_NOTES,
                i <= NUM_NOTES,
                self.warp_buffer == old(self).warp_buf(),
                self.warp_voices@ == old(self).voices(),
                self.warp_sr_scalar == old(self).ratio(),
                self.sampler_mode == old(self).mode(),
                self.file_names@ == old(self).file_names@,
                self.sample_rate == old(self).rate(),
                forall|j: int| 0 <= j < NUM_NOTES ==> entry_ok(#[trigger] self.sound_bank@[j], j),
                forall|j: int|
                    i <= j < NUM_NOTES ==> #[trigger] self.sound_bank@[j] == old(self).bank()[j],
                forall|j: int|
                    0 <= j < i ==> entry_rendered(
                        #[trigger] old(self).bank()[j],
                        self.sound_bank@[j],
                    ),
                out == assign_mix(old(self).bank().take(i as int)),
                -(i * 0x8000_0000) <= out <= i * 0x8000_0000,
            decreases NUM_NOTES - i,
        {
            let s: i32 = match self.sound_bank[i].as_mut() {
                Some(e) => e.voice.processAssign(&e.buffer, e.sr_scalar),
                None => 0,
            };
            proof {
                let b = old(self).bank();
                assert(b.take(i + 1).drop_last() =~= b.take(i as int));
                assert(b.take(i + 1).last() == b[i as int]);
            }
            out = out + s as i64;
            i = i + 1;
        }
        proof {
            assert(old(self).bank().take(NUM_NOTES as int) =~= old(self).bank());
        }
        out
    }
}

impl SamplerEngine {
    /// Picks the voice for a new note: a free one, else the quietest releasing one, else
    /// the quietest of all.
    fn get_voice_id(&self) -> (r: usize)
        requires
            self.voices().len() > 0,
        ensures
            steal_choice(self.voices(), r as int),
    {
        let n = self.warp_voices.len();
        let mut i: usize = 0;
        while i < n
            invariant
                n == self.voices().len(),
                i <= n,
                forall|j: int| 0 <= j < i ==> (#[trigger] self.voices()[j]).is_active_spec(),
            decreases n - i,
        {
            if !self.warp_voices[i].is_active() {
                return i;
            }
            i = i + 1;
        }
        let mut best: Option<usize> = None;
        let mut best_level: u64 = 0;
        let mut i: usize = 0;
        while i < n
            invariant
                n == self.voices().len(),
                i <= n,
                forall|j: int| 0 <= j < n ==> (#[trigger] self.voices()[j]).is_active_spec(),
                match best {
                    None => forall|j: int| 0 <= j < i ==> !releasing(#[trigger] self.voices()[j]),
                    Some(b) => b < i && best_level == level(self.voices()[b as int]) && quietest(
                        self.voices().take(i as int),
                        b as int,
                        |v: SamplerVoice| releasing(v),
                    ),
                },
            decreases n - i,
        {
            let (st, lv) = self.warp_voices[i].envelope();
            if st == AdsrState::Release {
                let better = match best {
                    None => true,
                    Some(_) => lv < best_level,
                };
                if better {
                    best = Some(i);
                    best_level = lv;
                }
            }
            proof {
                assert(self.voices().take(i + 1).drop_last() =~= self.voices().take(i as int));
            }
            i = i + 1;
        }
        proof {
            assert(self.voices().take(n as int) =~= self.voices());
        }
        if let Some(b) = best {
            return b;
        }
        let mut b: usize = 0;
        let (_, lv0) = self.warp_voices[0].envelope();
        best_level = lv0;
        let mut i: usize = 1;
        while i < n
            invariant
                n == self.voices().len(),
                1 <= i <= n,
                forall|j: int| 0 <= j < n ==> (#[trigger] self.voices()[j]).is_active_spec(),
                forall|j: int| 0 <= j < n ==> !releasing(#[trigger] self.voices()[j]),
                b < i,
                best_level == level(self.voices()[b as int]),
                quietest(self.voices().take(i as int), b as int, |v: SamplerVoice| true),
            decreases n - i,
        {
            let (_, lv) = self.warp_voices[i].envelope();
            if lv < best_level {
                b = i;
                best_level = lv;
            }
            proof {
                assert(self.voices().take(i + 1).drop_last() =~= self.voices().take(i as int));
            }
            i = i + 1;
        }
        proof {
            assert(self.voices().take(n as int) =~= self.voices());
        }
        b
    }
}

impl SamplerEngine {
    /// Starts `note` with Q32 `velocity`. In warp mode the voice `steal_choice` picks
    /// starts it (nothing happens with no voices); in assign mode the note's own voice
    /// starts it (nothing happens for an unassigned note); in `Sfz` mode nothing happens.
    pub fn note_on(&mut self, note: u8, velocity: i64)
        requires
            old(self).wf(),
        ensures
            final(self).wf(),
            final(self).same_config(old(self)),
            old(self).mode() == SamplerMode::Warp && old(self).voices().len() > 0 ==> {
                &&& final(self).bank() == old(self).bank()
                &&& final(self).voices().len() == old(self).voices().len()
                &&& exists|id: int|
                    #[trigger] steal_choice(old(self).voices(), id) && old(self).voices()[id].started(
                        &final(self).voices()[id],
                        note,
                        velocity,
                    ) && same_except(old(self).voices(), final(self).voices(), id as int)
            },
            old(self).mode() == SamplerMode::Assign ==> {
                &&& final(self).voices() == old(self).voices()
                &&& final(self).bank().len() == NUM_NOTES
                &&& entry_changed(
                    old(self).bank()[note as int],
                    final(self).bank()[note as int],
                    |a: SamplerVoice, b: SamplerVoice| a.started(&b, note, velocity),
                )
                &&& same_except(old(self).bank(), final(self).bank(), note as int)
            },
            (old(self).mode() == SamplerMode::Sfz || old(self).voices().len() == 0) && old(self).mode()
                != SamplerMode::Assign ==> final(self).voices() == old(self).voices() && final(self).bank() == old(self).bank(),
    {
        match self.sampler_mode {
            SamplerMode::Warp => {
                if self.warp_voices.len() > 0 {
                    let voice_id = self.get_voice_id();
                    self.warp_voices[voice_id].note_on(note, velocity);
                    proof {
                        let id = voice_id as int;
                        assert(steal_choice(old(self).voices(), id));
                        assert(same_except(old(self).voices(), self.voices(), id as int));
                        assert(forall|j: int|
                            0 <= j < self.voices().len() ==> (#[trigger] self.voices()[j]).wf());
                    }
                }
            },
            SamplerMode::Assign => {
                match self.sound_bank[note as usize].as_mut() {
                    Some(e) => {
                        e.voice.note_on(note, velocity);
                    },
                    None => {},
                }
                proof {
                    assert(same_except(old(self).bank(), self.bank(), note as int));
                    assert(forall|m: int| 0 <= m < NUM_NOTES ==> entry_ok(#[trigger] self.bank()[m], m));
                }
            },
            SamplerMode::Sfz => {},
        }
    }

    /// Releases `note`. In warp mode the first voice that holds it is released (nothing
    /// happens if none does); in assign mode the note's own voice is released; in `Sfz`
    /// mode nothing happens.
    pub fn note_off(&mut self, note: u8)
        requires
            old(self).wf(),
        ensures
            final(self).wf(),
            final(self).same_config(old(self)),
            old(self).mode() == SamplerMode::Warp ==> {
                &&& final(self).bank() == old(self).bank()
                &&& final(self).voices().len() == old(self).voices().len()
                &&& (forall|i: int|
                    0 <= i < old(self).voices().len() ==> !holds(#[trigger] old(self).voices()[i], note))
                    ==> final(self).voices() == old(self).voices()
                &&& forall|i: int|
                    0 <= i < old(self).voices().len() && #[trigger] holds(old(self).voices()[i], note)
                        && (forall|j: int| 0 <= j < i ==> !holds(#[trigger] old(self).voices()[j], note))
                        ==> {
                        &&& old(self).voices()[i].released(&final(self).voices()[i])
                        &&& same_except(old(self).voices(), final(self).voices(), i as int)
                    }
            },
            old(self).mode() == SamplerMode::Assign ==> {
                &&& final(self).voices() == old(self).voices()
                &&& final(self).bank().len() == NUM_NOTES
                &&& entry_changed(
                    old(self).bank()[note as int],
                    final(self).bank()[note as int],
                    |a: SamplerVoice, b: SamplerVoice| a.released(&b),
                )
                &&& same_except(old(self).bank(), final(self).bank(), note as int)
            },
            old(self).mode() == SamplerMode::Sfz ==> final(self).voices() == old(self).voices()
                && final(self).bank() == old(self).bank(),
    {
        match self.sampler_mode {
            SamplerMode::Warp => {
                let n = self.warp_voices.len();
                let mut i: usize = 0;
                while i < n
                    invariant
                        n == old(self).voices().len(),
                        i <= n,
                        *self == *old(self),
                        old(self).wf(),
                        old(self).mode() == SamplerMode::Warp,
                        forall|j: int| 0 <= j < i ==> !holds(#[trigger] old(self).voices()[j], note),
                    decreases n - i,
                {
                    let (st, _) = self.warp_voices[i].envelope();
                    if self.warp_voices[i].get_note() == note && st != AdsrState::Inactive && st
                        != AdsrState::Release {
                        self.warp_voices[i].note_off();
                        proof {
                            assert(same_except(old(self).voices(), self.voices(), i as int));
                            assert(forall|j: int| 0 <= j < n ==> (#[trigger] self.voices()[j]).wf());
                        }
                        return;
                    }
                    i = i + 1;
                }
            },
            SamplerMode::Assign => {
                match self.sound_bank[note as usize].as_mut() {
                    Some(e) => {
                        e.voice.note_off();
                    },
                    None => {},
                }
                proof {
                    assert(same_except(old(self).bank(), self.bank(), note as int));
                    assert(forall|m: int| 0 <= m < NUM_NOTES ==> entry_ok(#[trigger] self.bank()[m], m));
                }
            },
            SamplerMode::Sfz => {},
        }
    }
}

/// Rescales an integer sample of `bits` bits (8, 16 or 24) so that full scale is
/// `SAMPLE_ONE`.
pub fn decode_int_sample(value: i32, bits: u16) -> (r: Result<i32, SamplerError>)
    ensures
        depth_divisor(bits) is None ==> r == Err::<i32, SamplerError>(SamplerError::UnsupportedBitDepth),
        depth_divisor(bits) matches Some(d) ==> r matches Ok(x) && x == decoded(value as int, d),
{
    let d: u64 = if bits == 8 {
        127
    } else if bits == 16 {
        32767
    } else if bits == 24 {
        8388608
    } else {
        return Err(SamplerError::UnsupportedBitDepth);
    };
    let m: u64 = if value < 0 {
        (-(value as i64)) as u64
    } else {
        value as u64
    };
    assert(m * SAMPLE_ONE <= 0x8000_0000 * SAMPLE_ONE) by (nonlinear_arith)
        requires
            m <= 0x8000_0000,
    ;
    let q = m * SAMPLE_ONE / d;
    if value >= 0 {
        if q > i32::MAX as u64 {
            Ok(i32::MAX)
        } else {
            Ok(q as i32)
        }
    } else {
        if q > 0x8000_0000 {
            Ok(i32::MIN)
        } else {
            Ok((-(q as i64)) as i32)
        }
    }
}

/// Replaces a buffer's contents with `samples` (one silent slot when there are none) and
/// puts its write cursor at 0.
fn fill_buffer(buffer: &mut RingBuffer<i32>, samples: &Vec<i32>)
    requires
        old(buffer).wf(),
        samples@.len() <= u32::MAX,
    ensures
        final(buffer).wf(),
        final(buffer)@ == loaded(samples@),
        final(buffer).write_pos() == 0,
{
    let n = samples.len();
    if n == 0 {
        buffer.resize(0, 0);
        buffer.resize(1, 0);
        buffer.set_write_index(0);
        assert(buffer@ =~= seq![0i32]);
        return;
    }
    buffer.resize(0, 0);
    buffer.resize(n, 0);
    buffer.set_write_index(0);
    let mut i: usize = 0;
    while i < n
        invariant
            n == samples@.len(),
            0 < n,
            i <= n,
            buffer.wf(),
            buffer.cap() == n,
            buffer.write_pos() == (i as int) % (n as int),
            forall|j: int| 0 <= j < i ==> buffer@[j] == samples@[j],
        decreases n - i,
    {
        proof {
            vstd::arithmetic::div_mod::lemma_small_mod(i as nat, n as nat);
        }
        buffer.push(samples[i]);
        i = i + 1;
    }
    proof {
        vstd::arithmetic::div_mod::lemma_mod_self_0(n as int);
    }
    assert(buffer@ =~= samples@);
}

impl SamplerEngine {
    /// Whether `file_path` is among the recorded paths.
    fn has_path(&self, file_path: &String) -> (r: bool)
        ensures
            r == self.paths().contains(file_path@),
    {
        let mut i: usize = 0;
        while i < self.file_names.len()
            invariant
                i <= self.file_names@.len(),
                forall|j: int| 0 <= j < i ==> self.paths()[j] != file_path@,
            decreases self.file_names@.len() - i,
        {
            if self.file_names[i] == *file_path {
                assert(self.paths()[i as int] == file_path@);
                return true;
            }
            i = i + 1;
        }
        false
    }

    /// Records `file_path` after the paths recorded so far.
    pub fn add_file_to_paths(&mut self, file_path: &str)
        requires
            old(self).wf(),
        ensures
            final(self).wf(),
            final(self).paths() == old(self).paths().push(file_path@),
            final(self).mode() == old(self).mode(),
            final(self).warp_buf() == old(self).warp_buf(),
            final(self).ratio() == old(self).ratio(),
            final(self).rate() == old(self).rate(),
            final(self).voices() == old(self).voices(),
            final(self).bank() == old(self).bank(),
    {
        let s = file_path.to_owned();
        self.file_names.push(s);
        assert(self.paths() =~= old(self).paths().push(file_path@));
    }

    fn ratio_for(&self, file_rate: u32) -> (r: u64)
        requires
            self.rate() > 0,
        ensures
            r == rate_ratio(file_rate as int, self.rate() as int),
    {
        assert(file_rate * FRAC_ONE <= u32::MAX * FRAC_ONE) by (nonlinear_arith)
            requires
                file_rate <= u32::MAX,
        ;
        proof {
            vstd::arithmetic::div_mod::lemma_div_is_ordered_by_denominator(
                (file_rate * FRAC_ONE) as int,
                1,
                self.rate() as int,
            );
        }
        (file_rate as u64) * FRAC_ONE / (self.sample_rate as u64)
    }

    /// Loads decoded `samples` recorded at `file_rate` Hz into the warp buffer, replacing
    /// what it held, and keeps the ratio of the file's rate to the engine's. Fails, changing
    /// nothing, when there are more samples than a buffer holds.
    pub fn load_file_from_path(&mut self, samples: &Vec<i32>, file_rate: u32) -> (r: Result<
        (),
        SamplerError,
    >)
        requires
            old(self).wf(),
        ensures
            final(self).wf(),
            samples@.len() > u32::MAX ==> r == Err::<(), SamplerError>(SamplerError::TooLong)
                && *final(self) == *old(self),
            samples@.len() <= u32::MAX ==> {
                &&& r is Ok
                &&& final(self).warp_buf()@ == loaded(samples@)
                &&& final(self).warp_buf().write_pos() == 0
                &&& final(self).ratio() == rate_ratio(file_rate as int, old(self).rate() as int)
            },
            final(self).mode() == old(self).mode(),
            final(self).paths() == old(self).paths(),
            final(self).rate() == old(self).rate(),
            final(self).voices() == old(self).voices(),
            final(self).bank() == old(self).bank(),
    {
        if samples.len() > u32::MAX as usize {
            return Err(SamplerError::TooLong);
        }
        fill_buffer(&mut self.warp_buffer, samples);
        self.warp_sr_scalar = self.ratio_for(file_rate);
        Ok(())
    }

    /// Loads decoded `samples` into the warp buffer as `load_file_from_path` does and, when
    /// that succeeds, records `file_path`.
    pub fn add_to_paths_and_load(&mut self, file_path: &str, samples: &Vec<i32>, file_rate: u32) -> (r:
        Result<(), SamplerError>)
        requires
            old(self).wf(),
        ensures
            final(self).wf(),
            samples@.len() > u32::MAX ==> r == Err::<(), SamplerError>(SamplerError::TooLong)
                && *final(self) == *old(self),
            samples@.len() <= u32::MAX ==> {
                &&& r is Ok
                &&& final(self).warp_buf()@ == loaded(samples@)
                &&& final(self).warp_buf().write_pos() == 0
                &&& final(self).ratio() == rate_ratio(file_rate as int, old(self).rate() as int)
                &&& final(self).paths() == old(self).paths().push(file_path@)
            },
            final(self).mode() == old(self).mode(),
            final(self).rate() == old(self).rate(),
            final(self).voices() == old(self).voices(),
            final(self).bank() == old(self).bank(),
    {
        let r = self.load_file_from_path(samples, file_rate);
        if r.is_ok() {
            self.add_file_to_paths(file_path);
        }
        r
    }

    /// Assigns decoded `samples` recorded at `file_rate` Hz to `note`: the note gets a new
    /// buffer holding them, their rate ratio and a fresh voice based at the note, replacing
    /// any earlier assignment; `file_path` is recorded unless it already was. Fails,
    /// changing nothing, when there are more samples than a buffer holds.
    pub fn assign_file_to_midi(
        &mut self,
        file_path: &str,
        samples: &Vec<i32>,
        file_rate: u32,
        note: u8,
    ) -> (r: Result<(), SamplerError>)
        requires
            old(self).wf(),
        ensures
            final(self).wf(),
            samples@.len() > u32::MAX ==> r == Err::<(), SamplerError>(SamplerError::TooLong)
                && *final(self) == *old(self),
            samples@.len() <= u32::MAX ==> {
                &&& r is Ok
                &&& final(self).paths() == if old(self).paths().contains(file_path@) {
                    old(self).paths()
                } else {
                    old(self).paths().push(file_path@)
                }
                &&& final(self).bank()[note as int] matches Some(e) && e.file_path@ == file_path@
                    && e.sr_scalar == rate_ratio(file_rate as int, old(self).rate() as int)
                    && e.buffer@ == loaded(samples@) && e.voice.base() == note
                    && !e.voice.is_active_spec()
                &&& same_except(old(self).bank(), final(self).bank(), note as int)
            },
            final(self).bank().len() == NUM_NOTES,
            final(self).mode() == old(self).mode(),
            final(self).rate() == old(self).rate(),
            final(self).warp_buf() == old(self).warp_buf(),
            final(self).ratio() == old(self).ratio(),
            final(self).voices() == old(self).voices(),
    {
        if samples.len() > u32::MAX as usize {
            return Err(SamplerError::TooLong);
        }
        let path = file_path.to_owned();
        if !self.has_path(&path) {
            self.add_file_to_paths(file_path);
        }
        let mut buff = RingBuffer::<i32>::new(1);
        fill_buffer(&mut buff, samples);
        let sr_scalar = self.ratio_for(file_rate);
        let voice = SamplerVoice::new(self.num_channels, note, self.sample_rate);
        let entry = BankEntry { file_path: path, sr_scalar, buffer: buff, voice };
        self.sound_bank.set(note as usize, Some(entry));
        proof {
            assert(same_except(old(self).bank(), self.bank(), note as int));
            assert(forall|m: int| 0 <= m < NUM_NOTES ==> entry_ok(#[trigger] self.bank()[m], m));
        }
        Ok(())
    }
}

/// Applies `set_adsr` to every voice of the pool.
fn apply_adsr(voices: &mut Vec<SamplerVoice>, attack_: i32, decay_: i32, sustain_: i64, release_: i32)
    requires
        forall|i: int| 0 <= i < old(voices)@.len() ==> (#[trigger] old(voices)@[i]).wf(),
    ensures
        forall|i: int| 0 <= i < final(voices)@.len() ==> (#[trigger] final(voices)@[i]).wf(),
        pool_updated(
            old(voices)@,
            final(voices)@,
            |a: SamplerVoice,
            b: SamplerVoice| a.adsr_set(&b, attack_, decay_, sustain_, release_),
        ),
{
    let n = voices.len();
    let mut i: usize = 0;
    while i < n
        invariant
            n == old(voices)@.len(),
            voices@.len() == n,
            i <= n,
            forall|j: int| 0 <= j < n ==> (#[trigger] voices@[j]).wf(),
            forall|j: int| i <= j < n ==> #[trigger] voices@[j] == old(voices)@[j],
            forall|j: int| 0 <= j < i ==> ({
                let a = #[trigger] old(voices)@[j];
                let b = voices@[j];
                a.adsr_set(&b, attack_, decay_, sustain_, release_)
            }),
        decreases n - i,
    {
        voices[i].set_adsr(attack_, decay_, sustain_, release_);
        i = i + 1;
    }
}

/// Applies `set_start_and_end_point` to every voice of the pool.
fn apply_points(voices: &mut Vec<SamplerVoice>, start_point: i64, end_point: i64, length: usize)
    requires
        forall|i: int| 0 <= i < old(voices)@.len() ==> (#[trigger] old(voices)@[i]).wf(),
        length <= u32::MAX,
    ensures
        forall|i: int| 0 <= i < final(voices)@.len() ==> (#[trigger] final(voices)@[i]).wf(),
        pool_updated(
            old(voices)@,
            final(voices)@,
            |a: SamplerVoice,
            b: SamplerVoice| a.points_applied(b, start_point, end_point, length as nat),
        ),
{
    let n = voices.len();
    let mut i: usize = 0;
    while i < n
        invariant
            n == old(voices)@.len(),
            voices@.len() == n,
            i <= n,
            length <= u32::MAX,
            forall|j: int| 0 <= j < n ==> (#[trigger] voices@[j]).wf(),
            forall|j: int| i <= j < n ==> #[trigger] voices@[j] == old(voices)@[j],
            forall|j: int| 0 <= j < i ==> ({
                let a = #[trigger] old(voices)@[j];
                let b = voices@[j];
                a.points_applied(b, start_point, end_point, length as nat)
            }),
        decreases n - i,
    {
        voices[i].set_start_and_end_point(start_point, end_point, length);
        i = i + 1;
    }
}

/// Applies `set_sus_points` to every voice of the pool.
fn apply_sus_points(voices: &mut Vec<SamplerVoice>, start_point: i64, end_point: i64, length: usize)
    requires
        forall|i: int| 0 <= i < old(voices)@.len() ==> (#[trigger] old(voices)@[i]).wf(),
        length <= u32::MAX,
    ensures
        forall|i: int| 0 <= i < final(voices)@.len() ==> (#[trigger] final(voices)@[i]).wf(),
        pool_updated(
            old(voices)@,
            final(voices)@,
            |a: SamplerVoice,
            b: SamplerVoice| a.sus_applied(b, start_point, end_point, length as nat),
        ),
{
    let n = voices.len();
    let mut i: usize = 0;
    while i < n
        invariant
            n == old(voices)@.len(),
            voices@.len() == n,
            i <= n,
            length <= u32::MAX,
            forall|j: int| 0 <= j < n ==> (#[trigger] voices@[j]).wf(),
            forall|j: int| i <= j < n ==> #[trigger] voices@[j] == old(voices)@[j],
            forall|j: int| 0 <= j < i ==> ({
                let a = #[trigger] old(voices)@[j];
                let b = voices@[j];
                a.sus_applied(b, start_point, end_point, length as nat)
            }),
        decreases n - i,
    {
        voices[i].set_sus_points(start_point, end_point, length);
        i = i + 1;
    }
}

/// Applies `set_sus_mode` to every voice of the pool.
fn apply_mode(voices: &mut Vec<SamplerVoice>, new_mode: SustainModes)
    requires
        forall|i: int| 0 <= i < old(voices)@.len() ==> (#[trigger] old(voices)@[i]).wf(),
    ensures
        forall|i: int| 0 <= i < final(voices)@.len() ==> (#[trigger] final(voices)@[i]).wf(),
        pool_updated(
            old(voices)@,
            final(voices)@,
            |a: SamplerVoice,
            b: SamplerVoice| a.mode_applied(b, new_mode),
        ),
{
    let n = voices.len();
    let mut i: usize = 0;
    while i < n
        invariant
            n == old(voices)@.len(),
            voices@.len() == n,
            i <= n,
            forall|j: int| 0 <= j < n ==> (#[trigger] voices@[j]).wf(),
            forall|j: int| i <= j < n ==> #[trigger] voices@[j] == old(voices)@[j],
            forall|j: int| 0 <= j < i ==> ({
                let a = #[trigger] old(voices)@[j];
                let b = voices@[j];
                a.mode_applied(b, new_mode)
            }),
        decreases n - i,
    {
        let ghost before = voices@;
        voices[i].set_sus_mode(new_mode);
        assert(forall|j: int| 0 <= j < n && j != i ==> voices@[j] == before[j]);
        assert forall|j: int| 0 <= j <= i implies ({
            let a = #[trigger] old(voices)@[j];
            let b = voices@[j];
            a.mode_applied(b, new_mode)
        }) by {
            if j < i {
                assert(old(voices)@[j].mode_applied(before[j], new_mode));
            }
        }
        i = i + 1;
    }
}

/// Applies `set_fade_time` to every voice of the pool.
fn apply_fade(voices: &mut Vec<SamplerVoice>, fade_ms: i32)
    requires
        forall|i: int| 0 <= i < old(voices)@.len() ==> (#[trigger] old(voices)@[i]).wf(),
    ensures
        forall|i: int| 0 <= i < final(voices)@.len() ==> (#[trigger] final(voices)@[i]).wf(),
        pool_updated(
            old(voices)@,
            final(voices)@,
            |a: SamplerVoice,
            b: SamplerVoice| a.fade_applied(b, fade_ms),
        ),
{
    let n = voices.len();
    let mut i: usize = 0;
    while i < n
        invariant
            n == old(voices)@.len(),
            voices@.len() == n,
            i <= n,
            forall|j: int| 0 <= j < n ==> (#[trigger] voices@[j]).wf(),
            forall|j: int| i <= j < n ==> #[trigger] voices@[j] == old(voices)@[j],
            forall|j: int| 0 <= j < i ==> ({
                let a = #[trigger] old(voices)@[j];
                let b = voices@[j];
                a.fade_applied(b, fade_ms)
            }),
        decreases n - i,
    {
        voices[i].set_fade_time(fade_ms);
        i = i + 1;
    }
}

/// Applies `set_base_midi` to every voice of the pool.
fn apply_base(voices: &mut Vec<SamplerVoice>, note: u8)
    requires
        forall|i: int| 0 <= i < old(voices)@.len() ==> (#[trigger] old(voices)@[i]).wf(),
    ensures
        forall|i: int| 0 <= i < final(voices)@.len() ==> (#[trigger] final(voices)@[i]).wf(),
        pool_updated(
            old(voices)@,
            final(voices)@,
            |a: SamplerVoice,
            b: SamplerVoice| b == a.with_base(note),
        ),
{
    let n = voices.len();
    let mut i: usize = 0;
    while i < n
        invariant
            n == old(voices)@.len(),
            voices@.len() == n,
            i <= n,
            forall|j: int| 0 <= j < n ==> (#[trigger] voices@[j]).wf(),
            forall|j: int| i <= j < n ==> #[trigger] voices@[j] == old(voices)@[j],
            forall|j: int| 0 <= j < i ==> ({
                let a = #[trigger] old(voices)@[j];
                let b = voices@[j];
                b == a.with_base(note)
            }),
        decreases n - i,
    {
        voices[i].set_base_midi(note);
        i = i + 1;
    }
}

impl SamplerEngine {
    /// Sets the envelope of every warp voice: times in milliseconds, Q32 sustain level.
    pub fn set_adsr(&mut self, attack_: i32, decay_: i32, sustain_: i64, release_: i32)
        requires
            old(self).wf(),
        ensures
            final(self).wf(),
            final(self).same_config(old(self)),
            final(self).bank() == old(self).bank(),
            pool_updated(
                old(self).voices(),
                final(self).voices(),
                |a: SamplerVoice,
                b: SamplerVoice| a.adsr_set(&b, attack_, decay_, sustain_, release_),
            ),
    {
        apply_adsr(&mut self.warp_voices, attack_, decay_, sustain_, release_);
    }

    /// Sets the envelope of the voice assigned to `note_of_assigned`.
    pub fn set_adsr_assign(
        &mut self,
        attack_: i32,
        decay_: i32,
        sustain_: i64,
        release_: i32,
        note_of_assigned: u8,
    ) -> (r: Result<(), SamplerError>)
        requires
            old(self).wf(),
        ensures
            final(self).wf(),
            final(self).same_config(old(self)),
            final(self).voices() == old(self).voices(),
            bank_updated(
                old(self).bank(),
                final(self).bank(),
                note_of_assigned,
                |a: SamplerVoice,
                b: SamplerVoice| a.adsr_set(&b, attack_, decay_, sustain_, release_),
                r,
            ),
    {
        let r = match self.sound_bank[note_of_assigned as usize].as_mut() {
            Some(e) => {
                
                e.voice.set_adsr(attack_, decay_, sustain_, release_);
                Ok(())
            },
            None => Err(SamplerError::NotAssigned),
        };
        proof {
            assert(same_except(old(self).bank(), self.bank(), note_of_assigned as int));
            assert(forall|m: int| 0 <= m < NUM_NOTES ==> entry_ok(#[trigger] self.bank()[m], m));
        }
        r
    }

    /// Sets the note every warp voice measures its pitch from.
    pub fn set_warp_base(&mut self, base_note: u8)
        requires
            old(self).wf(),
        ensures
            final(self).wf(),
            final(self).same_config(old(self)),
            final(self).bank() == old(self).bank(),
            pool_updated(
                old(self).voices(),
                final(self).voices(),
                |a: SamplerVoice,
                b: SamplerVoice| b == a.with_base(base_note),
            ),
    {
        apply_base(&mut self.warp_voices, base_note);
    }

    /// Sets the start and end points of every warp voice as Q16 percentages of the warp
    /// buffer; playback is reversed when the start lies past the end.
    pub fn set_points_warp(&mut self, start_point: i64, end_point: i64)
        requires
            old(self).wf(),
        ensures
            final(self).wf(),
            final(self).same_config(old(self)),
            final(self).bank() == old(self).bank(),
            pool_updated(
                old(self).voices(),
                final(self).voices(),
                |a: SamplerVoice,
                b: SamplerVoice| a.points_applied(b, start_point, end_point, old(self).warp_buf().cap()),
            ),
    {
        let cap = self.warp_buffer.capacity();
        apply_points(&mut self.warp_voices, start_point, end_point, cap);
    }

    /// Sets the start and end points of the voice assigned to `note_of_assigned` as Q16
    /// percentages of its buffer.
    pub fn set_points_assign(
        &mut self,
        start_point: i64,
        end_point: i64,
        note_of_assigned: u8,
    ) -> (r: Result<(), SamplerError>)
        requires
            old(self).wf(),
        ensures
            final(self).wf(),
            final(self).same_config(old(self)),
            final(self).voices() == old(self).voices(),
            bank_updated(
                old(self).bank(),
                final(self).bank(),
                note_of_assigned,
                |a: SamplerVoice,
                b: SamplerVoice|
                    a.points_applied(
                        b,
                        start_point,
                        end_point,
                        bank_len(old(self).bank(), note_of_assigned),
                    ),
                r,
            ),
    {
        let r = match self.sound_bank[note_of_assigned as usize].as_mut() {
            Some(e) => {
                let length = e.buffer.capacity();
                e.voice.set_start_and_end_point(start_point, end_point, length);
                Ok(())
            },
            None => Err(SamplerError::NotAssigned),
        };
        proof {
            assert(same_except(old(self).bank(), self.bank(), note_of_assigned as int));
            assert(forall|m: int| 0 <= m < NUM_NOTES ==> entry_ok(#[trigger] self.bank()[m], m));
        }
        r
    }

    /// Sets the sustain-loop points of every warp voice as Q16 percentages of the warp buffer.
    pub fn set_sus_points_warp(&mut self, start_point: i64, end_point: i64)
        requires
            old(self).wf(),
        ensures
            final(self).wf(),
            final(self).same_config(old(self)),
            final(self).bank() == old(self).bank(),
            pool_updated(
                old(self).voices(),
                final(self).voices(),
                |a: SamplerVoice,
                b: SamplerVoice| a.sus_applied(b, start_point, end_point, old(self).warp_buf().cap()),
            ),
    {
        let cap = self.warp_buffer.capacity();
        apply_sus_points(&mut self.warp_voices, start_point, end_point, cap);
    }

    /// Sets the sustain-loop points of the voice assigned to `note_of_assigned` as Q16
    /// percentages of its buffer.
    pub fn set_sus_points_assign(
        &mut self,
        start_point: i64,
        end_point: i64,
        note_of_assigned: u8,
    ) -> (r: Result<(), SamplerError>)
        requires
            old(self).wf(),
        ensures
            final(self).wf(),
            final(self).same_config(old(self)),
            final(self).voices() == old(self).voices(),
            bank_updated(
                old(self).bank(),
                final(self).bank(),
                note_of_assigned,
                |a: SamplerVoice,
                b: SamplerVoice|
                    a.sus_applied(
                        b,
                        start_point,
                        end_point,
                        bank_len(old(self).bank(), note_of_assigned),
                    ),
                r,
            ),
    {
        let r = match self.sound_bank[note_of_assigned as usize].as_mut() {
            Some(e) => {
                let length = e.buffer.capacity();
                e.voice.set_sus_points(start_point, end_point, length);
                Ok(())
            },
            None => Err(SamplerError::NotAssigned),
        };
        proof {
            assert(same_except(old(self).bank(), self.bank(), note_of_assigned as int));
            assert(forall|m: int| 0 <= m < NUM_NOTES ==> entry_ok(#[trigger] self.bank()[m], m));
        }
        r
    }

    /// Sets the sustain-loop mode of every warp voice.
    pub fn set_sus_looping_warp(&mut self, mode: SustainModes)
        requires
            old(self).wf(),
        ensures
            final(self).wf(),
            final(self).same_config(old(self)),
            final(self).bank() == old(self).bank(),
            pool_updated(
                old(self).voices(),
                final(self).voices(),
                |a: SamplerVoice,
                b: SamplerVoice| a.mode_applied(b, mode),
            ),
    {
        apply_mode(&mut self.warp_voices, mode);
    }

    /// Sets the sustain-loop mode of the voice assigned to `note_of_assigned`.
    pub fn set_sus_looping_assign(
        &mut self,
        mode: SustainModes,
        note_of_assigned: u8,
    ) -> (r: Result<(), SamplerError>)
        requires
            old(self).wf(),
        ensures
            final(self).wf(),
            final(self).same_config(old(self)),
            final(self).voices() == old(self).voices(),
            bank_updated(
                old(self).bank(),
                final(self).bank(),
                note_of_assigned,
                |a: SamplerVoice,
                b: SamplerVoice| a.mode_applied(b, mode),
                r,
            ),
    {
        let r = match self.sound_bank[note_of_assigned as usize].as_mut() {
            Some(e) => {
                
                e.voice.set_sus_mode(mode);
                Ok(())
            },
            None => Err(SamplerError::NotAssigned),
        };
        proof {
            assert(same_except(old(self).bank(), self.bank(), note_of_assigned as int));
            assert(forall|m: int| 0 <= m < NUM_NOTES ==> entry_ok(#[trigger] self.bank()[m], m));
        }
        r
    }

    /// Sets the loop-seam crossfade of every warp voice, in milliseconds.
    pub fn set_fade_time_warp(&mut self, fade_ms: i32)
        requires
            old(self).wf(),
        ensures
            final(self).wf(),
            final(self).same_config(old(self)),
            final(self).bank() == old(self).bank(),
            pool_updated(
                old(self).voices(),
                final(self).voices(),
                |a: SamplerVoice,
                b: SamplerVoice| a.fade_applied(b, fade_ms),
            ),
    {
        apply_fade(&mut self.warp_voices, fade_ms);
    }

    /// Sets the loop-seam crossfade of the voice assigned to `note_of_assigned`, in
    /// milliseconds.
    pub fn set_fade_time_assign(
        &mut self,
        fade_ms: i32,
        note_of_assigned: u8,
    ) -> (r: Result<(), SamplerError>)
        requires
            old(self).wf(),
        ensures
            final(self).wf(),
            final(self).same_config(old(self)),
            final(self).voices() == old(self).voices(),
            bank_updated(
                old(self).bank(),
                final(self).bank(),
                note_of_assigned,
                |a: SamplerVoice,
                b: SamplerVoice| a.fade_applied(b, fade_ms),
                r,
            ),
    {
        let r = match self.sound_bank[note_of_assigned as usize].as_mut() {
            Some(e) => {
                
                e.voice.set_fade_time(fade_ms);
                Ok(())
            },
            None => Err(SamplerError::NotAssigned),
        };
        proof {
            assert(same_except(old(self).bank(), self.bank(), note_of_assigned as int));
            assert(forall|m: int| 0 <= m < NUM_NOTES ==> entry_ok(#[trigger] self.bank()[m], m));
        }
        r
    }

}

impl SamplerEngine {
    /// The envelope parameters `(attack_ms, decay_ms, sustain, release_ms)` of the first
    /// warp voice; `default_adsr()` when the pool is empty.
    pub fn get_adsr_warp(&self) -> (r: (u32, u32, u64, u32))
        requires
            self.wf(),
        ensures
            self.voices().len() == 0 ==> r == default_adsr(),
            self.voices().len() > 0 ==> {
                let env = self.voices()[0].env();
                r == (
                    env.attack_ms as u32,
                    env.decay_ms as u32,
                    env.sustain as u64,
                    env.release_ms as u32,
                )
            },
    {
        if self.warp_voices.len() == 0 {
            return (100, 100, LEVEL_ONE, 100);
        }
        self.warp_voices[0].get_adsr()
    }

    /// The envelope parameters of the voice assigned to `note_of_assigned`;
    /// `default_adsr()` when none is.
    pub fn get_adsr_assign(&self, note_of_assigned: u8) -> (r: (u32, u32, u64, u32))
        requires
            self.wf(),
        ensures
            self.bank()[note_of_assigned as int] matches Some(e) ==> {
                let env = e.voice.env();
                r == (
                    env.attack_ms as u32,
                    env.decay_ms as u32,
                    env.sustain as u64,
                    env.release_ms as u32,
                )
            },
            self.bank()[note_of_assigned as int] is None ==> r == default_adsr(),
    {
        match &self.sound_bank[note_of_assigned as usize] {
            Some(e) => e.voice.get_adsr(),
            None => (100, 100, LEVEL_ONE, 100),
        }
    }

    /// The start and end points of the first warp voice as Q16 percentages of the warp
    /// buffer; `(0, 100%)` when the pool is empty.
    pub fn get_points_warp(&self) -> (r: (u64, u64))
        requires
            self.wf(),
        ensures
            self.voices().len() == 0 ==> r == (0u64, PERCENT_100),
            self.voices().len() > 0 ==> {
                let v = self.voices()[0];
                let len = self.warp_buf().cap();
                r.0 == pos_pct(v.start(), len) && r.1 == pos_pct(v.end_for(len), len)
            },
    {
        if self.warp_voices.len() == 0 {
            return (0, PERCENT_100);
        }
        self.warp_voices[0].get_points(self.warp_buffer.capacity())
    }

    /// The start and end points of the voice assigned to `note_of_assigned` as Q16
    /// percentages of its buffer; `(0, 100%)` when none is.
    pub fn get_points_assign(&self, note_of_assigned: u8) -> (r: (u64, u64))
        requires
            self.wf(),
        ensures
            self.bank()[note_of_assigned as int] matches Some(e) ==> {
                let len = e.buffer.cap();
                r.0 == pos_pct(e.voice.start(), len) && r.1 == pos_pct(e.voice.end_for(len), len)
            },
            self.bank()[note_of_assigned as int] is None ==> r == (0u64, PERCENT_100),
    {
        match &self.sound_bank[note_of_assigned as usize] {
            Some(e) => e.voice.get_points(e.buffer.capacity()),
            None => (0, PERCENT_100),
        }
    }

    /// The sustain-loop points of the first warp voice as Q16 percentages of the warp
    /// buffer; `(0, 100%)` when the pool is empty.
    pub fn get_sus_points_warp(&self) -> (r: (u64, u64))
        requires
            self.wf(),
        ensures
            self.voices().len() == 0 ==> r == (0u64, PERCENT_100),
            self.voices().len() > 0 ==> {
                let v = self.voices()[0];
                let len = self.warp_buf().cap();
                r.0 == pos_pct(v.sus_a(), len) && r.1 == pos_pct(v.sus_b(), len)
            },
    {
        if self.warp_voices.len() == 0 {
            return (0, PERCENT_100);
        }
        self.warp_voices[0].get_sus_points(self.warp_buffer.capacity())
    }

    /// The sustain-loop points of the voice assigned to `note_of_assigned` as Q16
    /// percentages of its buffer; `(0, 100%)` when none is.
    pub fn get_sus_points_assign(&self, note_of_assigned: u8) -> (r: (u64, u64))
        requires
            self.wf(),
        ensures
            self.bank()[note_of_assigned as int] matches Some(e) ==> {
                let len = e.buffer.cap();
                r.0 == pos_pct(e.voice.sus_a(), len) && r.1 == pos_pct(e.voice.sus_b(), len)
            },
            self.bank()[note_of_assigned as int] is None ==> r == (0u64, PERCENT_100),
    {
        match &self.sound_bank[note_of_assigned as usize] {
            Some(e) => e.voice.get_sus_points(e.buffer.capacity()),
            None => (0, PERCENT_100),
        }
    }

    /// Sets the size of the warp pool. The first voices stay as they are. Voices past the
    /// new size are dropped at once, so whatever they were playing stops without a
    /// release. New voices are fresh: inactive, based at note 64, with the default
    /// envelope at the engine's rate, the whole buffer as region and no loop.
    pub fn set_num_voices(&mut self, num_voices: u8)
        requires
            old(self).wf(),
        ensures
            final(self).wf(),
            final(self).same_config(old(self)),
            final(self).bank() == old(self).bank(),
            final(self).voices().len() == num_voices,
            num_voices <= old(self).voices().len() ==> final(self).voices() == old(self).voices().take(
                num_voices as int,
            ),
            forall|i: int|
                0 <= i < num_voices && i < old(self).voices().len() ==> #[trigger] final(self).voices()[i]
                    == old(self).voices()[i],
            forall|i: int|
                old(self).voices().len() <= i < num_voices ==> (#[trigger] final(self).voices()[i]).is_fresh(
                    64,
                    old(self).rate() as u32,
                ),
    {
        let n = num_voices as usize;
        if n <= self.warp_voices.len() {
            self.warp_voices.truncate(n);
        } else {
            let mut i: usize = self.warp_voices.len();
            while i < n
                invariant
                    old(self).voices().len() <= i <= n <= 255,
                    self.warp_voices@.len() == i,
                    self.sound_bank@ == old(self).bank(),
                    self.file_names@ == old(self).file_names@,
                    self.warp_buffer == old(self).warp_buf(),
                    self.sampler_mode == old(self).mode(),
                    self.warp_sr_scalar == old(self).ratio(),
                    self.sample_rate == old(self).rate(),
                    self.num_channels == old(self).channels(),
                    old(self).wf(),
                    forall|j: int| 0 <= j < i ==> (#[trigger] self.warp_voices@[j]).wf(),
                    forall|j: int|
                        0 <= j < old(self).voices().len() ==> #[trigger] self.warp_voices@[j] == old(self).voices()[j],
                    forall|j: int|
                        old(self).voices().len() <= j < i ==> (#[trigger] self.warp_voices@[j]).is_fresh(
                            64,
                            old(self).rate() as u32,
                        ),
                decreases n - i,
            {
                let v = SamplerVoice::new(self.num_channels, 64, self.sample_rate);
                self.warp_voices.push(v);
                i = i + 1;
            }
        }
        self.num_voices = num_voices;
    }

    /// The shared warp-mode buffer.
    pub fn warp_buffer(&self) -> (r: &RingBuffer<i32>)
        ensures
            *r == self.warp_buf(),
    {
        &self.warp_buffer
    }

    /// The paths recorded so far, in order.
    pub fn file_paths(&self) -> (r: &Vec<String>)
        ensures
            r@.map_values(|s: String| s@) == self.paths(),
    {
        &self.file_names
    }

    /// The note, envelope phase and envelope level of warp voice `i`, if there is one.
    pub fn voice_status(&self, i: usize) -> (r: Option<(u8, AdsrState, u64)>)
        ensures
            i >= self.voices().len() ==> r is None,
            i < self.voices().len() ==> r == Some(
                (
                    self.voices()[i as int].note(),
                    self.voices()[i as int].env().state,
                    self.voices()[i as int].env().value as u64,
                ),
            ),
    {
        if i >= self.warp_voices.len() {
            return None;
        }
        let (st, lv) = self.warp_voices[i].envelope();
        Some((self.warp_voices[i].get_note(), st, lv))
    }

    /// Switches the playback mode.
    pub fn set_mode(&mut self, mode: SamplerMode)
        requires
            old(self).wf(),
        ensures
            final(self).wf(),
            final(self).mode() == mode,
            final(self).paths() == old(self).paths(),
            final(self).warp_buf() == old(self).warp_buf(),
            final(self).ratio() == old(self).ratio(),
            final(self).rate() == old(self).rate(),
            final(self).voices() == old(self).voices(),
            final(self).bank() == old(self).bank(),
    {
        self.sampler_mode = mode;
    }
}

/// Voice stealing: when every voice is active, a new note takes a releasing voice if
/// there is one, the quietest of those; with none releasing it takes the quietest voice
/// of all.
pub proof fn lemma_voice_stealing(vs: Seq<SamplerVoice>, id: int)
    requires
        forall|i: int| 0 <= i < vs.len() ==> (#[trigger] vs[i]).is_active_spec(),
        steal_choice(vs, id),
    ensures
        0 <= id < vs.len(),
        (exists|i: int| 0 <= i < vs.len() && releasing(#[trigger] vs[i])) ==> {
            &&& releasing(vs[id])
            &&& forall|j: int|
                0 <= j < vs.len() && releasing(#[trigger] vs[j]) ==> level(vs[id]) <= level(vs[j])
        },
        (forall|i: int| 0 <= i < vs.len() ==> !releasing(#[trigger] vs[i])) ==> forall|j: int|
            0 <= j < vs.len() ==> level(vs[id]) <= level(#[trigger] vs[j]),
{
    if exists|i: int| 0 <= i < vs.len() && releasing(#[trigger] vs[i]) {
        let pick = |v: SamplerVoice| releasing(v);
        assert(quietest(vs, id, pick));
        assert(pick(vs[id]));
        assert forall|j: int| 0 <= j < vs.len() && releasing(#[trigger] vs[j]) implies level(vs[id])
            <= level(vs[j]) by {
            assert(pick(vs[j]));
        }
    } else {
        assert(quietest(vs, id, |v: SamplerVoice| true));
        assert forall|j: int| 0 <= j < vs.len() implies level(vs[id]) <= level(#[trigger] vs[j]) by {
            assert((|v: SamplerVoice| true)(vs[j]));
        }
    }
}

} // verus!
