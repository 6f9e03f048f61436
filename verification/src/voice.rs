//! The polyphonic voice pool: a fixed set of voices assigned,
//! retriggered and released by decoded note events.
//!
//! A note-on reuses the voice already holding the same pitch (a
//! retrigger, even during release), else takes the first free voice; if
//! none is free the event is dropped and counted. A note-off shortens
//! the matching voice's end sample and never lengthens it. Global
//! control settings are snapshotted into the voice at trigger time, so
//! later control changes leave sounding voices alone.

use vstd::prelude::*;
use crate::envelope::{EnvelopeParams, spec_envelope, envelope};
use crate::filter::{BiQuadCoeffs, BiQuadRep, Filter, spec_cascade, spec_filter_view,
    STATE_LIMIT};
use crate::fixed::{FP_ONE, FP_HALF, fmul, iabs, mul_fp, lemma_fmul_abs, qdiv, muldiv_q};
use crate::oscillator::{Waveform, spec_oscillate, oscillate, spec_pitch_freq, pitch_freq,
    MAX_PHASE};

verus! {

/// The sentinel end sample of a voice that has not been released.
pub const SUSTAIN_FOREVER: i64 = i64::MAX;

/// Snapshot of the secondary (FM) oscillator settings for one voice.
#[derive(Debug, Clone, Copy, PartialEq, Eq, Structural)]
pub struct SecondaryConfig {
    /// Waveform of the modulating oscillator.
    pub wave: Waveform,
    /// Its frequency in cycles per sample (the primary frequency times
    /// the configured multiplier).
    pub freq: i64,
    /// Modulation depth applied to its output.
    pub depth: i64,
}

impl SecondaryConfig {
    /// Frequency within the oscillator's domain and depth within one
    /// full scale.
    pub open spec fn wf(self) -> bool {
        &&& 0 <= self.freq < FP_ONE
        &&& iabs(self.depth as int) <= FP_ONE
    }
}

/// Ghost image of one voice.
#[verifier::ext_equal]
pub struct VoiceRep {
    pub note: int,
    pub start_sample: int,
    pub end_sample: int,
    pub wave: Waveform,
    pub freq: int,
    pub duty: int,
    pub velocity: int,
    pub secondary: Option<SecondaryConfig>,
    pub env: EnvelopeParams,
    pub filter: Option<Seq<BiQuadRep>>,
}

/// One voice: an oscillator (with optional FM modulator), an envelope
/// and an optional filter cascade, plus the note bookkeeping the
/// allocator works with. `note == -1` marks a slot never assigned.
#[derive(Debug, Clone)]
pub struct Voice {
    pub note: i64,
    pub start_sample: i64,
    pub end_sample: i64,
    pub wave: Waveform,
    pub freq: i64,
    pub duty: i64,
    pub velocity: i64,
    pub secondary: Option<SecondaryConfig>,
    pub env: EnvelopeParams,
    pub filter: Option<Filter>,
}

impl View for Voice {
    type V = VoiceRep;

    open spec fn view(&self) -> VoiceRep {
        VoiceRep {
            note: self.note as int,
            start_sample: self.start_sample as int,
            end_sample: self.end_sample as int,
            wave: self.wave,
            freq: self.freq as int,
            duty: self.duty as int,
            velocity: self.velocity as int,
            secondary: self.secondary,
            env: self.env,
            filter: match self.filter {
                Some(f) => Some(spec_filter_view(f.quads@)),
                None => None,
            },
        }
    }
}

impl Voice {
    /// The ranges every voice keeps: frequency and gains within scale,
    /// nonnegative times (an idle slot's end sample of -1 marks it
    /// free from the start), well-formed envelope and filter.
    pub open spec fn wf(self) -> bool {
        &&& -1 <= self.note <= 127
        &&& 0 <= self.start_sample
        &&& -1 <= self.end_sample
        &&& 0 <= self.freq < FP_ONE
        &&& 0 <= self.velocity <= FP_ONE
        &&& self.env.wf()
        &&& match self.secondary {
            Some(s) => s.wf(),
            None => true,
        }
        &&& match self.filter {
            Some(f) => f.wf(),
            None => true,
        }
    }

    /// A silent, never-assigned voice slot, free from the first
    /// sample on.
    pub fn idle() -> (v: Voice)
        ensures
            v.wf(),
            v.note == -1,
            v.end_sample == -1,
            v.start_sample == 0,
            v.filter is None,
            v.secondary is None,
    {
        Voice {
            note: -1,
            start_sample: 0,
            end_sample: -1,
            wave: Waveform::Sine,
            freq: 0,
            duty: FP_HALF,
            velocity: 0,
            secondary: None,
            env: EnvelopeParams { attack: 0, decay: 0, sustain: 0, release: 0 },
            filter: None,
        }
    }
}

/// The release point handed to the envelope: how many samples after the
/// trigger the voice's release begins (never negative).
pub open spec fn spec_release_at(v: VoiceRep) -> int {
    if v.end_sample <= v.start_sample {
        0
    } else {
        v.end_sample - v.start_sample
    }
}

/// The sample a voice contributes at absolute sample `t`, together with
/// its filter state afterwards: zero before the voice starts; otherwise
/// the primary oscillator (phase-modulated by the secondary scaled by
/// its depth), scaled by the envelope gain and the velocity gain, then
/// run through the filter cascade if one is present. `npri` and `nsec`
/// are the noise draws for the two oscillators.
pub open spec fn spec_voice_sample(v: VoiceRep, t: int, npri: int, nsec: int) -> (
    Option<Seq<BiQuadRep>>, int) {
    if t < v.start_sample {
        (v.filter, 0)
    } else {
        let rt = t - v.start_sample;
        let g = spec_envelope(v.env, spec_release_at(v), rt);
        let fm = match v.secondary {
            Some(s) => fmul(spec_oscillate(s.wave, rt, s.freq as int, 0, v.duty, nsec), s.depth as int),
            None => 0,
        };
        let pri = spec_oscillate(v.wave, rt, v.freq, fm, v.duty, npri);
        let s = fmul(fmul(pri, g), v.velocity);
        match v.filter {
            None => (v.filter, s),
            Some(f) => {
                let c = spec_cascade(f, s);
                (Some(c.0), c.1)
            },
        }
    }
}

impl Voice {
    /// Evaluates this voice at absolute sample `t`, advancing its
    /// filter state. `npri` and `nsec` are the noise values for the
    /// primary and secondary oscillators (used only by `Noise`
    /// waveforms).
    pub fn sample_at(&mut self, t: i64, npri: i64, nsec: i64) -> (r: i64)
        requires
            old(self).wf(),
            0 <= t <= MAX_PHASE,
        ensures
            final(self).wf(),
            (final(self)@.filter, r as int) == spec_voice_sample(
                old(self)@,
                t as int,
                npri as int,
                nsec as int,
            ),
            final(self)@ == (VoiceRep { filter: final(self)@.filter, ..old(self)@ }),
            iabs(r as int) <= STATE_LIMIT,
    {
        if t < self.start_sample {
            return 0;
        }
        let rt = t - self.start_sample;
        let et = if self.end_sample <= self.start_sample {
            0
        } else if self.end_sample == SUSTAIN_FOREVER {
            SUSTAIN_FOREVER - self.start_sample
        } else {
            self.end_sample - self.start_sample
        };
        let g = envelope(&self.env, et, rt);
        let fm = match &self.secondary {
            Some(s) => {
                let s2 = oscillate(s.wave, rt, s.freq, 0, self.duty, nsec);
                proof {
                    lemma_fmul_abs(s2 as int, s.depth as int, FP_ONE as int, FP_ONE as int);
                }
                mul_fp(s2, s.depth)
            },
            None => 0,
        };
        let pri = oscillate(self.wave, rt, self.freq, fm, self.duty, npri);
        proof {
            lemma_fmul_abs(pri as int, g as int, FP_ONE as int, FP_ONE as int);
        }
        let sg = mul_fp(pri, g);
        proof {
            lemma_fmul_abs(sg as int, self.velocity as int, FP_ONE as int, FP_ONE as int);
        }
        let s = mul_fp(sg, self.velocity);
        match &mut self.filter {
            None => s,
            Some(f) => f.filter(s),
        }
    }
}

/// The first voice at or after `i` holding `pitch`, searched in slot
/// order (a voice keeps its note even while releasing or free, so a
/// retrigger finds it).
pub open spec fn spec_find_match_from(voices: Seq<Voice>, pitch: int, i: int) -> Option<int>
    decreases voices.len() - i,
{
    if i < 0 || i >= voices.len() {
        None
    } else if voices[i].note == pitch {
        Some(i)
    } else {
        spec_find_match_from(voices, pitch, i + 1)
    }
}

/// The first voice holding `pitch`.
pub open spec fn spec_find_match(voices: Seq<Voice>, pitch: int) -> Option<int> {
    spec_find_match_from(voices, pitch, 0)
}

/// A voice is free once the current sample has passed its end sample.
pub open spec fn spec_is_free(v: Voice, current: int) -> bool {
    current > v.end_sample
}

/// The first free voice at or after `i`, in slot order.
pub open spec fn spec_find_free_from(voices: Seq<Voice>, current: int, i: int) -> Option<int>
    decreases voices.len() - i,
{
    if i < 0 || i >= voices.len() {
        None
    } else if spec_is_free(voices[i], current) {
        Some(i)
    } else {
        spec_find_free_from(voices, current, i + 1)
    }
}

/// The first free voice.
pub open spec fn spec_find_free(voices: Seq<Voice>, current: int) -> Option<int> {
    spec_find_free_from(voices, current, 0)
}

/// A saturating event-counter increment.
pub open spec fn spec_count_inc(c: u64) -> u64 {
    if c == u64::MAX {
        c
    } else {
        (c + 1) as u64
    }
}

/// The slot a note-on takes: the voice already holding the pitch if
/// any (rule 1: retrigger), else the first free voice (rule 2), else
/// none (the event is dropped).
pub open spec fn spec_choose_slot(voices: Seq<Voice>, pitch: int, current: int) -> Option<int> {
    match spec_find_match(voices, pitch) {
        Some(i) => Some(i),
        None => spec_find_free(voices, current),
    }
}

/// What the match search returns: the least slot holding the pitch,
/// or a guarantee that no slot does.
pub proof fn lemma_find_match_spec(voices: Seq<Voice>, pitch: int, i: int)
    requires
        0 <= i <= voices.len(),
    ensures
        match spec_find_match_from(voices, pitch, i) {
            Some(j) => i <= j < voices.len() && voices[j].note == pitch && forall|k: int|
                i <= k < j ==> (#[trigger] voices[k]).note != pitch,
            None => forall|k: int| i <= k < voices.len() ==> (#[trigger] voices[k]).note != pitch,
        },
    decreases voices.len() - i,
{
    if i < voices.len() && voices[i].note != pitch {
        lemma_find_match_spec(voices, pitch, i + 1);
    }
}

/// What the free-slot search returns: the least free slot, or a
/// guarantee that no slot is free.
pub proof fn lemma_find_free_spec(voices: Seq<Voice>, current: int, i: int)
    requires
        0 <= i <= voices.len(),
    ensures
        match spec_find_free_from(voices, current, i) {
            Some(j) => i <= j < voices.len() && spec_is_free(voices[j], current) && forall|k: int|
                i <= k < j ==> !spec_is_free(#[trigger] voices[k], current),
            None => forall|k: int|
                i <= k < voices.len() ==> !spec_is_free(#[trigger] voices[k], current),
        },
    decreases voices.len() - i,
{
    if i < voices.len() && !spec_is_free(voices[i], current) {
        lemma_find_free_spec(voices, current, i + 1);
    }
}

/// Snapshot of the global control settings that a note-on copies into
/// the voice it configures.
#[derive(Debug, Clone)]
pub struct VoiceTemplate {
    /// Primary waveform.
    pub wave: Waveform,
    /// Square-wave duty cycle.
    pub duty: i64,
    /// Secondary waveform and its depth and frequency multiplier, if
    /// FM is configured.
    pub secondary: Option<SecondaryTemplate>,
    /// Envelope parameters, already in samples.
    pub env: EnvelopeParams,
    /// Designed filter sections, or `None` for bypass.
    pub filter_coeffs: Option<Vec<BiQuadCoeffs>>,
}

/// The secondary oscillator's template: its frequency is the primary
/// frequency times `freq_mul`.
#[derive(Debug, Clone, Copy, PartialEq, Eq, Structural)]
pub struct SecondaryTemplate {
    pub wave: Waveform,
    pub freq_mul: i64,
    pub depth: i64,
}

impl VoiceTemplate {
    /// Every snapshotted value is within its legal range.
    pub open spec fn wf(self) -> bool {
        &&& self.env.wf()
        &&& match self.secondary {
            Some(s) => 0 <= s.freq_mul && iabs(s.depth as int) <= FP_ONE,
            None => true,
        }
        &&& match self.filter_coeffs {
            Some(cs) => forall|i: int| 0 <= i < cs@.len() ==> (#[trigger] cs@[i]).wf(),
            None => true,
        }
    }
}

/// The secondary frequency derived from the primary: the product,
/// clamped into the oscillator's domain `[0, FP_ONE)`.
pub open spec fn spec_secondary_freq(freq: int, freq_mul: int) -> int {
    let f = fmul(freq, freq_mul);
    if f >= FP_ONE {
        FP_ONE - 1
    } else if f < 0 {
        0
    } else {
        f
    }
}

/// The gain a MIDI velocity contributes: `velocity / 255 + 1/2`,
/// which stays within `[1/2, 1]` for 7-bit velocities.
pub open spec fn spec_velocity_gain(vel: int) -> int {
    qdiv(vel * FP_ONE, 255) + FP_HALF
}

/// The fully configured voice a note-on writes into its slot.
pub open spec fn spec_configured_voice(
    tpl: VoiceTemplate,
    pitch: int,
    vel: int,
    start: int,
    rate: int,
) -> VoiceRep {
    VoiceRep {
        note: pitch,
        start_sample: start,
        end_sample: SUSTAIN_FOREVER as int,
        wave: tpl.wave,
        freq: spec_pitch_freq(pitch, rate),
        duty: tpl.duty as int,
        velocity: spec_velocity_gain(vel),
        secondary: match tpl.secondary {
            Some(s) => Some(
                SecondaryConfig {
                    wave: s.wave,
                    freq: spec_secondary_freq(spec_pitch_freq(pitch, rate), s.freq_mul as int)
                        as i64,
                    depth: s.depth,
                },
            ),
            None => None,
        },
        env: tpl.env,
        filter: match tpl.filter_coeffs {
            Some(cs) => Some(
                cs@.map_values(|c: BiQuadCoeffs| BiQuadRep { c: c@, w1: 0, w2: 0 }),
            ),
            None => None,
        },
    }
}

/// At most one voice holds any given pitch; idle slots (note `-1`)
/// are exempt.
pub open spec fn spec_notes_unique(voices: Seq<Voice>) -> bool {
    forall|i: int, j: int|
        0 <= i < voices.len() && 0 <= j < voices.len() && i != j && (#[trigger] voices[i]).note
            >= 0 ==> voices[i].note != (#[trigger] voices[j]).note
}

/// The polyphonic voice allocator: a pool of voices fixed at
/// construction, the running sample position, and a counter of note-on
/// events dropped for want of a free voice.
#[derive(Debug, Clone)]
pub struct VoiceAllocator {
    pub voices: Vec<Voice>,
    pub current_sample: i64,
    pub dropped_events: u64,
    pub rate: u32,
}

impl VoiceAllocator {
    /// Every voice in range, notes unique, time within the phase
    /// domain.
    pub open spec fn wf(self) -> bool {
        &&& forall|i: int| 0 <= i < self.voices@.len() ==> (#[trigger] self.voices@[i]).wf()
        &&& spec_notes_unique(self.voices@)
        &&& 0 <= self.current_sample <= MAX_PHASE
        &&& 1 <= self.rate
    }

    /// Builds a pool of `pool_size` idle voices for the given sample
    /// rate.
    pub fn new(pool_size: usize, rate: u32) -> (r: VoiceAllocator)
        requires
            rate >= 1,
        ensures
            r.wf(),
            r.voices@.len() == pool_size,
            r.current_sample == 0,
            r.dropped_events == 0,
            r.rate == rate,
            forall|i: int| 0 <= i < pool_size ==> (#[trigger] r.voices@[i]).note == -1,
            forall|i: int| 0 <= i < pool_size ==> (#[trigger] r.voices@[i]).end_sample == -1,
            forall|i: int| 0 <= i < pool_size ==> (#[trigger] r.voices@[i]).start_sample == 0,
    {
        let mut voices: Vec<Voice> = Vec::new();
        let mut i: usize = 0;
        while i < pool_size
            invariant
                i <= pool_size,
                voices@.len() == i,
                forall|j: int| 0 <= j < i ==> (#[trigger] voices@[j]).wf(),
                forall|j: int| 0 <= j < i ==> (#[trigger] voices@[j]).note == -1,
                forall|j: int| 0 <= j < i ==> (#[trigger] voices@[j]).end_sample == -1,
                forall|j: int| 0 <= j < i ==> (#[trigger] voices@[j]).start_sample == 0,
            decreases pool_size - i,
        {
            voices.push(Voice::idle());
            i = i + 1;
        }
        VoiceAllocator { voices, current_sample: 0, dropped_events: 0, rate }
    }

    /// Handles a note-on: retriggers the voice already holding the
    /// pitch if there is one, else configures the first free voice from
    /// the control snapshot `tpl`; with no match and no free voice the
    /// event is dropped and counted. Returns the slot used, if any.
    pub fn note_on(&mut self, pitch: u8, velocity: u8, offset: i64, tpl: &VoiceTemplate) -> (r:
        Option<usize>)
        requires
            old(self).wf(),
            tpl.wf(),
            pitch <= 127,
            velocity <= 127,
            0 <= offset <= MAX_PHASE,
        ensures
            final(self).wf(),
            final(self).current_sample == old(self).current_sample,
            final(self).rate == old(self).rate,
            final(self).voices@.len() == old(self).voices@.len(),
            ({
                let chosen = spec_choose_slot(
                    old(self).voices@,
                    pitch as int,
                    old(self).current_sample as int,
                );
                match chosen {
                    Some(i) => {
                        &&& r == Some(i as usize)
                        &&& final(self).dropped_events == old(self).dropped_events
                        &&& final(self).voices@[i]@ == spec_configured_voice(
                            *tpl,
                            pitch as int,
                            velocity as int,
                            old(self).current_sample + offset,
                            old(self).rate as int,
                        )
                        &&& forall|j: int|
                            0 <= j < old(self).voices@.len() && j != i ==> final(self).voices@[j]
                                == old(self).voices@[j]
                    },
                    None => {
                        &&& r is None
                        &&& final(self).voices@ == old(self).voices@
                        &&& final(self).dropped_events == spec_count_inc(
                            old(self).dropped_events,
                        )
                    },
                }
            }),
    {
        proof {
            lemma_find_match_spec(self.voices@, pitch as int, 0);
            lemma_find_free_spec(self.voices@, self.current_sample as int, 0);
        }
        let pool = self.voices.len();
        let mut slot: usize = 0;
        let mut found: bool = false;
        let mut i: usize = 0;
        while i < pool && !found
            invariant
                pool == self.voices@.len(),
                i <= pool,
                !found ==> spec_find_match_from(self.voices@, pitch as int, 0)
                    == spec_find_match_from(self.voices@, pitch as int, i as int),
                found ==> spec_find_match_from(self.voices@, pitch as int, 0) == Some(
                    slot as int,
                ) && slot < pool,
            decreases pool - i,
        {
            if self.voices[i].note == pitch as i64 {
                found = true;
                slot = i;
            }
            i = i + 1;
        }
        if !found {
            let ghost no_match = spec_find_match_from(self.voices@, pitch as int, 0);
            let mut j: usize = 0;
            while j < pool && !found
                invariant
                    pool == self.voices@.len(),
                    j <= pool,
                    no_match == spec_find_match_from(self.voices@, pitch as int, 0),
                    no_match is None,
                    !found ==> spec_find_free_from(
                        self.voices@,
                        self.current_sample as int,
                        0,
                    ) == spec_find_free_from(self.voices@, self.current_sample as int, j as int),
                    found ==> spec_find_free_from(self.voices@, self.current_sample as int, 0)
                        == Some(slot as int) && slot < pool,
                decreases pool - j,
            {
                if self.current_sample > self.voices[j].end_sample {
                    found = true;
                    slot = j;
                }
                j = j + 1;
            }
        }
        if !found {
            if self.dropped_events < u64::MAX {
                self.dropped_events = self.dropped_events + 1;
            }
            return None;
        }
        let start = self.current_sample + offset;
        let freq = pitch_freq(pitch as i64, self.rate);
        let velocity_gain = muldiv_q(velocity as i64, FP_ONE, 255) + FP_HALF;
        let secondary = match &tpl.secondary {
            Some(st) => {
                proof {
                    lemma_fmul_abs(
                        freq as int,
                        st.freq_mul as int,
                        FP_ONE as int,
                        iabs(st.freq_mul as int),
                    );
                }
                let f0 = mul_fp(freq, st.freq_mul);
                let sf = if f0 >= FP_ONE {
                    FP_ONE - 1
                } else if f0 < 0 {
                    0
                } else {
                    f0
                };
                Some(SecondaryConfig { wave: st.wave, freq: sf, depth: st.depth })
            },
            None => None,
        };
        let filter = match &tpl.filter_coeffs {
            Some(cs) => Some(Filter::fromCfg(clone_coeffs(cs))),
            None => None,
        };
        let v = Voice {
            note: pitch as i64,
            start_sample: start,
            end_sample: SUSTAIN_FOREVER,
            wave: tpl.wave,
            freq,
            duty: tpl.duty,
            velocity: velocity_gain,
            secondary,
            env: tpl.env,
            filter,
        };
        self.voices.set(slot, v);
        proof {
            assert(final(self).voices@[slot as int]@ =~~= spec_configured_voice(
                *tpl,
                pitch as int,
                velocity as int,
                old(self).current_sample + offset,
                old(self).rate as int,
            ));
        }
        Some(slot)
    }

    /// Handles a note-off: shortens the matching voice's end sample to
    /// `current + offset`, never lengthening it; a pitch no voice holds
    /// is ignored.
    pub fn note_off(&mut self, pitch: u8, offset: i64)
        requires
            old(self).wf(),
            pitch <= 127,
            0 <= offset <= MAX_PHASE,
        ensures
            final(self).wf(),
            final(self).current_sample == old(self).current_sample,
            final(self).rate == old(self).rate,
            final(self).dropped_events == old(self).dropped_events,
            final(self).voices@.len() == old(self).voices@.len(),
            ({
                let m = spec_find_match(old(self).voices@, pitch as int);
                match m {
                    Some(i) => {
                        &&& final(self).voices@[i]@ == (VoiceRep {
                            end_sample: if old(self).voices@[i].end_sample
                                <= old(self).current_sample + offset {
                                old(self).voices@[i].end_sample as int
                            } else {
                                old(self).current_sample + offset
                            },
                            ..old(self).voices@[i]@
                        })
                        &&& forall|j: int|
                            0 <= j < old(self).voices@.len() && j != i ==> final(self).voices@[j]
                                == old(self).voices@[j]
                    },
                    None => final(self).voices@ == old(self).voices@,
                }
            }),
    {
        proof {
            lemma_find_match_spec(self.voices@, pitch as int, 0);
        }
        let pool = self.voices.len();
        let mut i: usize = 0;
        while i < pool
            invariant
                pool == self.voices@.len(),
                self.voices@ == old(self).voices@,
                self.current_sample == old(self).current_sample,
                self.dropped_events == old(self).dropped_events,
                self.rate == old(self).rate,
                old(self).wf(),
                0 <= offset <= MAX_PHASE,
                i <= pool,
                spec_find_match_from(self.voices@, pitch as int, 0) == spec_find_match_from(
                    self.voices@,
                    pitch as int,
                    i as int,
                ),
            decreases pool - i,
        {
            if self.voices[i].note == pitch as i64 {
                let until = self.current_sample + offset;
                let mut v = self.voices.remove(i);
                if until < v.end_sample {
                    v.end_sample = until;
                }
                self.voices.insert(i, v);
                proof {
                    assert(final(self).voices@ =~= old(self).voices@.update(i as int, v));
                    assert(final(self).voices@[i as int]@ =~~= (VoiceRep {
                        end_sample: if old(self).voices@[i as int].end_sample <= old(
                            self,
                        ).current_sample + offset {
                            old(self).voices@[i as int].end_sample as int
                        } else {
                            old(self).current_sample + offset
                        },
                        ..old(self).voices@[i as int]@
                    }));
                }
                return ;
            }
            i = i + 1;
        }
    }

    /// Moves the running sample position forward by one rendered block.
    pub fn advance(&mut self, n: usize)
        requires
            old(self).wf(),
            old(self).current_sample + n <= MAX_PHASE,
        ensures
            final(self).wf(),
            *final(self) == (VoiceAllocator {
                current_sample: (old(self).current_sample + n) as i64,
                ..*old(self)
            }),
    {
        self.current_sample = self.current_sample + n as i64;
    }
}

/// Copies a designed coefficient list so each voice owns its cascade.
fn clone_coeffs(cs: &Vec<BiQuadCoeffs>) -> (r: Vec<BiQuadCoeffs>)
    ensures
        r@ =~= cs@,
{
    let mut r: Vec<BiQuadCoeffs> = Vec::new();
    let mut i: usize = 0;
    while i < cs.len()
        invariant
            i <= cs@.len(),
            r@ =~= cs@.subrange(0, i as int),
        decreases cs@.len() - i,
    {
        r.push(cs[i]);
        i = i + 1;
    }
    proof {
        assert(cs@.subrange(0, cs@.len() as int) =~= cs@);
    }
    r
}

} // verus!
