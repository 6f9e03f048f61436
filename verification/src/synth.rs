//! The synthesizer engine: decoded events drive a fixed voice pool,
//! and each block is rendered by mixing the voices' samples.
//!
//! Control values arrive once per block and are held in a
//! [`ControlState`]; a note-on snapshots them into the chosen voice, so
//! later control changes leave sounding voices alone. The engine also
//! carries the block-rate routing graph wired exactly as this
//! synthesizer's classic single-chain patch (see
//! [`build_default_rack`]), which control events keep fed; it can be
//! evaluated independently through [`crate::module::Rack::feed_all`].

use vstd::prelude::*;
use crate::envelope::{EnvelopeParams, clamp_stage, clamp_gain, clamp_stage_exec, clamp_gain_exec,
    MAX_STAGE};
use crate::event::{SynthEvent, SynthEventBody, SynthProperty};
use crate::filter::{butterworth_lpf, spec_butterworth_valid, spec_butterworth_section,
    STATE_LIMIT};
use crate::fixed::{FP_ONE, FP_HALF, qdiv, iabs, muldiv_q, sat_i64, spec_sat_i64,
    lemma_mul_abs_bound};
use crate::midi::MidiEvent;
use crate::module::{Rack, RackError, ModuleKind, ModuleInfo, ConnectorInfo, ConnectionInfo,
    Connection, BufferModule, Attenuverter, Oscillator, Envelope, DataIn, spec_clamp_ctl,
    clamp_ctl, spec_resolve, spec_resolved, spec_feed_rel, spec_data_of};
use crate::oscillator::{Waveform, MAX_PHASE};
use crate::voice::{VoiceAllocator, VoiceTemplate, SecondaryTemplate, VoiceRep, Voice,
    spec_voice_sample, spec_choose_slot, spec_count_inc};
use vstd::string::StringExecFns;

verus! {

/// Number of voices in the pool.
pub const VOICE_POOL: usize = 4;

/// Butterworth order used for the per-voice low-pass cascade.
pub const FILTER_ORDER: u32 = 2;

/// Largest block length one render call accepts.
pub const MAX_BLOCK: usize = 1048576;

/// Buffer port index: envelope attack control.
pub const PORT_ENV_ATTACK: usize = 0;

/// Buffer port index: envelope decay control.
pub const PORT_ENV_DECAY: usize = 1;

/// Buffer port index: envelope sustain control.
pub const PORT_ENV_SUSTAIN: usize = 2;

/// Buffer port index: envelope release control.
pub const PORT_ENV_RELEASE: usize = 3;

/// Buffer port index: filter cutoff control.
pub const PORT_FILTER_FREQ: usize = 4;

/// Buffer port index: primary waveform selector.
pub const PORT_WAVEFORM: usize = 5;

/// Buffer port index: secondary waveform selector.
pub const PORT_SEC_WAVEFORM: usize = 6;

/// Buffer port index: secondary depth.
pub const PORT_SEC_DEPTH: usize = 7;

/// Buffer port index: secondary frequency multiplier.
pub const PORT_SEC_FREQ: usize = 8;

/// Buffer port index: note frequency control.
pub const PORT_NOTE_FREQ: usize = 9;

/// Buffer port index: note velocity.
pub const PORT_NOTE_VELOCITY: usize = 10;

/// Buffer port index: note trigger.
pub const PORT_NOTE_TRIGGER: usize = 11;

/// Module index of the output buffer in the default rack; its single
/// port collects the rendered block.
pub const OUT_BUFFER_MODULE: usize = 6;

/// The control values sampled once per block, in fixed point.
#[derive(Debug, Clone, Copy, PartialEq, Eq, Structural)]
pub struct ControlState {
    pub waveform: i64,
    pub attack: i64,
    pub decay: i64,
    pub sustain: i64,
    pub release: i64,
    pub sec_waveform: i64,
    pub sec_depth: i64,
    pub sec_freq_mul: i64,
    pub filter_cutoff: i64,
    pub filter_on: bool,
}

impl ControlState {
    /// All controls start at zero: sine wave, instant envelope, no
    /// FM, filter bypassed.
    pub fn new() -> (r: ControlState)
        ensures
            r == (ControlState {
                waveform: 0,
                attack: 0,
                decay: 0,
                sustain: 0,
                release: 0,
                sec_waveform: 0,
                sec_depth: 0,
                sec_freq_mul: 0,
                filter_cutoff: 0,
                filter_on: false,
            }),
    {
        ControlState {
            waveform: 0,
            attack: 0,
            decay: 0,
            sustain: 0,
            release: 0,
            sec_waveform: 0,
            sec_depth: 0,
            sec_freq_mul: 0,
            filter_cutoff: 0,
            filter_on: false,
        }
    }
}

/// A stage control converted to samples: one unit of control is ten
/// seconds, clamped into the legal stage range.
pub open spec fn spec_ctl_stage(ctl: int, rate: int) -> i64 {
    clamp_stage(qdiv(ctl * (10 * rate), FP_ONE as int) as i64)
}

/// Converts one stage control to samples.
pub fn ctl_stage(ctl: i64, rate: u32) -> (r: i64)
    requires
        iabs(ctl as int) <= STATE_LIMIT,
        rate >= 1,
    ensures
        r == spec_ctl_stage(ctl as int, rate as int),
        0 <= r <= MAX_STAGE,
{
    let rate10: i64 = 10 * (rate as i64);
    proof {
        lemma_mul_abs_bound(ctl as int, rate10 as int, STATE_LIMIT as int, 42949672960);
    }
    clamp_stage_exec(muldiv_q(ctl, rate10, FP_ONE))
}

/// The envelope parameters a control snapshot produces.
pub open spec fn spec_ctl_env(c: ControlState, rate: int) -> EnvelopeParams {
    EnvelopeParams {
        attack: spec_ctl_stage(c.attack as int, rate),
        decay: spec_ctl_stage(c.decay as int, rate),
        sustain: clamp_gain(c.sustain),
        release: spec_ctl_stage(c.release as int, rate),
    }
}

impl ControlState {
    /// Whether the snapshot's values are within the rack's working
    /// range (they are clamped on every update).
    pub open spec fn wf(self) -> bool {
        &&& iabs(self.waveform as int) <= STATE_LIMIT
        &&& iabs(self.attack as int) <= STATE_LIMIT
        &&& iabs(self.decay as int) <= STATE_LIMIT
        &&& iabs(self.sustain as int) <= STATE_LIMIT
        &&& iabs(self.release as int) <= STATE_LIMIT
        &&& iabs(self.sec_waveform as int) <= STATE_LIMIT
        &&& iabs(self.sec_depth as int) <= STATE_LIMIT
        &&& iabs(self.sec_freq_mul as int) <= STATE_LIMIT
        &&& iabs(self.filter_cutoff as int) <= STATE_LIMIT
    }

    /// Builds the per-voice snapshot a note-on copies into its voice:
    /// the waveform and duty cycle, the secondary (FM) settings when a
    /// nonzero depth is configured, the envelope in samples, and the
    /// designed filter cascade when the filter is enabled and its
    /// parameters are valid (degenerate parameters fall back to
    /// bypass).
    pub fn to_template(&self, rate: u32) -> (tpl: VoiceTemplate)
        requires
            self.wf(),
            rate >= 1,
        ensures
            tpl.wf(),
            tpl.wave == crate::oscillator::spec_waveform_from(self.waveform as int),
            tpl.duty == FP_HALF,
            tpl.env == spec_ctl_env(*self, rate as int),
            (tpl.secondary matches Some(st) && st.wave
                == crate::oscillator::spec_waveform_from(self.sec_waveform as int) && st.freq_mul
                == (if self.sec_freq_mul < 0 {
                0
            } else {
                self.sec_freq_mul
            }) && st.depth == clamp_gain(self.sec_depth)) <==> self.sec_depth != 0,
            tpl.secondary is None <==> self.sec_depth == 0,
            tpl.filter_coeffs is Some <==> (self.filter_on && spec_butterworth_valid(
                FILTER_ORDER as int,
                self.filter_cutoff as int,
                rate as int,
            )),
            tpl.filter_coeffs matches Some(cs) ==> {
                &&& cs@.len() == (FILTER_ORDER + 1) / 2
                &&& forall|k: int|
                    0 <= k < cs@.len() ==> (#[trigger] cs@[k])@ == spec_butterworth_section(
                        FILTER_ORDER as int,
                        self.filter_cutoff as int,
                        rate as int,
                        k,
                    )
            },
    {
        let wave = Waveform::from_data(self.waveform);
        let env = EnvelopeParams {
            attack: ctl_stage(self.attack, rate),
            decay: ctl_stage(self.decay, rate),
            sustain: clamp_gain_exec(self.sustain),
            release: ctl_stage(self.release, rate),
        };
        let secondary = if self.sec_depth != 0 {
            Some(
                SecondaryTemplate {
                    wave: Waveform::from_data(self.sec_waveform),
                    freq_mul: if self.sec_freq_mul < 0 {
                        0
                    } else {
                        self.sec_freq_mul
                    },
                    depth: clamp_gain_exec(self.sec_depth),
                },
            )
        } else {
            None
        };
        let filter_coeffs = if self.filter_on {
            match butterworth_lpf(FILTER_ORDER, self.filter_cutoff, rate) {
                Ok(cs) => Some(cs),
                Err(_) => None,
            }
        } else {
            None
        };
        VoiceTemplate { wave, duty: FP_HALF, secondary, env, filter_coeffs }
    }
}


/// The connections of the classic patch, resolved to module and port
/// indices (modules in declaration order: control buffer, depth and
/// velocity attenuverters, primary and secondary oscillators, the
/// envelope, the output buffer).
pub open spec fn spec_default_connections() -> Seq<Connection> {
    seq![
        Connection { mod_in: 5, input: 0, mod_out: 0, output: 0 },
        Connection { mod_in: 5, input: 1, mod_out: 0, output: 1 },
        Connection { mod_in: 5, input: 2, mod_out: 0, output: 2 },
        Connection { mod_in: 5, input: 3, mod_out: 0, output: 3 },
        Connection { mod_in: 5, input: 4, mod_out: 0, output: 11 },
        Connection { mod_in: 3, input: 0, mod_out: 0, output: 5 },
        Connection { mod_in: 3, input: 1, mod_out: 0, output: 9 },
        Connection { mod_in: 1, input: 0, mod_out: 0, output: 7 },
        Connection { mod_in: 4, input: 1, mod_out: 0, output: 8 },
        Connection { mod_in: 4, input: 0, mod_out: 0, output: 6 },
        Connection { mod_in: 1, input: 1, mod_out: 4, output: 0 },
        Connection { mod_in: 3, input: 2, mod_out: 1, output: 0 },
        Connection { mod_in: 2, input: 0, mod_out: 0, output: 10 },
        Connection { mod_in: 2, input: 1, mod_out: 3, output: 0 },
        Connection { mod_in: 5, input: 5, mod_out: 2, output: 0 },
        Connection { mod_in: 6, input: 0, mod_out: 5, output: 0 }
    ]
}

/// The exact shape of the freshly built classic patch: seven modules
/// in declaration order, each with its named ports at their defaults
/// and its state at zero.
pub open spec fn spec_default_rack_shape(rack: Rack, rate: u32) -> bool {
    &&& rack.modules@.len() == 7
    &&& rack.modules@[0] matches ModuleKind::Buffer(b) && b.data@.len() == 12 && {
        &&& b.data@[0].name@ == "envelope_attack"@ && b.data@[0].default == 0 && b.data@[0].v is None
        &&& b.data@[1].name@ == "envelope_decay"@ && b.data@[1].default == 0 && b.data@[1].v is None
        &&& b.data@[2].name@ == "envelope_sustain"@ && b.data@[2].default == 0 && b.data@[2].v is None
        &&& b.data@[3].name@ == "envelope_release"@ && b.data@[3].default == 0 && b.data@[3].v is None
        &&& b.data@[4].name@ == "filter_frequency"@ && b.data@[4].default == 0 && b.data@[4].v is None
        &&& b.data@[5].name@ == "waveform_type"@ && b.data@[5].default == 0 && b.data@[5].v is None
        &&& b.data@[6].name@ == "sec_waveform_type"@ && b.data@[6].default == 0 && b.data@[6].v is None
        &&& b.data@[7].name@ == "sec_waveform_depth"@ && b.data@[7].default == 0 && b.data@[7].v is None
        &&& b.data@[8].name@ == "sec_waveform_freq"@ && b.data@[8].default == 0 && b.data@[8].v is None
        &&& b.data@[9].name@ == "note_freq"@ && b.data@[9].default == 0 && b.data@[9].v is None
        &&& b.data@[10].name@ == "note_velocity"@ && b.data@[10].default == 0 && b.data@[10].v is None
        &&& b.data@[11].name@ == "note_trigger"@ && b.data@[11].default == 0 && b.data@[11].v is None
    }
    &&& rack.modules@[1] matches ModuleKind::Attenuverter(a) && spec_fresh_attenuverter(a)
    &&& rack.modules@[2] matches ModuleKind::Attenuverter(a) && spec_fresh_attenuverter(a)
    &&& rack.modules@[3] matches ModuleKind::Oscillator(o) && spec_fresh_oscillator(o, rate)
    &&& rack.modules@[4] matches ModuleKind::Oscillator(o) && spec_fresh_oscillator(o, rate)
    &&& rack.modules@[5] matches ModuleKind::Envelope(e) && spec_fresh_envelope(e, rate)
    &&& rack.modules@[6] matches ModuleKind::Buffer(ob) && ob.data@.len() == 1 && ob.data@[
        0].name@ == "output"@ && ob.data@[0].default == 0 && ob.data@[0].v is None
    &&& rack.connections@.len() == 16
    &&& rack.connections@.to_multiset() == spec_default_connections().to_multiset()
    &&& rack.ordered()
    &&& rack.wf()
}

/// A just-built attenuverter: both ports named, empty, at their
/// defaults.
pub open spec fn spec_fresh_attenuverter(a: Attenuverter) -> bool {
    &&& a.data@.len() == 2
    &&& a.data@[0].name@ == "attenuation"@ && a.data@[0].default == FP_ONE && a.data@[0].v is None
    &&& a.data@[1].name@ == "signal"@ && a.data@[1].default == 0 && a.data@[1].v is None
}

/// A just-built oscillator module: four named empty ports, phase zero.
pub open spec fn spec_fresh_oscillator(o: Oscillator, rate: u32) -> bool {
    &&& o.rate == rate
    &&& o.t == 0
    &&& o.data@.len() == 4
    &&& o.data@[0].name@ == "primary"@ && o.data@[0].default == 0 && o.data@[0].v is None
    &&& o.data@[1].name@ == "freq_in"@ && o.data@[1].default == 0 && o.data@[1].v is None
    &&& o.data@[2].name@ == "fm_in"@ && o.data@[2].default == 0 && o.data@[2].v is None
    &&& o.data@[3].name@ == "duty_cycle_in"@ && o.data@[3].default == FP_HALF && o.data@[
        3].v is None
}

/// A just-built envelope module: six named empty ports, counters zero.
pub open spec fn spec_fresh_envelope(e: Envelope, rate: u32) -> bool {
    &&& e.rate == rate
    &&& e.t == 0 && e.t_trig == 0 && e.n_trig_1 == true
    &&& e.data@.len() == 6
    &&& e.data@[0].name@ == "attack"@ && e.data@[0].default == FP_ONE / 10 && e.data@[0].v is None
    &&& e.data@[1].name@ == "decay"@ && e.data@[1].default == FP_ONE && e.data@[1].v is None
    &&& e.data@[2].name@ == "sustain"@ && e.data@[2].default == FP_ONE && e.data@[2].v is None
    &&& e.data@[3].name@ == "release"@ && e.data@[3].default == FP_ONE / 10 && e.data@[
        3].v is None
    &&& e.data@[4].name@ == "trigger"@ && e.data@[4].default == 0 && e.data@[4].v is None
    &&& e.data@[5].name@ == "signal"@ && e.data@[5].default == 0 && e.data@[5].v is None
}


/// The control snapshot after applying one property: recognized
/// properties replace their fields (clamped into range); transport
/// frame and speed change nothing.
pub open spec fn spec_apply_prop_controls(c: ControlState, prop: SynthProperty) -> ControlState {
    match prop {
        SynthProperty::Frame(_) => c,
        SynthProperty::Speed(_) => c,
        SynthProperty::Waveform(w) => ControlState {
            waveform: spec_clamp_ctl(w as int) as i64,
            ..c
        },
        SynthProperty::Secondary(w, dp, m) => ControlState {
            sec_waveform: spec_clamp_ctl(w as int) as i64,
            sec_depth: spec_clamp_ctl(dp as int) as i64,
            sec_freq_mul: spec_clamp_ctl(m as int) as i64,
            ..c
        },
        SynthProperty::Envelope(a, d, sst, rl) => ControlState {
            attack: spec_clamp_ctl(a as int) as i64,
            decay: spec_clamp_ctl(d as int) as i64,
            sustain: spec_clamp_ctl(sst as int) as i64,
            release: spec_clamp_ctl(rl as int) as i64,
            ..c
        },
        SynthProperty::FilterFreq(f) => ControlState {
            filter_cutoff: spec_clamp_ctl(f as int) as i64,
            ..c
        },
        SynthProperty::FilterOn(b) => ControlState { filter_on: b, ..c },
    }
}

/// The rack-port routing of one property: each recognized control
/// property is forwarded to its control-buffer port (the envelope and
/// secondary properties to their three or four ports in order); the
/// rest leave the rack untouched.
pub open spec fn spec_apply_prop_rack(pre: Rack, post: Rack, prop: SynthProperty) -> bool {
    match prop {
        SynthProperty::Frame(_) => post == pre,
        SynthProperty::Speed(_) => post == pre,
        SynthProperty::FilterOn(_) => post == pre,
        SynthProperty::Waveform(w) => spec_rack_set_rel(pre, post, PORT_WAVEFORM as int, w),
        SynthProperty::FilterFreq(f) => spec_rack_set_rel(pre, post, PORT_FILTER_FREQ as int, f),
        SynthProperty::Secondary(w, dp, m) => exists|r1: Rack, r2: Rack|
            #![trigger spec_rack_set_rel(pre, r1, PORT_SEC_WAVEFORM as int, w),
                spec_rack_set_rel(r2, post, PORT_SEC_FREQ as int, m)]
            {
                &&& spec_rack_set_rel(pre, r1, PORT_SEC_WAVEFORM as int, w)
                &&& spec_rack_set_rel(r1, r2, PORT_SEC_DEPTH as int, dp)
                &&& spec_rack_set_rel(r2, post, PORT_SEC_FREQ as int, m)
            },
        SynthProperty::Envelope(a, d, sst, rl) => exists|r1: Rack, r2: Rack, r3: Rack|
            #![trigger spec_rack_set_rel(pre, r1, PORT_ENV_ATTACK as int, a),
                spec_rack_set_rel(r2, r3, PORT_ENV_SUSTAIN as int, sst)]
            {
                &&& spec_rack_set_rel(pre, r1, PORT_ENV_ATTACK as int, a)
                &&& spec_rack_set_rel(r1, r2, PORT_ENV_DECAY as int, d)
                &&& spec_rack_set_rel(r2, r3, PORT_ENV_SUSTAIN as int, sst)
                &&& spec_rack_set_rel(r3, post, PORT_ENV_RELEASE as int, rl)
            },
    }
}

/// The whole effect of one control property on the engine: the
/// control snapshot and the rack ports change as stated; everything
/// else is untouched.
pub open spec fn spec_apply_prop_rel(
    pre: ToneIterator,
    prop: SynthProperty,
    post: ToneIterator,
) -> bool {
    &&& post.rate == pre.rate
    &&& post.voices == pre.voices
    &&& post.decode_errors == pre.decode_errors
    &&& post.config_errors == pre.config_errors
    &&& post.controls == spec_apply_prop_controls(pre.controls, prop)
    &&& spec_apply_prop_rack(pre.rack, post.rack, prop)
}

/// The rack-port routing of one MIDI message: a note-on feeds the
/// note-frequency, trigger and velocity ports (in that order, with
/// the note scaled to `[0, 1]` and the velocity to `[1/2, 1]`); a
/// note-off clears the trigger port; anything else leaves the rack
/// untouched.
pub open spec fn spec_apply_midi_rack(pre: Rack, post: Rack, m: MidiEvent) -> bool {
    match m {
        MidiEvent::NoteOn { note_num, velocity } => exists|r1: Rack, r2: Rack|
            #![trigger spec_rack_set_rel(pre, r1, PORT_NOTE_FREQ as int,
                qdiv((note_num & 0x7f) * FP_ONE, 127) as i64),
                spec_rack_set_rel(r2, post, PORT_NOTE_VELOCITY as int,
                (qdiv((velocity & 0x7f) * FP_ONE, 255) + FP_HALF) as i64)]
            {
                &&& spec_rack_set_rel(
                    pre,
                    r1,
                    PORT_NOTE_FREQ as int,
                    qdiv((note_num & 0x7f) * FP_ONE, 127) as i64,
                )
                &&& spec_rack_set_rel(r1, r2, PORT_NOTE_TRIGGER as int, FP_ONE)
                &&& spec_rack_set_rel(
                    r2,
                    post,
                    PORT_NOTE_VELOCITY as int,
                    (qdiv((velocity & 0x7f) * FP_ONE, 255) + FP_HALF) as i64,
                )
            },
        MidiEvent::NoteOff { note_num, velocity } => spec_rack_set_rel(
            pre,
            post,
            PORT_NOTE_TRIGGER as int,
            0,
        ),
        _ => post == pre,
    }
}

/// The template a note-on snapshots: exactly what
/// [`ControlState::to_template`] states, phrased of a template value.
pub open spec fn spec_template_of(tpl: VoiceTemplate, c: ControlState, rate: int) -> bool {
    &&& tpl.wf()
    &&& tpl.wave == crate::oscillator::spec_waveform_from(c.waveform as int)
    &&& tpl.duty == FP_HALF
    &&& tpl.env == spec_ctl_env(c, rate)
    &&& (tpl.secondary matches Some(st) && st.wave == crate::oscillator::spec_waveform_from(
        c.sec_waveform as int,
    ) && st.freq_mul == (if c.sec_freq_mul < 0 {
        0
    } else {
        c.sec_freq_mul
    }) && st.depth == clamp_gain(c.sec_depth)) <==> c.sec_depth != 0
    &&& (tpl.secondary is None <==> c.sec_depth == 0)
    &&& (tpl.filter_coeffs is Some <==> (c.filter_on && spec_butterworth_valid(
        FILTER_ORDER as int,
        c.filter_cutoff as int,
        rate,
    )))
    &&& tpl.filter_coeffs matches Some(cs) ==> {
        &&& cs@.len() == (FILTER_ORDER + 1) / 2
        &&& forall|k: int|
            0 <= k < cs@.len() ==> (#[trigger] cs@[k])@ == spec_butterworth_section(
                FILTER_ORDER as int,
                c.filter_cutoff as int,
                rate,
                k,
            )
    }
}

/// A block-relative sample offset clamped into the engine's phase
/// domain.
pub open spec fn spec_clamp_offset(offset: i64) -> int {
    if offset < 0 {
        0
    } else if offset > MAX_PHASE {
        MAX_PHASE as int
    } else {
        offset as int
    }
}

/// The whole effect of one decoded MIDI message on the engine: a
/// note-on triggers the pool with a template snapshotted from the
/// current controls (counting a rejected filter design); a note-off
/// shortens the matching voice's end sample; both feed the rack's
/// note ports; any other message changes nothing.
pub open spec fn spec_apply_midi_rel(
    pre: ToneIterator,
    m: MidiEvent,
    offset: i64,
    post: ToneIterator,
) -> bool {
    &&& post.rate == pre.rate
    &&& post.controls == pre.controls
    &&& post.decode_errors == pre.decode_errors
    &&& post.voices.voices@.len() == pre.voices.voices@.len()
    &&& post.voices.current_sample == pre.voices.current_sample
    &&& post.voices.rate == pre.voices.rate
    &&& spec_apply_midi_rack(pre.rack, post.rack, m)
    &&& post.config_errors == (if m is NoteOn && pre.controls.filter_on
        && !spec_butterworth_valid(
        FILTER_ORDER as int,
        pre.controls.filter_cutoff as int,
        pre.rate as int,
    ) {
        spec_count_inc(pre.config_errors)
    } else {
        pre.config_errors
    })
    &&& match m {
        MidiEvent::NoteOn { note_num, velocity } => {
            let pitch = (note_num & 0x7f) as int;
            let chosen = spec_choose_slot(
                pre.voices.voices@,
                pitch,
                pre.voices.current_sample as int,
            );
            exists|tpl: VoiceTemplate|
                {
                    &&& #[trigger] spec_template_of(tpl, pre.controls, pre.rate as int)
                    &&& match chosen {
                        Some(i) => {
                            &&& post.voices.voices@[i]@ == crate::voice::spec_configured_voice(
                                tpl,
                                pitch,
                                (velocity & 0x7f) as int,
                                pre.voices.current_sample + spec_clamp_offset(offset),
                                pre.rate as int,
                            )
                            &&& forall|j: int|
                                0 <= j < pre.voices.voices@.len() && j != i
                                    ==> post.voices.voices@[j] == pre.voices.voices@[j]
                            &&& post.voices.dropped_events == pre.voices.dropped_events
                        },
                        None => {
                            &&& post.voices.voices@ == pre.voices.voices@
                            &&& post.voices.dropped_events == spec_count_inc(
                                pre.voices.dropped_events,
                            )
                        },
                    }
                }
        },
        MidiEvent::NoteOff { note_num, velocity } => {
            let pitch = (note_num & 0x7f) as int;
            let fnd = crate::voice::spec_find_match(pre.voices.voices@, pitch);
            &&& post.voices.dropped_events == pre.voices.dropped_events
            &&& match fnd {
                Some(i) => {
                    &&& post.voices.voices@[i]@ == (VoiceRep {
                        end_sample: if pre.voices.voices@[i].end_sample
                            <= pre.voices.current_sample + spec_clamp_offset(offset) {
                            pre.voices.voices@[i].end_sample as int
                        } else {
                            pre.voices.current_sample + spec_clamp_offset(offset)
                        },
                        ..pre.voices.voices@[i]@
                    })
                    &&& forall|j: int|
                        0 <= j < pre.voices.voices@.len() && j != i ==> post.voices.voices@[j]
                            == pre.voices.voices@[j]
                },
                None => post.voices.voices@ == pre.voices.voices@,
            }
        },
        _ => post.voices == pre.voices,
    }
}

/// The whole effect of one decoded event: a property list applied
/// property by property, or one MIDI message at its sample offset.
pub open spec fn spec_apply_event_rel(
    pre: ToneIterator,
    ev: SynthEvent,
    post: ToneIterator,
) -> bool {
    match ev.body {
        SynthEventBody::SynthProperties(props) => exists|mids: Seq<ToneIterator>|
            {
                &&& mids.len() == props@.len() + 1
                &&& mids[0] == pre
                &&& mids[props@.len() as int] == post
                &&& forall|j: int|
                    0 <= j < props@.len() ==> spec_apply_prop_rel(
                        #[trigger] mids[j],
                        props@[j],
                        mids[j + 1],
                    )
            },
        SynthEventBody::MidiData(m) => spec_apply_midi_rel(pre, m, ev.time_frames, post),
    }
}

/// Builds the engine's classic single-chain patch: a control buffer,
/// a primary and a secondary oscillator, depth and velocity
/// attenuverters, an envelope, and an output buffer, wired so the
/// secondary oscillator phase-modulates the primary and the envelope
/// shapes the velocity-scaled output into the output buffer. Keeping
/// the rendered block in a buffer of its own leaves the module graph
/// free of cycles, which the rack construction rejects outright.
#[verifier::rlimit(100)]
pub fn build_default_rack(rate: u32) -> (r: Result<Rack, RackError>)
    requires
        rate >= 1,
    ensures
        r is Ok,
        r matches Ok(rack) ==> spec_default_rack_shape(rack, rate),
{
    let mut buffer_items: Vec<DataIn> = Vec::new();
    buffer_items.push(DataIn::new(String::from_str("envelope_attack"), 0));
    buffer_items.push(DataIn::new(String::from_str("envelope_decay"), 0));
    buffer_items.push(DataIn::new(String::from_str("envelope_sustain"), 0));
    buffer_items.push(DataIn::new(String::from_str("envelope_release"), 0));
    buffer_items.push(DataIn::new(String::from_str("filter_frequency"), 0));
    buffer_items.push(DataIn::new(String::from_str("waveform_type"), 0));
    buffer_items.push(DataIn::new(String::from_str("sec_waveform_type"), 0));
    buffer_items.push(DataIn::new(String::from_str("sec_waveform_depth"), 0));
    buffer_items.push(DataIn::new(String::from_str("sec_waveform_freq"), 0));
    buffer_items.push(DataIn::new(String::from_str("note_freq"), 0));
    buffer_items.push(DataIn::new(String::from_str("note_velocity"), 0));
    buffer_items.push(DataIn::new(String::from_str("note_trigger"), 0));
    let mut out_items: Vec<DataIn> = Vec::new();
    out_items.push(DataIn::new(String::from_str("output"), 0));
    let mut modules: Vec<ModuleInfo> = Vec::new();
    modules.push(ModuleInfo::new("buffer", ModuleKind::Buffer(BufferModule::new(buffer_items))));
    modules.push(
        ModuleInfo::new("depth_attenuverter", ModuleKind::Attenuverter(Attenuverter::new())),
    );
    modules.push(
        ModuleInfo::new("velocity_attenuverter", ModuleKind::Attenuverter(Attenuverter::new())),
    );
    modules.push(ModuleInfo::new("primary_osc", ModuleKind::Oscillator(Oscillator::new(rate))));
    modules.push(ModuleInfo::new("secondary_osc", ModuleKind::Oscillator(Oscillator::new(rate))));
    modules.push(ModuleInfo::new("envelope", ModuleKind::Envelope(Envelope::new(rate))));
    modules.push(ModuleInfo::new("out_buffer", ModuleKind::Buffer(BufferModule::new(out_items))));
    let mut connections: Vec<ConnectionInfo> = Vec::new();
    connections.push(
        ConnectionInfo::new(
            ConnectorInfo::new("buffer", "envelope_attack"),
            ConnectorInfo::new("envelope", "attack"),
        ),
    );
    connections.push(
        ConnectionInfo::new(
            ConnectorInfo::new("buffer", "envelope_decay"),
            ConnectorInfo::new("envelope", "decay"),
        ),
    );
    connections.push(
        ConnectionInfo::new(
            ConnectorInfo::new("buffer", "envelope_sustain"),
            ConnectorInfo::new("envelope", "sustain"),
        ),
    );
    connections.push(
        ConnectionInfo::new(
            ConnectorInfo::new("buffer", "envelope_release"),
            ConnectorInfo::new("envelope", "release"),
        ),
    );
    connections.push(
        ConnectionInfo::new(
            ConnectorInfo::new("buffer", "note_trigger"),
            ConnectorInfo::new("envelope", "trigger"),
        ),
    );
    connections.push(
        ConnectionInfo::new(
            ConnectorInfo::new("buffer", "waveform_type"),
            ConnectorInfo::new("primary_osc", "primary"),
        ),
    );
    connections.push(
        ConnectionInfo::new(
            ConnectorInfo::new("buffer", "note_freq"),
            ConnectorInfo::new("primary_osc", "freq_in"),
        ),
    );
    connections.push(
        ConnectionInfo::new(
            ConnectorInfo::new("buffer", "sec_waveform_depth"),
            ConnectorInfo::new("depth_attenuverter", "attenuation"),
        ),
    );
    connections.push(
        ConnectionInfo::new(
            ConnectorInfo::new("buffer", "sec_waveform_freq"),
            ConnectorInfo::new("secondary_osc", "freq_in"),
        ),
    );
    connections.push(
        ConnectionInfo::new(
            ConnectorInfo::new("buffer", "sec_waveform_type"),
            ConnectorInfo::new("secondary_osc", "primary"),
        ),
    );
    connections.push(
        ConnectionInfo::new(
            ConnectorInfo::new("secondary_osc", "output"),
            ConnectorInfo::new("depth_attenuverter", "signal"),
        ),
    );
    connections.push(
        ConnectionInfo::new(
            ConnectorInfo::new("depth_attenuverter", "output"),
            ConnectorInfo::new("primary_osc", "fm_in"),
        ),
    );
    connections.push(
        ConnectionInfo::new(
            ConnectorInfo::new("buffer", "note_velocity"),
            ConnectorInfo::new("velocity_attenuverter", "attenuation"),
        ),
    );
    connections.push(
        ConnectionInfo::new(
            ConnectorInfo::new("primary_osc", "output"),
            ConnectorInfo::new("velocity_attenuverter", "signal"),
        ),
    );
    connections.push(
        ConnectionInfo::new(
            ConnectorInfo::new("velocity_attenuverter", "output"),
            ConnectorInfo::new("envelope", "signal"),
        ),
    );
    connections.push(
        ConnectionInfo::new(
            ConnectorInfo::new("envelope", "output"),
            ConnectorInfo::new("out_buffer", "output"),
        ),
    );
    let ghost gm = modules@;
    let ghost gc = connections@;
    proof {
        broadcast use vstd::seq_lib::group_to_multiset_ensures;

        // Resolve the declared patch symbolically: reveal every name,
        // anchor each literal's length and first character so the
        // name searches discharge, then evaluate all sixteen
        // connections and exhibit a rank assignment, which makes the
        // construction's success a theorem rather than a runtime
        // outcome.
        reveal_with_fuel(crate::module::spec_find_module, 9);
        reveal_with_fuel(crate::module::spec_find_port, 14);
        reveal_strlit("buffer");
        reveal_strlit("depth_attenuverter");
        reveal_strlit("velocity_attenuverter");
        reveal_strlit("primary_osc");
        reveal_strlit("secondary_osc");
        reveal_strlit("envelope");
        reveal_strlit("out_buffer");
        reveal_strlit("envelope_attack");
        reveal_strlit("envelope_decay");
        reveal_strlit("envelope_sustain");
        reveal_strlit("envelope_release");
        reveal_strlit("filter_frequency");
        reveal_strlit("waveform_type");
        reveal_strlit("sec_waveform_type");
        reveal_strlit("sec_waveform_depth");
        reveal_strlit("sec_waveform_freq");
        reveal_strlit("note_freq");
        reveal_strlit("note_velocity");
        reveal_strlit("note_trigger");
        reveal_strlit("output");
        reveal_strlit("attack");
        reveal_strlit("decay");
        reveal_strlit("sustain");
        reveal_strlit("release");
        reveal_strlit("trigger");
        reveal_strlit("signal");
        reveal_strlit("attenuation");
        reveal_strlit("primary");
        reveal_strlit("freq_in");
        reveal_strlit("fm_in");
        reveal_strlit("duty_cycle_in");
        assert("buffer"@.len() == 6 && "buffer"@[0] == 'b');
        assert("depth_attenuverter"@.len() == 18 && "depth_attenuverter"@[0] == 'd');
        assert("velocity_attenuverter"@.len() == 21 && "velocity_attenuverter"@[0] == 'v');
        assert("primary_osc"@.len() == 11 && "primary_osc"@[0] == 'p');
        assert("secondary_osc"@.len() == 13 && "secondary_osc"@[0] == 's');
        assert("envelope"@.len() == 8 && "envelope"@[0] == 'e');
        assert("out_buffer"@.len() == 10 && "out_buffer"@[0] == 'o');
        assert("envelope_attack"@.len() == 15 && "envelope_attack"@[0] == 'e');
        assert("envelope_decay"@.len() == 14 && "envelope_decay"@[0] == 'e');
        assert("envelope_sustain"@.len() == 16 && "envelope_sustain"@[0] == 'e');
        assert("envelope_release"@.len() == 16 && "envelope_release"@[0] == 'e');
        assert("filter_frequency"@.len() == 16 && "filter_frequency"@[0] == 'f');
        assert("waveform_type"@.len() == 13 && "waveform_type"@[0] == 'w');
        assert("sec_waveform_type"@.len() == 17 && "sec_waveform_type"@[0] == 's');
        assert("sec_waveform_depth"@.len() == 18 && "sec_waveform_depth"@[0] == 's');
        assert("sec_waveform_freq"@.len() == 17 && "sec_waveform_freq"@[0] == 's');
        assert("note_freq"@.len() == 9 && "note_freq"@[0] == 'n');
        assert("note_velocity"@.len() == 13 && "note_velocity"@[0] == 'n');
        assert("note_trigger"@.len() == 12 && "note_trigger"@[0] == 'n');
        assert("output"@.len() == 6 && "output"@[0] == 'o');
        assert("attack"@.len() == 6 && "attack"@[0] == 'a');
        assert("decay"@.len() == 5 && "decay"@[0] == 'd');
        assert("sustain"@.len() == 7 && "sustain"@[0] == 's');
        assert("release"@.len() == 7 && "release"@[0] == 'r');
        assert("trigger"@.len() == 7 && "trigger"@[0] == 't');
        assert("signal"@.len() == 6 && "signal"@[0] == 's');
        assert("attenuation"@.len() == 11 && "attenuation"@[0] == 'a');
        assert("primary"@.len() == 7 && "primary"@[0] == 'p');
        assert("freq_in"@.len() == 7 && "freq_in"@[0] == 'f');
        assert("fm_in"@.len() == 5 && "fm_in"@[0] == 'f');
        assert("duty_cycle_in"@.len() == 13 && "duty_cycle_in"@[0] == 'd');
        assert("envelope_sustain"@[9] == 's' && "envelope_release"@[9] == 'r');
        assert("sec_waveform_type"@[13] == 't' && "sec_waveform_freq"@[13] == 'f');
        assert(gm.len() == 7);
        assert(gm[0].name@ == "buffer"@);
        assert(crate::module::spec_find_module(gm, "buffer"@, 0) == Some(0int));
        assert(gm[1].name@ == "depth_attenuverter"@);
        assert(crate::module::spec_find_module(gm, "depth_attenuverter"@, 0) == Some(1int));
        assert(gm[2].name@ == "velocity_attenuverter"@);
        assert(crate::module::spec_find_module(gm, "velocity_attenuverter"@, 0) == Some(2int));
        assert(gm[3].name@ == "primary_osc"@);
        assert(crate::module::spec_find_module(gm, "primary_osc"@, 0) == Some(3int));
        assert(gm[4].name@ == "secondary_osc"@);
        assert(crate::module::spec_find_module(gm, "secondary_osc"@, 0) == Some(4int));
        assert(gm[5].name@ == "envelope"@);
        assert(crate::module::spec_find_module(gm, "envelope"@, 0) == Some(5int));
        assert(gm[6].name@ == "out_buffer"@);
        assert(crate::module::spec_find_module(gm, "out_buffer"@, 0) == Some(6int));
        assert(crate::module::spec_connector(gm[0].module, "envelope_attack"@) == Some(0int));
        assert(crate::module::spec_connector(gm[5].module, "attack"@) == Some(0int));
        assert(crate::module::spec_connector(gm[0].module, "envelope_decay"@) == Some(1int));
        assert(crate::module::spec_connector(gm[5].module, "decay"@) == Some(1int));
        assert(crate::module::spec_connector(gm[0].module, "envelope_sustain"@) == Some(2int));
        assert(crate::module::spec_connector(gm[5].module, "sustain"@) == Some(2int));
        assert(crate::module::spec_connector(gm[0].module, "envelope_release"@) == Some(3int));
        assert(crate::module::spec_connector(gm[5].module, "release"@) == Some(3int));
        assert(crate::module::spec_connector(gm[0].module, "note_trigger"@) == Some(11int));
        assert(crate::module::spec_connector(gm[5].module, "trigger"@) == Some(4int));
        assert(crate::module::spec_connector(gm[0].module, "waveform_type"@) == Some(5int));
        assert(crate::module::spec_connector(gm[3].module, "primary"@) == Some(0int));
        assert(crate::module::spec_connector(gm[0].module, "note_freq"@) == Some(9int));
        assert(crate::module::spec_connector(gm[3].module, "freq_in"@) == Some(1int));
        assert(crate::module::spec_connector(gm[0].module, "sec_waveform_depth"@) == Some(7int));
        assert(crate::module::spec_connector(gm[1].module, "attenuation"@) == Some(0int));
        assert(crate::module::spec_connector(gm[0].module, "sec_waveform_freq"@) == Some(8int));
        assert(crate::module::spec_connector(gm[4].module, "freq_in"@) == Some(1int));
        assert(crate::module::spec_connector(gm[0].module, "sec_waveform_type"@) == Some(6int));
        assert(crate::module::spec_connector(gm[4].module, "primary"@) == Some(0int));
        assert(crate::module::spec_connector(gm[4].module, "output"@) == Some(0int));
        assert(crate::module::spec_connector(gm[1].module, "signal"@) == Some(1int));
        assert(crate::module::spec_connector(gm[1].module, "output"@) == Some(0int));
        assert(crate::module::spec_connector(gm[3].module, "fm_in"@) == Some(2int));
        assert(crate::module::spec_connector(gm[0].module, "note_velocity"@) == Some(10int));
        assert(crate::module::spec_connector(gm[2].module, "attenuation"@) == Some(0int));
        assert(crate::module::spec_connector(gm[3].module, "output"@) == Some(0int));
        assert(crate::module::spec_connector(gm[2].module, "signal"@) == Some(1int));
        assert(crate::module::spec_connector(gm[2].module, "output"@) == Some(0int));
        assert(crate::module::spec_connector(gm[5].module, "signal"@) == Some(5int));
        assert(crate::module::spec_connector(gm[5].module, "output"@) == Some(0int));
        assert(crate::module::spec_connector(gm[6].module, "output"@) == Some(0int));
        assert(spec_resolve(gm, gc[0]) == Some(Connection { mod_in: 5, input: 0, mod_out: 0, output: 0 }));
        assert(spec_resolve(gm, gc[1]) == Some(Connection { mod_in: 5, input: 1, mod_out: 0, output: 1 }));
        assert(spec_resolve(gm, gc[2]) == Some(Connection { mod_in: 5, input: 2, mod_out: 0, output: 2 }));
        assert(spec_resolve(gm, gc[3]) == Some(Connection { mod_in: 5, input: 3, mod_out: 0, output: 3 }));
        assert(spec_resolve(gm, gc[4]) == Some(Connection { mod_in: 5, input: 4, mod_out: 0, output: 11 }));
        assert(spec_resolve(gm, gc[5]) == Some(Connection { mod_in: 3, input: 0, mod_out: 0, output: 5 }));
        assert(spec_resolve(gm, gc[6]) == Some(Connection { mod_in: 3, input: 1, mod_out: 0, output: 9 }));
        assert(spec_resolve(gm, gc[7]) == Some(Connection { mod_in: 1, input: 0, mod_out: 0, output: 7 }));
        assert(spec_resolve(gm, gc[8]) == Some(Connection { mod_in: 4, input: 1, mod_out: 0, output: 8 }));
        assert(spec_resolve(gm, gc[9]) == Some(Connection { mod_in: 4, input: 0, mod_out: 0, output: 6 }));
        assert(spec_resolve(gm, gc[10]) == Some(Connection { mod_in: 1, input: 1, mod_out: 4, output: 0 }));
        assert(spec_resolve(gm, gc[11]) == Some(Connection { mod_in: 3, input: 2, mod_out: 1, output: 0 }));
        assert(spec_resolve(gm, gc[12]) == Some(Connection { mod_in: 2, input: 0, mod_out: 0, output: 10 }));
        assert(spec_resolve(gm, gc[13]) == Some(Connection { mod_in: 2, input: 1, mod_out: 3, output: 0 }));
        assert(spec_resolve(gm, gc[14]) == Some(Connection { mod_in: 5, input: 5, mod_out: 2, output: 0 }));
        assert(spec_resolve(gm, gc[15]) == Some(Connection { mod_in: 6, input: 0, mod_out: 5, output: 0 }));
        assert forall|k: int| 0 <= k < gc.len() implies spec_resolve(
            gm,
            #[trigger] gc[k],
        ) is Some by {
            if k == 0 {
                assert(spec_resolve(gm, gc[0]) is Some);
            }
            else if k == 1 {
                assert(spec_resolve(gm, gc[1]) is Some);
            }
            else if k == 2 {
                assert(spec_resolve(gm, gc[2]) is Some);
            }
            else if k == 3 {
                assert(spec_resolve(gm, gc[3]) is Some);
            }
            else if k == 4 {
                assert(spec_resolve(gm, gc[4]) is Some);
            }
            else if k == 5 {
                assert(spec_resolve(gm, gc[5]) is Some);
            }
            else if k == 6 {
                assert(spec_resolve(gm, gc[6]) is Some);
            }
            else if k == 7 {
                assert(spec_resolve(gm, gc[7]) is Some);
            }
            else if k == 8 {
                assert(spec_resolve(gm, gc[8]) is Some);
            }
            else if k == 9 {
                assert(spec_resolve(gm, gc[9]) is Some);
            }
            else if k == 10 {
                assert(spec_resolve(gm, gc[10]) is Some);
            }
            else if k == 11 {
                assert(spec_resolve(gm, gc[11]) is Some);
            }
            else if k == 12 {
                assert(spec_resolve(gm, gc[12]) is Some);
            }
            else if k == 13 {
                assert(spec_resolve(gm, gc[13]) is Some);
            }
            else if k == 14 {
                assert(spec_resolve(gm, gc[14]) is Some);
            }
            else if k == 15 {
                assert(spec_resolve(gm, gc[15]) is Some);
            }
        }
        assert(crate::module::spec_all_resolve(gm, gc));
        assert forall|k: int| 0 <= k < 16 implies #[trigger] spec_resolved(gm, gc)[k]
            == spec_default_connections()[k] by {
            if k == 0 {
                assert(spec_resolved(gm, gc)[0] == spec_default_connections()[0]);
            }
            else if k == 1 {
                assert(spec_resolved(gm, gc)[1] == spec_default_connections()[1]);
            }
            else if k == 2 {
                assert(spec_resolved(gm, gc)[2] == spec_default_connections()[2]);
            }
            else if k == 3 {
                assert(spec_resolved(gm, gc)[3] == spec_default_connections()[3]);
            }
            else if k == 4 {
                assert(spec_resolved(gm, gc)[4] == spec_default_connections()[4]);
            }
            else if k == 5 {
                assert(spec_resolved(gm, gc)[5] == spec_default_connections()[5]);
            }
            else if k == 6 {
                assert(spec_resolved(gm, gc)[6] == spec_default_connections()[6]);
            }
            else if k == 7 {
                assert(spec_resolved(gm, gc)[7] == spec_default_connections()[7]);
            }
            else if k == 8 {
                assert(spec_resolved(gm, gc)[8] == spec_default_connections()[8]);
            }
            else if k == 9 {
                assert(spec_resolved(gm, gc)[9] == spec_default_connections()[9]);
            }
            else if k == 10 {
                assert(spec_resolved(gm, gc)[10] == spec_default_connections()[10]);
            }
            else if k == 11 {
                assert(spec_resolved(gm, gc)[11] == spec_default_connections()[11]);
            }
            else if k == 12 {
                assert(spec_resolved(gm, gc)[12] == spec_default_connections()[12]);
            }
            else if k == 13 {
                assert(spec_resolved(gm, gc)[13] == spec_default_connections()[13]);
            }
            else if k == 14 {
                assert(spec_resolved(gm, gc)[14] == spec_default_connections()[14]);
            }
            else if k == 15 {
                assert(spec_resolved(gm, gc)[15] == spec_default_connections()[15]);
            }
        }
        assert(spec_resolved(gm, gc) =~= spec_default_connections());
        let ranks: Seq<int> = seq![0int, 2int, 4int, 3int, 1int, 5int, 6int];
        assert forall|k: int| 0 <= k < spec_resolved(gm, gc).len() implies ranks[(
        #[trigger] spec_resolved(gm, gc)[k]).mod_out as int] < ranks[spec_resolved(gm, gc)[
            k].mod_in as int] by {
            if k == 0 {
                assert(ranks[0] < ranks[5]);
            }
            else if k == 1 {
                assert(ranks[0] < ranks[5]);
            }
            else if k == 2 {
                assert(ranks[0] < ranks[5]);
            }
            else if k == 3 {
                assert(ranks[0] < ranks[5]);
            }
            else if k == 4 {
                assert(ranks[0] < ranks[5]);
            }
            else if k == 5 {
                assert(ranks[0] < ranks[3]);
            }
            else if k == 6 {
                assert(ranks[0] < ranks[3]);
            }
            else if k == 7 {
                assert(ranks[0] < ranks[1]);
            }
            else if k == 8 {
                assert(ranks[0] < ranks[4]);
            }
            else if k == 9 {
                assert(ranks[0] < ranks[4]);
            }
            else if k == 10 {
                assert(ranks[4] < ranks[1]);
            }
            else if k == 11 {
                assert(ranks[1] < ranks[3]);
            }
            else if k == 12 {
                assert(ranks[0] < ranks[2]);
            }
            else if k == 13 {
                assert(ranks[3] < ranks[2]);
            }
            else if k == 14 {
                assert(ranks[2] < ranks[5]);
            }
            else if k == 15 {
                assert(ranks[5] < ranks[6]);
            }
        }
        crate::module::lemma_orderable_from_ranks(spec_resolved(gm, gc), 7, ranks);
    }
    let res = Rack::new(modules, connections);
    match res {
        Ok(rack) => {
            proof {
                broadcast use vstd::seq_lib::group_to_multiset_ensures;

                assert(rack.connections@.len() == rack.connections@.to_multiset().len());
                assert(spec_default_connections().to_multiset().len() == 16);
                assert(spec_default_rack_shape(rack, rate));
            }
            Ok(rack)
        },
        Err(e) => {
            proof {
                assert(false);
            }
            Err(e)
        },
    }
}

/// Draws one random value for the noise waveform.
///
/// Relies on rand::random: nothing is assumed of the value drawn.
pub assume_specification<T>[ rand::random::<T> ]() -> (r: T)
    where
        rand::distr::StandardUniform: rand::distr::Distribution<T>,
;

/// One mixed sample of the voice pool at absolute sample `t`,
/// processing voices from slot `i`: the sum of every voice's sample,
/// alongside the voices' advanced filter states. Voice `k` draws its
/// noise from `np[base + k]` and `ns[base + k]`.
pub open spec fn spec_mix(
    voices: Seq<VoiceRep>,
    t: int,
    np: Seq<i64>,
    ns: Seq<i64>,
    base: int,
    i: int,
) -> (Seq<VoiceRep>, int)
    decreases voices.len() - i,
{
    if i < 0 || i >= voices.len() {
        (Seq::empty(), 0int)
    } else {
        let s = spec_voice_sample(voices[i], t, np[base + i] as int, ns[base + i] as int);
        let rest = spec_mix(voices, t, np, ns, base, i + 1);
        (seq![VoiceRep { filter: s.0, ..voices[i] }] + rest.0, s.1 + rest.1)
    }
}

/// The rendered block from sample `j` on: each output sample is the
/// saturated mix of the pool at that instant, and the pool's filter
/// states thread from sample to sample. Sample `j` of voice `k` draws
/// noise `np[j * VOICE_POOL + k]`.
pub open spec fn spec_render(
    voices: Seq<VoiceRep>,
    t0: int,
    j: int,
    n: int,
    np: Seq<i64>,
    ns: Seq<i64>,
) -> (Seq<VoiceRep>, Seq<i64>)
    decreases n - j,
{
    if j >= n {
        (voices, Seq::empty())
    } else {
        let m = spec_mix(voices, t0 + j, np, ns, j * (VOICE_POOL as int), 0);
        let rest = spec_render(m.0, t0, j + 1, n, np, ns);
        (rest.0, seq![spec_sat_i64(m.1) as i64] + rest.1)
    }
}

/// The ghost image of the voice pool.
pub open spec fn spec_pool_view(voices: Seq<Voice>) -> Seq<VoiceRep> {
    voices.map_values(|v: Voice| v@)
}

/// How feeding one value into control-buffer port `port` relates two
/// racks: the port holds the clamped one-sample block, every other
/// port and module is untouched; a rack without that port is
/// unchanged.
pub open spec fn spec_rack_set_rel(pre: Rack, post: Rack, port: int, value: i64) -> bool {
    if pre.modules@.len() > 0 && 0 <= port < spec_data_of(pre.modules@[0]).len() {
        &&& post.connections == pre.connections
        &&& post.modules@.len() == pre.modules@.len()
        &&& forall|j: int| 1 <= j < pre.modules@.len() ==> post.modules@[j] == pre.modules@[j]
        &&& spec_feed_rel(pre.modules@[0], post.modules@[0], port, seq![value])
    } else {
        post == pre
    }
}

/// The synthesizer engine: the sample rate, the voice pool, the
/// per-block control snapshot, the classic control-chain rack, and the
/// running decode-error count for diagnostics.
#[derive(Debug, Clone)]
pub struct ToneIterator {
    pub rate: u32,
    pub voices: VoiceAllocator,
    pub controls: ControlState,
    pub rack: Rack,
    pub decode_errors: u64,
    pub config_errors: u64,
}

impl ToneIterator {
    /// The engine invariant: a well-formed pool of [`VOICE_POOL`]
    /// voices at the engine's rate, clamped controls, a well-formed
    /// rack.
    pub open spec fn wf(self) -> bool {
        &&& self.rate >= 1
        &&& self.voices.wf()
        &&& self.voices.rate == self.rate
        &&& self.voices.voices@.len() == VOICE_POOL
        &&& self.controls.wf()
        &&& self.rack.wf()
    }

    /// Builds an engine for the given sample rate: an idle pool,
    /// zeroed controls, and the classic control-chain rack (an empty
    /// rack if its construction were ever rejected).
    pub fn new(rate: u32) -> (r: ToneIterator)
        requires
            rate >= 1,
        ensures
            r.wf(),
            r.rate == rate,
            r.voices.current_sample == 0,
            r.voices.dropped_events == 0,
            r.decode_errors == 0,
            r.config_errors == 0,
            forall|i: int| 0 <= i < VOICE_POOL ==> (#[trigger] r.voices.voices@[i]).note == -1,
            forall|i: int|
                0 <= i < VOICE_POOL ==> (#[trigger] r.voices.voices@[i]).end_sample == -1,
            forall|i: int|
                0 <= i < VOICE_POOL ==> (#[trigger] r.voices.voices@[i]).start_sample == 0,
            spec_default_rack_shape(r.rack, rate),
    {
        let rack = match build_default_rack(rate) {
            Ok(rk) => rk,
            Err(e) => {
                proof {
                    assert(false);
                }
                Rack { connections: Vec::new(), modules: Vec::new() }
            },
        };
        ToneIterator {
            rate,
            voices: VoiceAllocator::new(VOICE_POOL, rate),
            controls: ControlState::new(),
            rack,
            decode_errors: 0,
            config_errors: 0,
        }
    }

    /// Feeds one value into control-buffer port `port`: the port then
    /// holds that value (clamped) as a one-sample block and nothing
    /// else in the engine changes; a rack without such a port is left
    /// untouched.
    fn rack_set(&mut self, port: usize, value: i64)
        requires
            old(self).wf(),
        ensures
            final(self).wf(),
            final(self).rate == old(self).rate,
            final(self).voices == old(self).voices,
            final(self).controls == old(self).controls,
            final(self).decode_errors == old(self).decode_errors,
            final(self).config_errors == old(self).config_errors,
            spec_rack_set_rel(old(self).rack, final(self).rack, port as int, value),
    {
        if self.rack.modules.len() > 0 && port < self.rack.module_ports(0) {
            let mut v: Vec<i64> = Vec::new();
            v.push(value);
            self.rack.feed_module(0, port, v);
        }
    }

    /// Applies one control property: recognized properties update the
    /// control snapshot (clamped into range) and the rack's control
    /// ports; transport frame and speed are accepted and ignored.
    pub fn apply_property(&mut self, prop: SynthProperty)
        requires
            old(self).wf(),
        ensures
            final(self).wf(),
            spec_apply_prop_rel(*old(self), prop, *final(self)),
    {
        match prop {
            SynthProperty::Frame(_) => {},
            SynthProperty::Speed(_) => {},
            SynthProperty::Waveform(w) => {
                self.controls.waveform = clamp_ctl(w);
                self.rack_set(PORT_WAVEFORM, w);
            },
            SynthProperty::Secondary(w, dp, m) => {
                self.controls.sec_waveform = clamp_ctl(w);
                self.controls.sec_depth = clamp_ctl(dp);
                self.controls.sec_freq_mul = clamp_ctl(m);
                self.rack_set(PORT_SEC_WAVEFORM, w);
                let ghost g1 = self.rack;
                self.rack_set(PORT_SEC_DEPTH, dp);
                let ghost g2 = self.rack;
                self.rack_set(PORT_SEC_FREQ, m);
                proof {
                    assert(spec_rack_set_rel(old(self).rack, g1, PORT_SEC_WAVEFORM as int, w));
                    assert(spec_apply_prop_rack(old(self).rack, self.rack, prop));
                }
            },
            SynthProperty::Envelope(a, d, sst, rl) => {
                self.controls.attack = clamp_ctl(a);
                self.controls.decay = clamp_ctl(d);
                self.controls.sustain = clamp_ctl(sst);
                self.controls.release = clamp_ctl(rl);
                self.rack_set(PORT_ENV_ATTACK, a);
                let ghost g1 = self.rack;
                self.rack_set(PORT_ENV_DECAY, d);
                let ghost g2 = self.rack;
                self.rack_set(PORT_ENV_SUSTAIN, sst);
                let ghost g3 = self.rack;
                self.rack_set(PORT_ENV_RELEASE, rl);
                proof {
                    assert(spec_rack_set_rel(old(self).rack, g1, PORT_ENV_ATTACK as int, a));
                    assert(spec_apply_prop_rack(old(self).rack, self.rack, prop));
                }
            },
            SynthProperty::FilterFreq(f) => {
                self.controls.filter_cutoff = clamp_ctl(f);
                self.rack_set(PORT_FILTER_FREQ, f);
            },
            SynthProperty::FilterOn(b) => {
                self.controls.filter_on = b;
            },
        }
    }

    /// Applies one decoded MIDI message at sample offset `offset`
    /// within the block: a note-on snapshots the current controls and
    /// triggers the voice pool; a note-off releases the matching
    /// voice; other messages are ignored. Returns the voice slot a
    /// note-on used, if any.
    pub fn apply_midi(&mut self, ev: MidiEvent, offset: i64) -> (r: Option<usize>)
        requires
            old(self).wf(),
        ensures
            final(self).wf(),
            spec_apply_midi_rel(*old(self), ev, offset, *final(self)),
            ({
                match ev {
                    MidiEvent::NoteOn { note_num, velocity } => {
                        let chosen = spec_choose_slot(
                            old(self).voices.voices@,
                            (note_num & 0x7f) as int,
                            old(self).voices.current_sample as int,
                        );
                        match chosen {
                            Some(i) => r == Some(i as usize),
                            None => r is None,
                        }
                    },
                    _ => r is None,
                }
            }),
    {
        let off: i64 = if offset < 0 {
            0
        } else if offset > MAX_PHASE {
            MAX_PHASE
        } else {
            offset
        };
        match ev {
            MidiEvent::NoteOn { note_num, velocity } => {
                proof {
                    assert(note_num & 0x7f <= 127 && velocity & 0x7f <= 127) by (bit_vector);
                }
                let tpl = self.controls.to_template(self.rate);
                if self.controls.filter_on && tpl.filter_coeffs.is_none() {
                    // A degenerate filter request fell back to bypass:
                    // report it on the configuration-error counter.
                    if self.config_errors < u64::MAX {
                        self.config_errors = self.config_errors + 1;
                    }
                }
                let slot = self.voices.note_on(note_num & 0x7f, velocity & 0x7f, off, &tpl);
                let freq_ctl = muldiv_q((note_num & 0x7f) as i64, FP_ONE, 127);
                let vel_ctl = muldiv_q((velocity & 0x7f) as i64, FP_ONE, 255) + FP_HALF;
                self.rack_set(PORT_NOTE_FREQ, freq_ctl);
                let ghost g1 = self.rack;
                self.rack_set(PORT_NOTE_TRIGGER, FP_ONE);
                let ghost g2 = self.rack;
                self.rack_set(PORT_NOTE_VELOCITY, vel_ctl);
                proof {
                    assert(spec_rack_set_rel(
                        old(self).rack,
                        g1,
                        PORT_NOTE_FREQ as int,
                        qdiv((note_num & 0x7f) * FP_ONE, 127) as i64,
                    ));
                    assert(spec_apply_midi_rack(old(self).rack, self.rack, ev));
                    assert(spec_template_of(tpl, old(self).controls, old(self).rate as int));
                }
                slot
            },
            MidiEvent::NoteOff { note_num, velocity: _ } => {
                proof {
                    assert(note_num & 0x7f <= 127) by (bit_vector);
                }
                self.voices.note_off(note_num & 0x7f, off);
                self.rack_set(PORT_NOTE_TRIGGER, 0);
                None
            },
            _ => None,
        }
    }

    /// Applies a block's decoded events in order: the final engine
    /// state is reached from the initial one by one
    /// [`spec_apply_event_rel`] step per event.
    pub fn add_data(&mut self, events: Vec<SynthEvent>)
        requires
            old(self).wf(),
        ensures
            final(self).wf(),
            final(self).rate == old(self).rate,
            final(self).decode_errors == old(self).decode_errors,
            final(self).voices.voices@.len() == old(self).voices.voices@.len(),
            final(self).voices.current_sample == old(self).voices.current_sample,
            exists|states: Seq<ToneIterator>|
                {
                    &&& states.len() == events@.len() + 1
                    &&& states[0] == *old(self)
                    &&& states[events@.len() as int] == *final(self)
                    &&& forall|k: int|
                        0 <= k < events@.len() ==> spec_apply_event_rel(
                            #[trigger] states[k],
                            events@[k],
                            states[k + 1],
                        )
                },
    {
        let ghost evs = events@;
        let total: usize = events.len();
        let ghost mut states: Seq<ToneIterator> = seq![*self];
        let mut rest = events;
        let mut done: usize = 0;
        while rest.len() > 0
            invariant
                self.wf(),
                self.rate == old(self).rate,
                self.decode_errors == old(self).decode_errors,
                self.voices.voices@.len() == old(self).voices.voices@.len(),
                self.voices.current_sample == old(self).voices.current_sample,
                total == evs.len(),
                done + rest@.len() == evs.len(),
                rest@ == evs.subrange(done as int, evs.len() as int),
                states.len() == done + 1,
                states[0] == *old(self),
                states[done as int] == *self,
                forall|k: int|
                    0 <= k < done ==> spec_apply_event_rel(
                        #[trigger] states[k],
                        evs[k],
                        states[k + 1],
                    ),
            decreases rest@.len(),
        {
            let ghost pre = *self;
            let ev = rest.remove(0);
            let ghost gev = ev;
            proof {
                assert(gev == evs[done as int]);
                assert(rest@ =~= evs.subrange(done + 1, evs.len() as int));
            }
            match ev.body {
                SynthEventBody::SynthProperties(props) => {
                    let ghost mut mids: Seq<ToneIterator> = seq![*self];
                    let mut i: usize = 0;
                    let pn = props.len();
                    while i < pn
                        invariant
                            self.wf(),
                            self.rate == old(self).rate,
                            self.decode_errors == old(self).decode_errors,
                            self.voices.voices@.len() == old(self).voices.voices@.len(),
                            self.voices.current_sample == old(self).voices.current_sample,
                            pn == props@.len(),
                            i <= pn,
                            mids.len() == i + 1,
                            mids[0] == pre,
                            mids[i as int] == *self,
                            forall|j: int|
                                0 <= j < i ==> spec_apply_prop_rel(
                                    #[trigger] mids[j],
                                    props@[j],
                                    mids[j + 1],
                                ),
                        decreases pn - i,
                    {
                        self.apply_property(props[i]);
                        proof {
                            mids = mids.push(*self);
                        }
                        i = i + 1;
                    }
                    proof {
                        assert(mids[props@.len() as int] == *self);
                        assert(spec_apply_event_rel(pre, gev, *self));
                    }
                },
                SynthEventBody::MidiData(m) => {
                    self.apply_midi(m, ev.time_frames);
                    proof {
                        assert(spec_apply_event_rel(pre, gev, *self));
                    }
                },
            }
            proof {
                states = states.push(*self);
            }
            done = done + 1;
        }
        proof {
            assert(rest@.len() == 0);
            assert(done == evs.len());
        }
    }
}

/// Draws `count` random values for the noise oscillators, each reduced
/// into `[-FP_ONE, FP_ONE]` so a noise waveform is uniform over full
/// scale (up to the negligible bias of reducing a 64-bit draw).
fn draw_noise(count: usize) -> (r: Vec<i64>)
    ensures
        r@.len() == count,
        forall|i: int| 0 <= i < r@.len() ==> -FP_ONE <= #[trigger] r@[i] <= FP_ONE,
{
    let mut r: Vec<i64> = Vec::new();
    let mut i: usize = 0;
    while i < count
        invariant
            i <= count,
            r@.len() == i,
            forall|j: int| 0 <= j < r@.len() ==> -FP_ONE <= #[trigger] r@[j] <= FP_ONE,
        decreases count - i,
    {
        let u: u64 = rand::random::<u64>();
        let v: i64 = (u % 33554433) as i64 - FP_ONE;
        r.push(v);
        i = i + 1;
    }
    r
}

impl ToneIterator {
    /// Renders one block of `samples` output samples: at each instant
    /// every voice is evaluated and the pool's samples are summed
    /// (saturating), threading each voice's filter state forward; the
    /// running sample position advances by the block length. The
    /// existential noise streams stand for the random draws consumed
    /// by `Noise` waveforms; for a pool with no noise voice the output
    /// is independent of them.
    pub fn feed(&mut self, samples: usize) -> (out: Vec<i64>)
        requires
            old(self).wf(),
            samples <= MAX_BLOCK,
            old(self).voices.current_sample + samples <= MAX_PHASE,
        ensures
            final(self).wf(),
            final(self).rate == old(self).rate,
            final(self).controls == old(self).controls,
            final(self).rack == old(self).rack,
            final(self).decode_errors == old(self).decode_errors,
            final(self).config_errors == old(self).config_errors,
            final(self).voices.dropped_events == old(self).voices.dropped_events,
            final(self).voices.current_sample == old(self).voices.current_sample + samples,
            final(self).voices.voices@.len() == old(self).voices.voices@.len(),
            out@.len() == samples,
            forall|i: int|
                0 <= i < out@.len() ==> iabs(#[trigger] out@[i] as int) <= (VOICE_POOL as int)
                    * STATE_LIMIT,
            exists|np: Seq<i64>, ns: Seq<i64>|
                {
                    let r = #[trigger] spec_render(
                        spec_pool_view(old(self).voices.voices@),
                        old(self).voices.current_sample as int,
                        0,
                        samples as int,
                        np,
                        ns,
                    );
                    &&& np.len() == samples * VOICE_POOL
                    &&& ns.len() == samples * VOICE_POOL
                    &&& out@ == r.1
                    &&& spec_pool_view(final(self).voices.voices@) == r.0
                },
    {
        let n = samples;
        let noise_p = draw_noise(n * VOICE_POOL);
        let noise_s = draw_noise(n * VOICE_POOL);
        let ghost np = noise_p@;
        let ghost ns = noise_s@;
        let ghost orig = spec_pool_view(self.voices.voices@);
        let ghost t0 = self.voices.current_sample as int;
        let ghost full = spec_render(orig, t0, 0, n as int, np, ns);
        let t_base = self.voices.current_sample;
        let mut out: Vec<i64> = Vec::new();
        let mut j: usize = 0;
        while j < n
            invariant
                self.wf(),
                self.rate == old(self).rate,
                self.controls == old(self).controls,
                self.rack == old(self).rack,
                self.decode_errors == old(self).decode_errors,
                self.config_errors == old(self).config_errors,
                self.voices.dropped_events == old(self).voices.dropped_events,
                self.voices.current_sample == old(self).voices.current_sample,
                self.voices.voices@.len() == VOICE_POOL,
                t_base == self.voices.current_sample,
                t0 == t_base as int,
                t_base + n <= MAX_PHASE,
                n <= MAX_BLOCK,
                np == noise_p@ && ns == noise_s@,
                noise_p@.len() == n * VOICE_POOL && noise_s@.len() == n * VOICE_POOL,
                full == spec_render(orig, t0, 0, n as int, np, ns),
                j <= n,
                out@.len() == j,
                forall|q: int|
                    0 <= q < out@.len() ==> iabs(#[trigger] out@[q] as int) <= (VOICE_POOL as int)
                        * STATE_LIMIT,
                full.1 =~= out@ + spec_render(
                    spec_pool_view(self.voices.voices@),
                    t0,
                    j as int,
                    n as int,
                    np,
                    ns,
                ).1,
                full.0 == spec_render(
                    spec_pool_view(self.voices.voices@),
                    t0,
                    j as int,
                    n as int,
                    np,
                    ns,
                ).0,
            decreases n - j,
        {
            let t: i64 = t_base + j as i64;
            let ghost row0 = spec_pool_view(self.voices.voices@);
            let ghost base = (j as int) * (VOICE_POOL as int);
            let ghost mixf = spec_mix(row0, t as int, np, ns, base, 0);
            let mut acc: i128 = 0;
            let mut k: usize = 0;
            while k < VOICE_POOL
                invariant
                    self.wf(),
                    self.rate == old(self).rate,
                    self.controls == old(self).controls,
                    self.rack == old(self).rack,
                    self.decode_errors == old(self).decode_errors,
                    self.config_errors == old(self).config_errors,
                    self.voices.dropped_events == old(self).voices.dropped_events,
                    self.voices.current_sample == old(self).voices.current_sample,
                    self.voices.voices@.len() == VOICE_POOL,
                    np == noise_p@ && ns == noise_s@,
                    noise_p@.len() == n * VOICE_POOL && noise_s@.len() == n * VOICE_POOL,
                    j < n,
                    n <= MAX_BLOCK,
                    0 <= t <= MAX_PHASE,
                    base == (j as int) * (VOICE_POOL as int),
                    row0.len() == VOICE_POOL,
                    mixf == spec_mix(row0, t as int, np, ns, base, 0),
                    k <= VOICE_POOL,
                    forall|m: int|
                        k <= m < VOICE_POOL ==> (#[trigger] self.voices.voices@[m])@ == row0[m],
                    mixf.0 =~= spec_pool_view(self.voices.voices@).subrange(0, k as int)
                        + spec_mix(row0, t as int, np, ns, base, k as int).0,
                    mixf.1 == acc + spec_mix(row0, t as int, np, ns, base, k as int).1,
                    iabs(acc as int) <= (k as int) * STATE_LIMIT,
                decreases VOICE_POOL - k,
            {
                proof {
                    assert(0 <= base + k < n * VOICE_POOL) by (nonlinear_arith)
                        requires
                            base == (j as int) * (VOICE_POOL as int) && 0 <= j < n && 0 <= k
                                < VOICE_POOL && VOICE_POOL == 4,
                    ;
                }
                let npv = noise_p[j * VOICE_POOL + k];
                let nsv = noise_s[j * VOICE_POOL + k];
                let mut v = self.voices.voices.remove(k);
                let s = v.sample_at(t, npv, nsv);
                self.voices.voices.insert(k, v);
                proof {
                    let tail = spec_mix(row0, t as int, np, ns, base, k as int);
                    let rest = spec_mix(row0, t as int, np, ns, base, k as int + 1);
                    assert(tail.0 =~= seq![
                        VoiceRep {
                            filter: spec_voice_sample(
                                row0[k as int],
                                t as int,
                                np[base + k] as int,
                                ns[base + k] as int,
                            ).0,
                            ..row0[k as int]
                        },
                    ] + rest.0);
                    assert(v@ == (VoiceRep {
                        filter: spec_voice_sample(
                            row0[k as int],
                            t as int,
                            np[base + k] as int,
                            ns[base + k] as int,
                        ).0,
                        ..row0[k as int]
                    }));
                    assert(spec_pool_view(self.voices.voices@).subrange(0, k as int + 1)
                        =~= spec_pool_view(self.voices.voices@).subrange(0, k as int) + seq![v@]);
                    assert(mixf.0 =~= spec_pool_view(self.voices.voices@).subrange(
                        0,
                        k as int + 1,
                    ) + rest.0);
                }
                acc = acc + (s as i128);
                k = k + 1;
            }
            proof {
                assert(spec_mix(row0, t as int, np, ns, base, VOICE_POOL as int).0
                    =~= Seq::empty());
                assert(spec_pool_view(self.voices.voices@).subrange(0, VOICE_POOL as int)
                    =~= spec_pool_view(self.voices.voices@));
                assert(mixf.0 =~= spec_pool_view(self.voices.voices@));
                let tail = spec_render(row0, t0, j as int, n as int, np, ns);
                let rest = spec_render(mixf.0, t0, j as int + 1, n as int, np, ns);
                assert(t0 + j == t as int);
                assert(tail.0 == rest.0 && tail.1 =~= seq![spec_sat_i64(mixf.1) as i64] + rest.1);
            }
            let sample = sat_i64(acc);
            out.push(sample);
            proof {
                let rest = spec_render(
                    spec_pool_view(self.voices.voices@),
                    t0,
                    j as int + 1,
                    n as int,
                    np,
                    ns,
                );
                assert(full.1 =~= out@ + rest.1);
            }
            j = j + 1;
        }
        proof {
            assert(spec_render(
                spec_pool_view(self.voices.voices@),
                t0,
                n as int,
                n as int,
                np,
                ns,
            ).1 =~= Seq::empty());
            assert(out@ + Seq::<i64>::empty() =~= out@);
            assert(full.1 =~= out@);
            assert(full.0 == spec_pool_view(self.voices.voices@));
        }
        self.voices.advance(samples);
        out
    }

    /// Renders one block without a bound on the running sample
    /// position: in the (astronomically rare) case that the phase
    /// domain would overflow, the pool is reset to silence first.
    pub fn render_block(&mut self, samples: usize) -> (out: Vec<i64>)
        requires
            old(self).wf(),
            samples <= MAX_BLOCK,
        ensures
            final(self).wf(),
            final(self).rate == old(self).rate,
            final(self).controls == old(self).controls,
            final(self).rack == old(self).rack,
            final(self).decode_errors == old(self).decode_errors,
            final(self).config_errors == old(self).config_errors,
            out@.len() == samples,
            forall|i: int|
                0 <= i < out@.len() ==> iabs(#[trigger] out@[i] as int) <= (VOICE_POOL as int)
                    * STATE_LIMIT,
            old(self).voices.current_sample + samples <= MAX_PHASE ==> exists|
                np: Seq<i64>,
                ns: Seq<i64>,
            |
                {
                    let r = #[trigger] spec_render(
                        spec_pool_view(old(self).voices.voices@),
                        old(self).voices.current_sample as int,
                        0,
                        samples as int,
                        np,
                        ns,
                    );
                    &&& np.len() == samples * VOICE_POOL
                    &&& ns.len() == samples * VOICE_POOL
                    &&& out@ == r.1
                    &&& spec_pool_view(final(self).voices.voices@) == r.0
                },
    {
        if self.voices.current_sample > MAX_PHASE - samples as i64 {
            let dropped = self.voices.dropped_events;
            self.voices = VoiceAllocator::new(VOICE_POOL, self.rate);
            self.voices.dropped_events = dropped;
        }
        self.feed(samples)
    }
}

} // verus!
