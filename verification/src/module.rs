//! The routing graph: named modules with named ports, wired once at
//! construction and evaluated per block.
//!
//! A module accepts a block of samples on an input port (`feed`) and
//! produces a block from an output port (`extract`); a length-1 block
//! means "hold this value across the block". Connections are resolved
//! from module and port names when the rack is built; unresolved names
//! and cyclic graphs are construction-time errors, and the accepted
//! connections are reordered so that every producer is evaluated before
//! its consumers within a block.
//!
//! All samples entering a module are clamped into the filter state
//! range, so every module's arithmetic is bounded.

use vstd::prelude::*;
use vstd::string::StringExecFns;
use vstd::assert_by_contradiction;
use vstd::multiset::Multiset;
use crate::filter::STATE_LIMIT;
use crate::fixed::{FP_ONE, FP_HALF, fmul, qdiv, iabs, mul_fp, muldiv_q, div_q, lemma_fmul_abs};
use crate::oscillator::{Waveform, spec_waveform_from, spec_oscillate, oscillate, spec_pitch_freq,
    pitch_freq, MAX_PHASE};
use crate::envelope::{MAX_STAGE, clamp_stage, clamp_gain};

verus! {

/// A sample clamped into the rack's working range.
pub open spec fn spec_clamp_ctl(v: int) -> int {
    if v > STATE_LIMIT {
        STATE_LIMIT as int
    } else if v < -STATE_LIMIT {
        -STATE_LIMIT as int
    } else {
        v
    }
}

/// Clamps one sample into the rack's working range.
pub fn clamp_ctl(v: i64) -> (r: i64)
    ensures
        r == spec_clamp_ctl(v as int),
        iabs(r as int) <= STATE_LIMIT,
{
    if v > STATE_LIMIT {
        STATE_LIMIT
    } else if v < -STATE_LIMIT {
        -STATE_LIMIT
    } else {
        v
    }
}

/// One named input port: the block most recently fed to it, or a
/// default held until something is fed.
#[derive(Debug, Clone)]
pub struct DataIn {
    pub v: Option<Vec<i64>>,
    pub default: i64,
    pub name: String,
}

impl DataIn {
    /// Any stored block is nonempty and in range, as is the default.
    pub open spec fn wf(self) -> bool {
        &&& iabs(self.default as int) <= STATE_LIMIT
        &&& match self.v {
            Some(b) => b@.len() > 0 && forall|i: int|
                0 <= i < b@.len() ==> iabs(#[trigger] b@[i] as int) <= STATE_LIMIT,
            None => true,
        }
    }

    /// An empty port with a (clamped) default value.
    pub fn new(name: String, default: i64) -> (r: DataIn)
        ensures
            r.wf(),
            r.v is None,
            r.name == name,
            r.default == spec_clamp_ctl(default as int),
    {
        DataIn { v: None, default: clamp_ctl(default), name }
    }

    /// The block this port currently holds for reading: what was fed,
    /// or the default held across the block.
    pub open spec fn vals(self) -> Seq<i64> {
        match self.v {
            Some(b) => b@,
            None => seq![self.default],
        }
    }

    /// Takes the port's block, consuming it; an unfed port yields its
    /// default as a length-1 block.
    pub fn get(&mut self) -> (r: Vec<i64>)
        requires
            old(self).wf(),
        ensures
            final(self).wf(),
            final(self).v is None,
            final(self).name == old(self).name,
            final(self).default == old(self).default,
            r@ == old(self).vals(),
            r@.len() > 0,
            forall|i: int| 0 <= i < r@.len() ==> iabs(#[trigger] r@[i] as int) <= STATE_LIMIT,
    {
        let taken = self.v.take();
        match taken {
            Some(b) => b,
            None => {
                let mut d: Vec<i64> = Vec::new();
                d.push(self.default);
                proof {
                    assert(d@ =~= seq![self.default]);
                }
                d
            },
        }
    }

    /// Stores a block on the port; an empty block clears it instead,
    /// so a read never divides by a zero length.
    pub fn set(&mut self, v: Vec<i64>)
        requires
            old(self).wf(),
            forall|i: int| 0 <= i < v@.len() ==> iabs(#[trigger] v@[i] as int) <= STATE_LIMIT,
        ensures
            final(self).wf(),
            final(self).name == old(self).name,
            final(self).default == old(self).default,
            v@.len() > 0 ==> final(self).v == Some(v),
            v@.len() == 0 ==> final(self).v is None,
    {
        if v.len() > 0 {
            self.v = Some(v);
        } else {
            self.v = None;
        }
    }
}

/// Clamps every sample of a block into the rack's working range.
pub fn clamp_block(v: Vec<i64>) -> (r: Vec<i64>)
    ensures
        r@.len() == v@.len(),
        forall|i: int| 0 <= i < v@.len() ==> r@[i] == spec_clamp_ctl(#[trigger] v@[i] as int),
        forall|i: int| 0 <= i < r@.len() ==> iabs(#[trigger] r@[i] as int) <= STATE_LIMIT,
{
    let mut r: Vec<i64> = Vec::new();
    let mut i: usize = 0;
    while i < v.len()
        invariant
            i <= v@.len(),
            r@.len() == i,
            forall|j: int| 0 <= j < i ==> r@[j] == spec_clamp_ctl(#[trigger] v@[j] as int),
            forall|j: int| 0 <= j < i ==> iabs(#[trigger] r@[j] as int) <= STATE_LIMIT,
        decreases v@.len() - i,
    {
        r.push(clamp_ctl(v[i]));
        i = i + 1;
    }
    r
}

/// The first port at or after `i` whose name is `q`.
pub open spec fn spec_find_port(data: Seq<DataIn>, q: Seq<char>, i: int) -> Option<int>
    decreases data.len() - i,
{
    if i < 0 || i >= data.len() {
        None
    } else if data[i].name@ == q {
        Some(i)
    } else {
        spec_find_port(data, q, i + 1)
    }
}

/// Finds a port by name.
pub fn find_port(data: &Vec<DataIn>, name: &String) -> (r: Option<usize>)
    ensures
        match r {
            Some(i) => spec_find_port(data@, name@, 0) == Some(i as int) && i < data@.len(),
            None => spec_find_port(data@, name@, 0) is None,
        },
{
    let n = data.len();
    let mut i: usize = 0;
    while i < n
        invariant
            n == data@.len(),
            i <= n,
            spec_find_port(data@, name@, 0) == spec_find_port(data@, name@, i as int),
        decreases n - i,
    {
        if data[i].name == *name {
            return Some(i);
        }
        i = i + 1;
    }
    None
}

/// The sample a cycled input block supplies at position `i`: blocks
/// shorter than the render length repeat, so a length-1 block holds
/// its value across the block.
pub open spec fn spec_cyc(s: Seq<i64>, i: int) -> int {
    s[i % (s.len() as int)] as int
}

/// Reads the cycled input block at position `i`.
pub fn cyc(s: &Vec<i64>, i: usize) -> (r: i64)
    requires
        s@.len() > 0,
    ensures
        r as int == spec_cyc(s@, i as int),
{
    let n = s.len();
    s[i % n]
}

/// The identity of the attenuverter: scales and inverts a signal by
/// `att * 2 - 1/2`, clamped into the working range.
pub open spec fn spec_attenuvert(att: int, sig: int) -> int {
    spec_clamp_ctl(fmul(2 * att - FP_HALF, sig))
}

/// A buffer: a bank of named ports that holds each fed block and hands
/// it back on extract, leaving the stored value in place.
#[derive(Debug, Clone)]
pub struct BufferModule {
    pub data: Vec<DataIn>,
}

impl BufferModule {
    /// Every port is well-formed.
    pub open spec fn wf(self) -> bool {
        forall|i: int| 0 <= i < self.data@.len() ==> (#[trigger] self.data@[i]).wf()
    }

    /// Builds a buffer over the given ports.
    pub fn new(data: Vec<DataIn>) -> (r: BufferModule)
        requires
            forall|i: int| 0 <= i < data@.len() ==> (#[trigger] data@[i]).wf(),
        ensures
            r.data == data,
            r.wf(),
    {
        BufferModule { data }
    }

    /// Stores a block on port `input`.
    pub fn feed(&mut self, input: usize, v: Vec<i64>)
        requires
            old(self).wf(),
            input < old(self).data@.len(),
            forall|i: int| 0 <= i < v@.len() ==> iabs(#[trigger] v@[i] as int) <= STATE_LIMIT,
        ensures
            final(self).wf(),
            final(self).data@.len() == old(self).data@.len(),
            forall|j: int|
                0 <= j < old(self).data@.len() && j != input ==> final(self).data@[j] == old(
                    self,
                ).data@[j],
            v@.len() > 0 ==> final(self).data@[input as int].v == Some(v),
            v@.len() == 0 ==> final(self).data@[input as int].v is None,
            final(self).data@[input as int].name == old(self).data@[input as int].name,
            final(self).data@[input as int].default == old(self).data@[input as int].default,
    {
        let mut d = self.data.remove(input);
        d.set(v);
        self.data.insert(input, d);
        proof {
            assert(final(self).data@ =~= old(self).data@.update(input as int, d));
        }
    }

    /// Reads the block held on port `output`, leaving it stored.
    pub fn extract(&mut self, output: usize) -> (r: Vec<i64>)
        requires
            old(self).wf(),
            output < old(self).data@.len(),
        ensures
            final(self).wf(),
            final(self).data@.len() == old(self).data@.len(),
            r@ == old(self).data@[output as int].vals(),
            r@.len() > 0,
            forall|i: int| 0 <= i < r@.len() ==> iabs(#[trigger] r@[i] as int) <= STATE_LIMIT,
            forall|j: int|
                0 <= j < old(self).data@.len() && j != output ==> final(self).data@[j] == old(
                    self,
                ).data@[j],
            final(self).data@[output as int].vals() == old(self).data@[output as int].vals(),
    {
        let mut d = self.data.remove(output);
        let val = d.get();
        let copy = clone_samples(&val);
        d.set(copy);
        self.data.insert(output, d);
        proof {
            assert(final(self).data@ =~= old(self).data@.update(output as int, d));
            assert(final(self).data@[output as int].vals() =~= old(
                self,
            ).data@[output as int].vals());
        }
        val
    }
}

/// Copies a block of samples.
fn clone_samples(v: &Vec<i64>) -> (r: Vec<i64>)
    ensures
        r@ =~= v@,
{
    let mut r: Vec<i64> = Vec::new();
    let mut i: usize = 0;
    while i < v.len()
        invariant
            i <= v@.len(),
            r@ =~= v@.subrange(0, i as int),
        decreases v@.len() - i,
    {
        r.push(v[i]);
        i = i + 1;
    }
    proof {
        assert(v@.subrange(0, v@.len() as int) =~= v@);
    }
    r
}

/// An attenuverter: one signal input scaled and inverted by one
/// attenuation input.
#[derive(Debug, Clone)]
pub struct Attenuverter {
    pub data: Vec<DataIn>,
}

impl Attenuverter {
    /// Two well-formed ports: `attenuation` (default full scale) and
    /// `signal` (default zero).
    pub open spec fn wf(self) -> bool {
        &&& self.data@.len() == 2
        &&& forall|i: int| 0 <= i < self.data@.len() ==> (#[trigger] self.data@[i]).wf()
    }

    /// Builds an attenuverter with its two ports.
    pub fn new() -> (r: Attenuverter)
        ensures
            r.wf(),
            r.data@[0].v is None && r.data@[1].v is None,
            r.data@[0].default == FP_ONE && r.data@[1].default == 0,
            r.data@[0].name@ == "attenuation"@,
            r.data@[1].name@ == "signal"@,
    {
        let mut data: Vec<DataIn> = Vec::new();
        data.push(DataIn::new(String::from_str("attenuation"), FP_ONE));
        data.push(DataIn::new(String::from_str("signal"), 0));
        Attenuverter { data }
    }

    /// Applies the attenuverter to one sample pair.
    pub fn attenuvert(val: i64, input: i64) -> (r: i64)
        requires
            iabs(val as int) <= STATE_LIMIT,
            iabs(input as int) <= STATE_LIMIT,
        ensures
            r == spec_attenuvert(val as int, input as int),
            iabs(r as int) <= STATE_LIMIT,
    {
        proof {
            lemma_fmul_abs(
                2 * (val as int) - FP_HALF,
                input as int,
                2 * STATE_LIMIT as int + FP_HALF,
                STATE_LIMIT as int,
            );
        }
        let scaled = mul_fp(2 * val - FP_HALF, input);
        clamp_ctl(scaled)
    }

    /// The block the attenuverter produces from its current inputs.
    pub open spec fn spec_out(att: Seq<i64>, sig: Seq<i64>, n: int) -> Seq<int> {
        Seq::new(n as nat, |i: int| spec_attenuvert(spec_cyc(att, i), spec_cyc(sig, i)))
    }

    /// Produces `len` samples, consuming the stored input blocks.
    pub fn extract(&mut self, len: usize) -> (r: Vec<i64>)
        requires
            old(self).wf(),
        ensures
            final(self).wf(),
            final(self).data@.len() == 2,
            final(self).data@[0].v is None && final(self).data@[1].v is None,
            r@.len() == len,
            r@.map_values(|x: i64| x as int) == Attenuverter::spec_out(
                old(self).data@[0].vals(),
                old(self).data@[1].vals(),
                len as int,
            ),
            forall|i: int| 0 <= i < r@.len() ==> iabs(#[trigger] r@[i] as int) <= STATE_LIMIT,
    {
        let mut d0 = self.data.remove(0);
        let att = d0.get();
        self.data.insert(0, d0);
        let mut d1 = self.data.remove(1);
        let sig = d1.get();
        self.data.insert(1, d1);
        let mut out: Vec<i64> = Vec::new();
        let mut i: usize = 0;
        while i < len
            invariant
                att@.len() > 0,
                sig@.len() > 0,
                forall|j: int| 0 <= j < att@.len() ==> iabs(#[trigger] att@[j] as int)
                    <= STATE_LIMIT,
                forall|j: int| 0 <= j < sig@.len() ==> iabs(#[trigger] sig@[j] as int)
                    <= STATE_LIMIT,
                i <= len,
                out@.len() == i,
                forall|j: int|
                    0 <= j < i ==> #[trigger] out@[j] as int == spec_attenuvert(
                        spec_cyc(att@, j),
                        spec_cyc(sig@, j),
                    ),
                forall|j: int| 0 <= j < i ==> iabs(#[trigger] out@[j] as int) <= STATE_LIMIT,
            decreases len - i,
        {
            let a = cyc(&att, i);
            let s = cyc(&sig, i);
            proof {
                assert(0 <= (i as int) % (att@.len() as int) < att@.len());
                assert(0 <= (i as int) % (sig@.len() as int) < sig@.len());
            }
            out.push(Attenuverter::attenuvert(a, s));
            i = i + 1;
        }
        proof {
            assert(out@.map_values(|x: i64| x as int) =~= Attenuverter::spec_out(
                old(self).data@[0].vals(),
                old(self).data@[1].vals(),
                len as int,
            ));
        }
        out
    }
}

/// The MIDI pitch encoded by a normalized note control value: the
/// value times 127, rounded to the nearest step and clamped into the
/// 7-bit range.
pub open spec fn spec_note_pitch(note: int) -> int {
    let p = qdiv(note * 127 + FP_HALF, FP_ONE as int);
    if p < 0 {
        0
    } else if p > 127 {
        127
    } else {
        p
    }
}

/// Decodes a note control value to a MIDI pitch.
pub fn note_pitch(note: i64) -> (p: i64)
    requires
        iabs(note as int) <= STATE_LIMIT,
    ensures
        p == spec_note_pitch(note as int),
        0 <= p <= 127,
{
    let scaled: i64 = note * 127 + FP_HALF;
    let p = div_q(scaled, FP_ONE);
    if p < 0 {
        0
    } else if p > 127 {
        127
    } else {
        p
    }
}

/// The sample count following `t`: phase wraps to zero after
/// [`MAX_PHASE`] so the accumulator never leaves its domain.
pub open spec fn spec_next_t(t: int) -> int {
    if t >= MAX_PHASE {
        0
    } else {
        t + 1
    }
}

/// One sample of the oscillator module: the note input selects an
/// equal-temperament frequency, the primary input selects the
/// waveform, and the FM and duty inputs pass straight to the waveform
/// engine.
pub open spec fn spec_osc_sample(
    rate: int,
    t: int,
    primary: int,
    note: int,
    fm: int,
    duty: int,
    noise: int,
) -> int {
    spec_oscillate(
        spec_waveform_from(primary),
        t,
        spec_pitch_freq(spec_note_pitch(note), rate),
        fm,
        duty,
        noise,
    )
}

/// An oscillator usable as a rack module: four input ports (waveform
/// selector, note, FM input, duty cycle) and a phase accumulator that
/// advances by one per produced sample.
#[derive(Debug, Clone)]
pub struct Oscillator {
    pub data: Vec<DataIn>,
    pub t: i64,
    pub rate: u32,
}

impl Oscillator {
    /// Four well-formed ports; phase within its domain.
    pub open spec fn wf(self) -> bool {
        &&& self.data@.len() == 4
        &&& forall|i: int| 0 <= i < self.data@.len() ==> (#[trigger] self.data@[i]).wf()
        &&& 0 <= self.t <= MAX_PHASE
        &&& self.rate >= 1
    }

    /// Builds an oscillator module for the given sample rate.
    pub fn new(rate: u32) -> (r: Oscillator)
        requires
            rate >= 1,
        ensures
            r.wf(),
            r.t == 0,
            r.rate == rate,
            forall|i: int| 0 <= i < 4 ==> (#[trigger] r.data@[i]).v is None,
            r.data@[0].name@ == "primary"@ && r.data@[0].default == 0,
            r.data@[1].name@ == "freq_in"@ && r.data@[1].default == 0,
            r.data@[2].name@ == "fm_in"@ && r.data@[2].default == 0,
            r.data@[3].name@ == "duty_cycle_in"@ && r.data@[3].default == FP_HALF,
    {
        let mut data: Vec<DataIn> = Vec::new();
        data.push(DataIn::new(String::from_str("primary"), 0));
        data.push(DataIn::new(String::from_str("freq_in"), 0));
        data.push(DataIn::new(String::from_str("fm_in"), 0));
        data.push(DataIn::new(String::from_str("duty_cycle_in"), FP_HALF));
        Oscillator { data, t: 0, rate }
    }

    /// Produces one sample from the given control values and advances
    /// the phase accumulator.
    pub fn oscillate(&mut self, primary: i64, note: i64, fm_in: i64, duty_cycle_in: i64, noise: i64)
        -> (r: i64)
        requires
            old(self).wf(),
            iabs(primary as int) <= STATE_LIMIT,
            iabs(note as int) <= STATE_LIMIT,
            iabs(fm_in as int) <= STATE_LIMIT,
        ensures
            final(self).wf(),
            final(self).data == old(self).data,
            final(self).rate == old(self).rate,
            final(self).t == spec_next_t(old(self).t as int),
            r == spec_osc_sample(
                old(self).rate as int,
                old(self).t as int,
                primary as int,
                note as int,
                fm_in as int,
                duty_cycle_in as int,
                noise as int,
            ),
            iabs(r as int) <= FP_ONE,
    {
        let pitch = note_pitch(note);
        let freq = pitch_freq(pitch, self.rate);
        let wave = Waveform::from_data(primary);
        let r = oscillate(wave, self.t, freq, fm_in, duty_cycle_in, noise);
        if self.t >= MAX_PHASE {
            self.t = 0;
        } else {
            self.t = self.t + 1;
        }
        r
    }

    /// The block the oscillator produces from its current inputs,
    /// starting at phase `t0`, with `noise` cycled alongside.
    pub open spec fn spec_out(
        rate: int,
        t0: int,
        primary: Seq<i64>,
        note: Seq<i64>,
        fm: Seq<i64>,
        duty: Seq<i64>,
        noise: Seq<i64>,
        n: int,
    ) -> Seq<int> {
        Seq::new(
            n as nat,
            |i: int|
                spec_osc_sample(
                    rate,
                    (t0 + i) % (MAX_PHASE + 1),
                    spec_cyc(primary, i),
                    spec_cyc(note, i),
                    spec_cyc(fm, i),
                    spec_cyc(duty, i),
                    spec_cyc(noise, i),
                ),
        )
    }

    /// Produces `len` samples, consuming the stored input blocks;
    /// `noise` supplies the random draw for each sample position.
    pub fn extract(&mut self, len: usize, noise: &Vec<i64>) -> (r: Vec<i64>)
        requires
            old(self).wf(),
            noise@.len() > 0,
            forall|i: int| 0 <= i < noise@.len() ==> iabs(#[trigger] noise@[i] as int)
                <= STATE_LIMIT,
        ensures
            final(self).wf(),
            final(self).rate == old(self).rate,
            final(self).t == (old(self).t + len) % (MAX_PHASE + 1),
            final(self).data@.len() == 4,
            forall|i: int| 0 <= i < 4 ==> (#[trigger] final(self).data@[i]).v is None,
            r@.len() == len,
            r@.map_values(|x: i64| x as int) == Oscillator::spec_out(
                old(self).rate as int,
                old(self).t as int,
                old(self).data@[0].vals(),
                old(self).data@[1].vals(),
                old(self).data@[2].vals(),
                old(self).data@[3].vals(),
                noise@,
                len as int,
            ),
            forall|i: int| 0 <= i < r@.len() ==> iabs(#[trigger] r@[i] as int) <= FP_ONE,
    {
        let mut d0 = self.data.remove(0);
        let prim = d0.get();
        self.data.insert(0, d0);
        let mut d1 = self.data.remove(1);
        let note = d1.get();
        self.data.insert(1, d1);
        let mut d2 = self.data.remove(2);
        let fm = d2.get();
        self.data.insert(2, d2);
        let mut d3 = self.data.remove(3);
        let duty = d3.get();
        self.data.insert(3, d3);
        let ghost t0 = self.t as int;
        proof {
            assert(t0 % (MAX_PHASE + 1) == t0) by (nonlinear_arith)
                requires
                    0 <= t0 <= MAX_PHASE,
            ;
        }
        let mut out: Vec<i64> = Vec::new();
        let mut i: usize = 0;
        while i < len
            invariant
                self.wf(),
                self.rate == old(self).rate,
                self.data@.len() == 4,
                forall|k: int| 0 <= k < 4 ==> (#[trigger] self.data@[k]).v is None,
                self.data@[0].name == old(self).data@[0].name,
                prim@.len() > 0 && note@.len() > 0 && fm@.len() > 0 && duty@.len() > 0,
                noise@.len() > 0,
                forall|j: int| 0 <= j < prim@.len() ==> iabs(#[trigger] prim@[j] as int)
                    <= STATE_LIMIT,
                forall|j: int| 0 <= j < note@.len() ==> iabs(#[trigger] note@[j] as int)
                    <= STATE_LIMIT,
                forall|j: int| 0 <= j < fm@.len() ==> iabs(#[trigger] fm@[j] as int)
                    <= STATE_LIMIT,
                forall|j: int| 0 <= j < noise@.len() ==> iabs(#[trigger] noise@[j] as int)
                    <= STATE_LIMIT,
                0 <= t0 <= MAX_PHASE,
                i <= len,
                self.t as int == (t0 + i) % (MAX_PHASE + 1),
                out@.len() == i,
                forall|j: int|
                    0 <= j < i ==> #[trigger] out@[j] as int == spec_osc_sample(
                        old(self).rate as int,
                        (t0 + j) % (MAX_PHASE + 1),
                        spec_cyc(prim@, j),
                        spec_cyc(note@, j),
                        spec_cyc(fm@, j),
                        spec_cyc(duty@, j),
                        spec_cyc(noise@, j),
                    ),
                forall|j: int| 0 <= j < i ==> iabs(#[trigger] out@[j] as int) <= FP_ONE,
            decreases len - i,
        {
            let p = cyc(&prim, i);
            let nt = cyc(&note, i);
            let f = cyc(&fm, i);
            let dy = cyc(&duty, i);
            let nz = cyc(noise, i);
            proof {
                assert(0 <= (i as int) % (prim@.len() as int) < prim@.len());
                assert(0 <= (i as int) % (note@.len() as int) < note@.len());
                assert(0 <= (i as int) % (fm@.len() as int) < fm@.len());
                assert(0 <= (i as int) % (noise@.len() as int) < noise@.len());
            }
            let v = self.oscillate(p, nt, f, dy, nz);
            out.push(v);
            proof {
                assert(self.t as int == (t0 + i + 1) % (MAX_PHASE + 1)) by (nonlinear_arith)
                    requires
                        self.t as int == spec_next_t((t0 + i) % (MAX_PHASE + 1)),
                        spec_next_t((t0 + i) % (MAX_PHASE + 1)) == (if (t0 + i) % (MAX_PHASE + 1)
                            >= MAX_PHASE {
                            0int
                        } else {
                            (t0 + i) % (MAX_PHASE + 1) + 1
                        }),
                        0 <= t0 + i,
                        MAX_PHASE + 1 > 1,
                ;
            }
            i = i + 1;
        }
        proof {
            assert(out@.map_values(|x: i64| x as int) =~= Oscillator::spec_out(
                old(self).rate as int,
                old(self).t as int,
                old(self).data@[0].vals(),
                old(self).data@[1].vals(),
                old(self).data@[2].vals(),
                old(self).data@[3].vals(),
                noise@,
                len as int,
            ));
        }
        out
    }
}

/// The per-sample gain of the envelope module: while the trigger is
/// high, a linear attack to full scale, a linear decay to the sustain
/// fraction, then sustain; while low, a linear release of the sustain
/// fraction over the release window, measured from the last trigger
/// edge. `rt` is the samples since that edge.
pub open spec fn spec_env_gain(a: int, d: int, s: int, r: int, trig: int, rt: int) -> int {
    if trig > FP_HALF {
        if rt < a {
            qdiv(rt * FP_ONE, a)
        } else if rt < a + d {
            qdiv((FP_ONE - s) * (a + d - rt), d) + s
        } else {
            s
        }
    } else {
        if rt < r {
            qdiv(s * (r - rt), r)
        } else {
            0
        }
    }
}

/// The envelope gain stays within `[0, FP_ONE]` for clamped
/// parameters and a nonnegative age.
pub proof fn lemma_env_gain_bounds(a: int, d: int, s: int, r: int, trig: int, rt: int)
    requires
        0 <= a,
        0 <= d,
        0 <= r,
        0 <= s <= FP_ONE,
        0 <= rt,
    ensures
        0 <= spec_env_gain(a, d, s, r, trig, rt) <= FP_ONE,
{
    if trig > FP_HALF {
        if rt < a {
            assert(0 <= qdiv(rt * FP_ONE, a) <= FP_ONE) by (nonlinear_arith)
                requires
                    0 <= rt < a && a >= 1 && FP_ONE > 0,
            ;
        } else if rt < a + d {
            assert(0 <= qdiv((FP_ONE - s) * (a + d - rt), d) <= FP_ONE - s) by (nonlinear_arith)
                requires
                    a <= rt < a + d && 0 <= s <= FP_ONE,
            ;
        }
    } else {
        if rt < r {
            assert(0 <= qdiv(s * (r - rt), r) <= s) by (nonlinear_arith)
                requires
                    0 <= rt < r && 0 <= s,
            ;
        }
    }
}

/// Stage lengths arrive as control fractions; one unit of control is
/// ten seconds, so the length in samples is `ctl * 10 * rate`, clamped
/// into the stage range.
pub open spec fn spec_env_stage(ctl: int, rate: int) -> int {
    clamp_stage(qdiv(ctl * (10 * rate), FP_ONE as int) as i64) as int
}

/// The state of the envelope module: the running sample count, the
/// sample of the last trigger edge, and whether the trigger was high.
pub struct EnvState {
    pub t: int,
    pub t_trig: int,
    pub high: bool,
}

/// One step of the envelope module: detects a trigger edge, evaluates
/// the gain since the edge, scales the signal, and advances (wrapping
/// both counters together at the end of the phase domain).
pub open spec fn spec_env_step(
    st: EnvState,
    rate: int,
    a_in: int,
    d_in: int,
    s_in: int,
    r_in: int,
    trig: int,
    sig: int,
) -> (EnvState, int) {
    let edge = (st.high && trig < FP_HALF) || (!st.high && trig > FP_HALF);
    let tt = if edge {
        st.t
    } else {
        st.t_trig
    };
    let rt = st.t - tt;
    let g = spec_env_gain(
        spec_env_stage(a_in, rate),
        spec_env_stage(d_in, rate),
        clamp_gain(s_in as i64) as int,
        spec_env_stage(r_in, rate),
        trig,
        rt,
    );
    let out = fmul(sig, g);
    let st2 = if st.t >= MAX_PHASE {
        EnvState { t: 0, t_trig: 0, high: trig > FP_HALF }
    } else {
        EnvState { t: st.t + 1, t_trig: tt, high: trig > FP_HALF }
    };
    (st2, out)
}

/// The block the envelope module produces from its inputs, threading
/// its state sample by sample.
pub open spec fn spec_env_run(
    st: EnvState,
    rate: int,
    a: Seq<i64>,
    d: Seq<i64>,
    s: Seq<i64>,
    r: Seq<i64>,
    trig: Seq<i64>,
    sig: Seq<i64>,
    i: int,
    n: int,
) -> (Seq<int>, EnvState)
    decreases n - i,
{
    if i >= n {
        (Seq::empty(), st)
    } else {
        let step = spec_env_step(
            st,
            rate,
            spec_cyc(a, i),
            spec_cyc(d, i),
            spec_cyc(s, i),
            spec_cyc(r, i),
            spec_cyc(trig, i),
            spec_cyc(sig, i),
        );
        let rest = spec_env_run(step.0, rate, a, d, s, r, trig, sig, i + 1, n);
        (seq![step.1] + rest.0, rest.1)
    }
}

/// An ADSR envelope usable as a rack module: six input ports (attack,
/// decay, sustain, release, trigger, signal) and the trigger-edge
/// state.
#[derive(Debug, Clone)]
pub struct Envelope {
    pub data: Vec<DataIn>,
    pub rate: u32,
    pub t: i64,
    pub t_trig: i64,
    pub n_trig_1: bool,
}

impl Envelope {
    /// Ghost image of the module state.
    pub open spec fn st(self) -> EnvState {
        EnvState { t: self.t as int, t_trig: self.t_trig as int, high: self.n_trig_1 }
    }

    /// Six well-formed ports; counters within the phase domain.
    pub open spec fn wf(self) -> bool {
        &&& self.data@.len() == 6
        &&& forall|i: int| 0 <= i < self.data@.len() ==> (#[trigger] self.data@[i]).wf()
        &&& 0 <= self.t_trig <= self.t <= MAX_PHASE
        &&& self.rate >= 1
    }

    /// Builds an envelope module for the given sample rate.
    pub fn new(rate: u32) -> (r: Envelope)
        requires
            rate >= 1,
        ensures
            r.wf(),
            r.t == 0 && r.t_trig == 0 && r.n_trig_1 == true,
            r.rate == rate,
            forall|i: int| 0 <= i < 6 ==> (#[trigger] r.data@[i]).v is None,
            r.data@[0].name@ == "attack"@ && r.data@[0].default == FP_ONE / 10,
            r.data@[1].name@ == "decay"@ && r.data@[1].default == FP_ONE,
            r.data@[2].name@ == "sustain"@ && r.data@[2].default == FP_ONE,
            r.data@[3].name@ == "release"@ && r.data@[3].default == FP_ONE / 10,
            r.data@[4].name@ == "trigger"@ && r.data@[4].default == 0,
            r.data@[5].name@ == "signal"@ && r.data@[5].default == 0,
    {
        let mut data: Vec<DataIn> = Vec::new();
        data.push(DataIn::new(String::from_str("attack"), FP_ONE / 10));
        data.push(DataIn::new(String::from_str("decay"), FP_ONE));
        data.push(DataIn::new(String::from_str("sustain"), FP_ONE));
        data.push(DataIn::new(String::from_str("release"), FP_ONE / 10));
        data.push(DataIn::new(String::from_str("trigger"), 0));
        data.push(DataIn::new(String::from_str("signal"), 0));
        Envelope { data, rate, t: 0, n_trig_1: true, t_trig: 0 }
    }

    /// Evaluates one sample: scales `sig_n` by the current envelope
    /// gain and advances the trigger-edge state.
    pub fn envelope(&mut self, ar: i64, dr: i64, s: i64, rr: i64, trig: i64, sig_n: i64) -> (r: i64)
        requires
            old(self).wf(),
            iabs(ar as int) <= STATE_LIMIT,
            iabs(dr as int) <= STATE_LIMIT,
            iabs(rr as int) <= STATE_LIMIT,
            iabs(sig_n as int) <= STATE_LIMIT,
        ensures
            final(self).wf(),
            final(self).data == old(self).data,
            final(self).rate == old(self).rate,
            (final(self).st(), r as int) == spec_env_step(
                old(self).st(),
                old(self).rate as int,
                ar as int,
                dr as int,
                s as int,
                rr as int,
                trig as int,
                sig_n as int,
            ),
            iabs(r as int) <= STATE_LIMIT,
    {
        let rate10: i64 = 10 * (self.rate as i64);
        proof {
            crate::fixed::lemma_mul_abs_bound(
                ar as int,
                rate10 as int,
                STATE_LIMIT as int,
                42949672960,
            );
            crate::fixed::lemma_mul_abs_bound(
                dr as int,
                rate10 as int,
                STATE_LIMIT as int,
                42949672960,
            );
            crate::fixed::lemma_mul_abs_bound(
                rr as int,
                rate10 as int,
                STATE_LIMIT as int,
                42949672960,
            );
        }
        let a = crate::envelope::clamp_stage_exec(muldiv_q(ar, rate10, FP_ONE));
        let d = crate::envelope::clamp_stage_exec(muldiv_q(dr, rate10, FP_ONE));
        let rl = crate::envelope::clamp_stage_exec(muldiv_q(rr, rate10, FP_ONE));
        let se = crate::envelope::clamp_gain_exec(s);
        let edge = (self.n_trig_1 && trig < FP_HALF) || (!self.n_trig_1 && trig > FP_HALF);
        if edge {
            self.t_trig = self.t;
        }
        let rt = self.t - self.t_trig;
        let g: i64 = if trig > FP_HALF {
            if rt < a {
                proof {
                    assert(0 <= (rt as int) * (FP_ONE as int) <= i64::MAX * (a as int))
                        by (nonlinear_arith)
                        requires
                            0 <= rt < a && 0 < FP_ONE < i64::MAX,
                    ;
                }
                muldiv_q(rt, FP_ONE, a)
            } else if rt - a < d {
                proof {
                    assert((FP_ONE - se) as int * ((a + d - rt) as int) == (FP_ONE - se) * (a + d
                        - rt));
                    assert(0 <= (FP_ONE - se) * (a + d - rt) <= i64::MAX * (d as int))
                        by (nonlinear_arith)
                        requires
                            a <= rt && rt - a < d && 0 <= se <= FP_ONE && FP_ONE < i64::MAX,
                    ;
                }
                let g0 = muldiv_q(FP_ONE - se, a + d - rt, d);
                proof {
                    assert(0 <= qdiv((FP_ONE - se) * (a + d - rt), d as int) <= FP_ONE - se)
                        by (nonlinear_arith)
                        requires
                            a <= rt < a + d && 0 <= se <= FP_ONE,
                    ;
                }
                g0 + se
            } else {
                se
            }
        } else {
            if rt < rl {
                proof {
                    assert(0 <= (se as int) * ((rl - rt) as int) <= i64::MAX * (rl as int))
                        by (nonlinear_arith)
                        requires
                            0 <= rt < rl && 0 <= se <= FP_ONE && FP_ONE < i64::MAX,
                    ;
                }
                muldiv_q(se, rl - rt, rl)
            } else {
                0
            }
        };
        proof {
            lemma_env_gain_bounds(a as int, d as int, se as int, rl as int, trig as int, rt as int);
            lemma_fmul_abs(sig_n as int, g as int, STATE_LIMIT as int, FP_ONE as int);
        }
        let out = mul_fp(sig_n, g);
        if self.t >= MAX_PHASE {
            self.t = 0;
            self.t_trig = 0;
        } else {
            self.t = self.t + 1;
        }
        self.n_trig_1 = trig > FP_HALF;
        proof {
            assert(iabs(out as int) * (FP_ONE as int) <= STATE_LIMIT * (FP_ONE as int));
            assert(iabs(out as int) <= STATE_LIMIT) by (nonlinear_arith)
                requires
                    iabs(out as int) * (FP_ONE as int) <= STATE_LIMIT * (FP_ONE as int) && FP_ONE
                        > 0,
            ;
        }
        out
    }

    /// Produces `len` samples, consuming the stored input blocks.
    pub fn extract(&mut self, len: usize) -> (r: Vec<i64>)
        requires
            old(self).wf(),
        ensures
            final(self).wf(),
            final(self).rate == old(self).rate,
            final(self).data@.len() == 6,
            forall|i: int| 0 <= i < 6 ==> (#[trigger] final(self).data@[i]).v is None,
            ({
                let run = spec_env_run(
                    old(self).st(),
                    old(self).rate as int,
                    old(self).data@[0].vals(),
                    old(self).data@[1].vals(),
                    old(self).data@[2].vals(),
                    old(self).data@[3].vals(),
                    old(self).data@[4].vals(),
                    old(self).data@[5].vals(),
                    0,
                    len as int,
                );
                &&& r@.len() == len
                &&& r@.map_values(|x: i64| x as int) == run.0
                &&& final(self).st() == run.1
            }),
            forall|i: int| 0 <= i < r@.len() ==> iabs(#[trigger] r@[i] as int) <= STATE_LIMIT,
    {
        let mut d0 = self.data.remove(0);
        let a = d0.get();
        self.data.insert(0, d0);
        let mut d1 = self.data.remove(1);
        let d = d1.get();
        self.data.insert(1, d1);
        let mut d2 = self.data.remove(2);
        let s = d2.get();
        self.data.insert(2, d2);
        let mut d3 = self.data.remove(3);
        let rl = d3.get();
        self.data.insert(3, d3);
        let mut d4 = self.data.remove(4);
        let trig = d4.get();
        self.data.insert(4, d4);
        let mut d5 = self.data.remove(5);
        let sig = d5.get();
        self.data.insert(5, d5);
        let ghost st0 = self.st();
        let ghost full = spec_env_run(
            st0,
            self.rate as int,
            a@,
            d@,
            s@,
            rl@,
            trig@,
            sig@,
            0,
            len as int,
        );
        let mut out: Vec<i64> = Vec::new();
        let mut i: usize = 0;
        while i < len
            invariant
                self.wf(),
                self.rate == old(self).rate,
                self.data@.len() == 6,
                forall|k: int| 0 <= k < 6 ==> (#[trigger] self.data@[k]).v is None,
                a@.len() > 0 && d@.len() > 0 && s@.len() > 0 && rl@.len() > 0 && trig@.len() > 0
                    && sig@.len() > 0,
                forall|j: int| 0 <= j < a@.len() ==> iabs(#[trigger] a@[j] as int) <= STATE_LIMIT,
                forall|j: int| 0 <= j < d@.len() ==> iabs(#[trigger] d@[j] as int) <= STATE_LIMIT,
                forall|j: int| 0 <= j < rl@.len() ==> iabs(#[trigger] rl@[j] as int)
                    <= STATE_LIMIT,
                forall|j: int| 0 <= j < sig@.len() ==> iabs(#[trigger] sig@[j] as int)
                    <= STATE_LIMIT,
                i <= len,
                out@.len() == i,
                full == spec_env_run(
                    st0,
                    self.rate as int,
                    a@,
                    d@,
                    s@,
                    rl@,
                    trig@,
                    sig@,
                    0,
                    len as int,
                ),
                full.0 =~= out@.map_values(|x: i64| x as int) + spec_env_run(
                    self.st(),
                    self.rate as int,
                    a@,
                    d@,
                    s@,
                    rl@,
                    trig@,
                    sig@,
                    i as int,
                    len as int,
                ).0,
                full.1 == spec_env_run(
                    self.st(),
                    self.rate as int,
                    a@,
                    d@,
                    s@,
                    rl@,
                    trig@,
                    sig@,
                    i as int,
                    len as int,
                ).1,
                forall|j: int| 0 <= j < i ==> iabs(#[trigger] out@[j] as int) <= STATE_LIMIT,
            decreases len - i,
        {
            let av = cyc(&a, i);
            let dv = cyc(&d, i);
            let sv = cyc(&s, i);
            let rv = cyc(&rl, i);
            let tv = cyc(&trig, i);
            let gv = cyc(&sig, i);
            proof {
                assert(0 <= (i as int) % (a@.len() as int) < a@.len());
                assert(0 <= (i as int) % (d@.len() as int) < d@.len());
                assert(0 <= (i as int) % (rl@.len() as int) < rl@.len());
                assert(0 <= (i as int) % (sig@.len() as int) < sig@.len());
            }
            let ghost pre = self.st();
            let v = self.envelope(av, dv, sv, rv, tv, gv);
            out.push(v);
            proof {
                let tail = spec_env_run(
                    pre,
                    self.rate as int,
                    a@,
                    d@,
                    s@,
                    rl@,
                    trig@,
                    sig@,
                    i as int,
                    len as int,
                );
                let rest = spec_env_run(
                    self.st(),
                    self.rate as int,
                    a@,
                    d@,
                    s@,
                    rl@,
                    trig@,
                    sig@,
                    i as int + 1,
                    len as int,
                );
                assert(tail.0 =~= seq![v as int] + rest.0 && tail.1 == rest.1);
                assert(out@.map_values(|x: i64| x as int) =~= out@.subrange(
                    0,
                    out@.len() - 1,
                ).map_values(|x: i64| x as int) + seq![v as int]);
                assert(full.0 =~= out@.map_values(|x: i64| x as int) + rest.0);
            }
            i = i + 1;
        }
        proof {
            assert(spec_env_run(
                self.st(),
                self.rate as int,
                a@,
                d@,
                s@,
                rl@,
                trig@,
                sig@,
                len as int,
                len as int,
            ).0 =~= Seq::empty());
            let m = out@.map_values(|x: i64| x as int);
            assert(m + Seq::<int>::empty() =~= m);
        }
        out
    }
}

/// The closed set of module kinds a rack can hold, dispatched by
/// exhaustive matching.
#[derive(Debug, Clone)]
pub enum ModuleKind {
    Buffer(BufferModule),
    Attenuverter(Attenuverter),
    Oscillator(Oscillator),
    Envelope(Envelope),
}

/// The port bank of a module.
pub open spec fn spec_data_of(m: ModuleKind) -> Seq<DataIn> {
    match m {
        ModuleKind::Buffer(b) => b.data@,
        ModuleKind::Attenuverter(a) => a.data@,
        ModuleKind::Oscillator(o) => o.data@,
        ModuleKind::Envelope(e) => e.data@,
    }
}

/// Whether a module kind is internally well-formed.
pub open spec fn spec_module_wf(m: ModuleKind) -> bool {
    match m {
        ModuleKind::Buffer(b) => b.wf(),
        ModuleKind::Attenuverter(a) => a.wf(),
        ModuleKind::Oscillator(o) => o.wf(),
        ModuleKind::Envelope(e) => e.wf(),
    }
}

/// The port index a name resolves to on a module: its named port, or
/// port 0 as the conventional output of the single-output kinds.
pub open spec fn spec_connector(m: ModuleKind, q: Seq<char>) -> Option<int> {
    match spec_find_port(spec_data_of(m), q, 0) {
        Some(i) => Some(i),
        None => match m {
            ModuleKind::Buffer(_) => None,
            _ => if q == "output"@ && spec_data_of(m).len() > 0 {
                Some(0int)
            } else {
                None
            },
        },
    }
}

/// Resolves a port name on one port bank, optionally treating
/// `"output"` as port 0 when no port carries the name.
fn connector_of(data: &Vec<DataIn>, name: &String, fallback: bool) -> (r: Option<usize>)
    ensures
        match r {
            Some(i) => (i as int) < data@.len() && (spec_find_port(data@, name@, 0) == Some(
                i as int,
            ) || (spec_find_port(data@, name@, 0) is None && fallback && name@ == "output"@ && i
                == 0)),
            None => spec_find_port(data@, name@, 0) is None && (!fallback || !(name@ == "output"@)
                || data@.len() == 0),
        },
{
    match find_port(data, name) {
        Some(i) => Some(i),
        None => {
            if fallback {
                let out = String::from_str("output");
                if *name == out && data.len() > 0 {
                    Some(0)
                } else {
                    None
                }
            } else {
                None
            }
        },
    }
}

impl ModuleKind {
    /// Resolves a port name on this module.
    pub fn connector(&self, name: &String) -> (r: Option<usize>)
        ensures
            match r {
                Some(i) => spec_connector(*self, name@) == Some(i as int) && (i as int)
                    < spec_data_of(*self).len(),
                None => spec_connector(*self, name@) is None,
            },
    {
        match self {
            ModuleKind::Buffer(b) => connector_of(&b.data, name, false),
            ModuleKind::Attenuverter(a) => connector_of(&a.data, name, true),
            ModuleKind::Oscillator(o) => connector_of(&o.data, name, true),
            ModuleKind::Envelope(e) => connector_of(&e.data, name, true),
        }
    }

    /// Feeds a block into input port `input`, clamping every sample
    /// into the working range. The module's other ports and its
    /// internal state are untouched.
    pub fn feed(&mut self, input: usize, v: Vec<i64>)
        requires
            spec_module_wf(*old(self)),
            input < spec_data_of(*old(self)).len(),
        ensures
            spec_module_wf(*final(self)),
            spec_data_of(*final(self)).len() == spec_data_of(*old(self)).len(),
            forall|j: int|
                0 <= j < spec_data_of(*old(self)).len() && j != input ==> spec_data_of(
                    *final(self),
                )[j] == spec_data_of(*old(self))[j],
            spec_data_of(*final(self))[input as int].vals() == (if v@.len() > 0 {
                v@.map_values(|x: i64| spec_clamp_ctl(x as int) as i64)
            } else {
                seq![spec_data_of(*old(self))[input as int].default]
            }),
            spec_data_of(*final(self))[input as int].name == spec_data_of(*old(self))[
                input as int].name,
            spec_data_of(*final(self))[input as int].default == spec_data_of(*old(self))[
                input as int].default,
            *final(self) is Buffer <==> *old(self) is Buffer,
            *final(self) is Attenuverter <==> *old(self) is Attenuverter,
            *final(self) is Oscillator <==> *old(self) is Oscillator,
            *final(self) is Envelope <==> *old(self) is Envelope,
            *old(self) matches ModuleKind::Oscillator(o0) ==> *final(self) matches
                ModuleKind::Oscillator(o1) && o1.t == o0.t && o1.rate == o0.rate,
            *old(self) matches ModuleKind::Envelope(e0) ==> *final(self) matches
                ModuleKind::Envelope(e1) && e1.t == e0.t && e1.t_trig == e0.t_trig && e1.n_trig_1
                == e0.n_trig_1 && e1.rate == e0.rate,
    {
        let w = clamp_block(v);
        proof {
            assert(w@ =~= w@.map_values(|x: i64| x));
        }
        match self {
            ModuleKind::Buffer(b) => { feed_port(&mut b.data, input, w) },
            ModuleKind::Attenuverter(a) => { feed_port(&mut a.data, input, w) },
            ModuleKind::Oscillator(o) => { feed_port(&mut o.data, input, w) },
            ModuleKind::Envelope(e) => { feed_port(&mut e.data, input, w) },
        }
        proof {
            let iv = input as int;
            if v@.len() > 0 {
                assert(spec_data_of(*final(self))[iv].vals() =~= v@.map_values(
                    |x: i64| spec_clamp_ctl(x as int) as i64,
                ));
            }
        }
    }
}

/// Stores an already-clamped block on port `input` of a port bank.
fn feed_port(data: &mut Vec<DataIn>, input: usize, v: Vec<i64>)
    requires
        forall|i: int| 0 <= i < old(data)@.len() ==> (#[trigger] old(data)@[i]).wf(),
        input < old(data)@.len(),
        forall|i: int| 0 <= i < v@.len() ==> iabs(#[trigger] v@[i] as int) <= STATE_LIMIT,
    ensures
        forall|i: int| 0 <= i < final(data)@.len() ==> (#[trigger] final(data)@[i]).wf(),
        final(data)@.len() == old(data)@.len(),
        forall|j: int|
            0 <= j < old(data)@.len() && j != input ==> final(data)@[j] == old(data)@[j],
        v@.len() > 0 ==> final(data)@[input as int].v == Some(v),
        v@.len() == 0 ==> final(data)@[input as int].v is None,
        final(data)@[input as int].name == old(data)@[input as int].name,
        final(data)@[input as int].default == old(data)@[input as int].default,
{
    let mut d = data.remove(input);
    d.set(v);
    data.insert(input, d);
    proof {
        assert(final(data)@ =~= old(data)@.update(input as int, d));
    }
}

/// A module name paired with one of its port names, as written at
/// graph-construction time.
#[derive(Debug, Clone)]
pub struct ConnectorInfo {
    pub mod_name: String,
    pub mod_conn: String,
}

impl ConnectorInfo {
    /// Names one end of a connection.
    pub fn new(name: &str, conn: &str) -> (r: ConnectorInfo)
        ensures
            r.mod_name@ == name@,
            r.mod_conn@ == conn@,
    {
        ConnectorInfo { mod_name: String::from_str(name), mod_conn: String::from_str(conn) }
    }
}

/// A declared connection: a source connector feeding a destination
/// connector.
#[derive(Debug, Clone)]
pub struct ConnectionInfo {
    pub conn_in: ConnectorInfo,
    pub conn_out: ConnectorInfo,
}

impl ConnectionInfo {
    /// Declares a connection from `conn_out` (source) to `conn_in`
    /// (destination).
    pub fn new(conn_out: ConnectorInfo, conn_in: ConnectorInfo) -> (r: ConnectionInfo)
        ensures
            r.conn_in == conn_in,
            r.conn_out == conn_out,
    {
        ConnectionInfo { conn_in, conn_out }
    }
}

/// A module paired with the name connections refer to it by.
#[derive(Debug, Clone)]
pub struct ModuleInfo {
    pub name: String,
    pub module: ModuleKind,
}

impl ModuleInfo {
    /// Names a module.
    pub fn new(name: &str, module: ModuleKind) -> (r: ModuleInfo)
        ensures
            r.name@ == name@,
            r.module == module,
    {
        ModuleInfo { name: String::from_str(name), module }
    }
}

/// A resolved connection: stable module and port indices.
#[derive(Debug, Clone, Copy, PartialEq, Eq, Structural)]
pub struct Connection {
    pub mod_in: usize,
    pub input: usize,
    pub mod_out: usize,
    pub output: usize,
}

impl Connection {
    /// Packs resolved connection indices.
    pub fn new(mod_out: usize, output: usize, mod_in: usize, input: usize) -> (r: Connection)
        ensures
            r == (Connection { mod_in, input, mod_out, output }),
    {
        Connection { mod_in, input, mod_out, output }
    }
}

/// A resolved input location: a module index and a port offset.
#[derive(Debug, Clone, Copy, PartialEq, Eq, Structural)]
pub struct Connector {
    pub mod_in: usize,
    pub offset: usize,
}

/// Why a rack could not be built.
#[derive(Debug, Clone, Copy, PartialEq, Eq, Structural)]
pub enum RackError {
    /// A connection names a module or port that does not exist.
    UnresolvedName,
    /// The connection graph has a cycle, so no evaluation order puts
    /// every producer before its consumers.
    CyclicGraph,
}

/// The first module at or after `i` whose name is `q`.
pub open spec fn spec_find_module(infos: Seq<ModuleInfo>, q: Seq<char>, i: int) -> Option<int>
    decreases infos.len() - i,
{
    if i < 0 || i >= infos.len() {
        None
    } else if infos[i].name@ == q {
        Some(i)
    } else {
        spec_find_module(infos, q, i + 1)
    }
}

/// The resolved form of one declared connection, if every name
/// resolves.
pub open spec fn spec_resolve(infos: Seq<ModuleInfo>, ci: ConnectionInfo) -> Option<Connection> {
    match spec_find_module(infos, ci.conn_out.mod_name@, 0) {
        None => None,
        Some(mo) => match spec_find_module(infos, ci.conn_in.mod_name@, 0) {
            None => None,
            Some(mi) => match spec_connector(infos[mo].module, ci.conn_out.mod_conn@) {
                None => None,
                Some(po) => match spec_connector(infos[mi].module, ci.conn_in.mod_conn@) {
                    None => None,
                    Some(pi) => Some(
                        Connection {
                            mod_in: mi as usize,
                            input: pi as usize,
                            mod_out: mo as usize,
                            output: po as usize,
                        },
                    ),
                },
            },
        },
    }
}

/// Whether every declared connection resolves.
pub open spec fn spec_all_resolve(infos: Seq<ModuleInfo>, cis: Seq<ConnectionInfo>) -> bool {
    forall|k: int| 0 <= k < cis.len() ==> spec_resolve(infos, #[trigger] cis[k]) is Some
}

/// The resolved connections, in declaration order.
pub open spec fn spec_resolved(infos: Seq<ModuleInfo>, cis: Seq<ConnectionInfo>) -> Seq<
    Connection,
> {
    Seq::new(cis.len(), |k: int| spec_resolve(infos, cis[k]).unwrap())
}

/// Whether some assignment of ranks to the `n` modules makes every
/// connection flow from a lower rank to a higher one; exactly the
/// acyclic graphs have one.
pub open spec fn spec_orderable(conns: Seq<Connection>, n: int) -> bool {
    exists|ranks: Seq<int>|
        ranks.len() == n && forall|k: int|
            0 <= k < conns.len() ==> ranks[(#[trigger] conns[k]).mod_out as int] < ranks[
                conns[k].mod_in as int]
}

/// A concrete rank assignment under which every connection flows
/// upward witnesses that the graph is orderable.
pub proof fn lemma_orderable_from_ranks(conns: Seq<Connection>, n: int, ranks: Seq<int>)
    requires
        ranks.len() == n,
        forall|k: int|
            0 <= k < conns.len() ==> ranks[(#[trigger] conns[k]).mod_out as int] < ranks[
                conns[k].mod_in as int],
    ensures
        spec_orderable(conns, n),
{
}

/// If every unselected module still waits on an unselected producer,
/// and some module is unselected, then no rank assignment orders the
/// graph: the unselected module of least rank would still wait on an
/// unselected producer of even lower rank.
proof fn lemma_stall_unorderable(conns: Seq<Connection>, sel: Seq<bool>, n: int)
    requires
        sel.len() == n,
        forall|c: int| 0 <= c < conns.len() ==> 0 <= (#[trigger] conns[c]).mod_out < n && 0 <= conns[
            c].mod_in < n,
        exists|m: int| 0 <= m < n && !sel[m],
        forall|m: int|
            0 <= m < n && !(#[trigger] sel[m]) ==> exists|c: int|
                0 <= c < conns.len() && (#[trigger] conns[c]).mod_in == m && !sel[conns[
                    c].mod_out as int],
    ensures
        !spec_orderable(conns, n),
{
    assert_by_contradiction!(!spec_orderable(conns, n), {
        let ranks = choose|ranks: Seq<int>|
            ranks.len() == n && forall|k: int|
                0 <= k < conns.len() ==> ranks[(#[trigger] conns[k]).mod_out as int] < ranks[
                    conns[k].mod_in as int];
        let m0 = lemma_min_unselected(ranks, sel, n);
        let c = choose|c: int|
            0 <= c < conns.len() && (#[trigger] conns[c]).mod_in == m0 && !sel[conns[
                c].mod_out as int];
        assert(ranks[conns[c].mod_out as int] < ranks[m0]);
    });
}

/// Returns an unselected module whose rank is least among the
/// unselected modules.
proof fn lemma_min_unselected(ranks: Seq<int>, sel: Seq<bool>, n: int) -> (m0: int)
    requires
        ranks.len() == sel.len(),
        0 <= n <= sel.len(),
        exists|m: int| 0 <= m < n && !sel[m],
    ensures
        0 <= m0 < n && !sel[m0 as int],
        forall|m: int| 0 <= m < n && !sel[m] ==> ranks[m0 as int] <= ranks[m],
    decreases n,
{
    let w = choose|m: int| 0 <= m < n && !sel[m];
    if w == n - 1 {
        if exists|m: int| 0 <= m < n - 1 && !sel[m] {
            let rest = lemma_min_unselected(ranks, sel, n - 1);
            if ranks[rest] <= ranks[n - 1] {
                rest
            } else {
                n - 1
            }
        } else {
            n - 1
        }
    } else {
        assert(0 <= w < n - 1 && !sel[w]);
        let rest = lemma_min_unselected(ranks, sel, n - 1);
        if n - 1 < n && !sel[n - 1] {
            if ranks[rest] <= ranks[n - 1] {
                rest
            } else {
                n - 1
            }
        } else {
            rest
        }
    }
}

/// The routing graph: the modules it owns by value, and the resolved
/// connections in their verified evaluation order.
#[derive(Debug, Clone)]
pub struct Rack {
    pub connections: Vec<Connection>,
    pub modules: Vec<ModuleKind>,
}

impl Rack {
    /// Every module is well-formed and every connection's indices are
    /// in range.
    pub open spec fn wf(self) -> bool {
        &&& forall|i: int|
            0 <= i < self.modules@.len() ==> spec_module_wf(#[trigger] self.modules@[i])
        &&& forall|k: int|
            0 <= k < self.connections@.len() ==> {
                let c = #[trigger] self.connections@[k];
                &&& (c.mod_out as int) < self.modules@.len()
                &&& (c.mod_in as int) < self.modules@.len()
                &&& (c.output as int) < spec_data_of(self.modules@[c.mod_out as int]).len()
                &&& (c.input as int) < spec_data_of(self.modules@[c.mod_in as int]).len()
            }
    }

    /// The producer-before-consumer guarantee: whenever one ordered
    /// connection feeds the module another reads from, the feeding
    /// connection is evaluated first.
    pub open spec fn ordered(self) -> bool {
        forall|i: int, j: int|
            0 <= i < self.connections@.len() && 0 <= j < self.connections@.len() && (
            #[trigger] self.connections@[i]).mod_in == (#[trigger] self.connections@[j]).mod_out
                ==> i < j
    }

    /// The number of ports module `m` exposes.
    pub fn module_ports(&self, m: usize) -> (r: usize)
        requires
            m < self.modules@.len(),
        ensures
            r == spec_data_of(self.modules@[m as int]).len(),
    {
        match &self.modules[m] {
            ModuleKind::Buffer(b) => b.data.len(),
            ModuleKind::Attenuverter(a) => a.data.len(),
            ModuleKind::Oscillator(o) => o.data.len(),
            ModuleKind::Envelope(e) => e.data.len(),
        }
    }

    /// A read-only view of one module.
    pub fn get(&self, m: usize) -> (r: &ModuleKind)
        requires
            m < self.modules@.len(),
        ensures
            *r == self.modules@[m as int],
    {
        &self.modules[m]
    }
}

/// Finds a module by name.
fn find_module(infos: &Vec<ModuleInfo>, q: &String) -> (r: Option<usize>)
    ensures
        match r {
            Some(i) => spec_find_module(infos@, q@, 0) == Some(i as int) && i < infos@.len(),
            None => spec_find_module(infos@, q@, 0) is None,
        },
{
    let n = infos.len();
    let mut i: usize = 0;
    while i < n
        invariant
            n == infos@.len(),
            i <= n,
            spec_find_module(infos@, q@, 0) == spec_find_module(infos@, q@, i as int),
        decreases n - i,
    {
        if infos[i].name == *q {
            return Some(i);
        }
        i = i + 1;
    }
    None
}

/// Resolves one declared connection against the module list.
fn resolve_conn(infos: &Vec<ModuleInfo>, ci: &ConnectionInfo) -> (r: Option<Connection>)
    ensures
        r == spec_resolve(infos@, *ci),
        r matches Some(c) ==> {
            &&& (c.mod_out as int) < infos@.len()
            &&& (c.mod_in as int) < infos@.len()
            &&& (c.output as int) < spec_data_of(infos@[c.mod_out as int].module).len()
            &&& (c.input as int) < spec_data_of(infos@[c.mod_in as int].module).len()
        },
{
    let mo = match find_module(infos, &ci.conn_out.mod_name) {
        Some(m) => m,
        None => {
            return None;
        },
    };
    let mi = match find_module(infos, &ci.conn_in.mod_name) {
        Some(m) => m,
        None => {
            return None;
        },
    };
    let po = match infos[mo].module.connector(&ci.conn_out.mod_conn) {
        Some(p) => p,
        None => {
            return None;
        },
    };
    let pi = match infos[mi].module.connector(&ci.conn_in.mod_conn) {
        Some(p) => p,
        None => {
            return None;
        },
    };
    Some(Connection { mod_in: mi, input: pi, mod_out: mo, output: po })
}

/// Whether every producer feeding module `m` has already been placed.
fn ready(conns: &Vec<Connection>, sel: &Vec<bool>, m: usize) -> (r: bool)
    requires
        forall|k: int|
            0 <= k < conns@.len() ==> ((#[trigger] conns@[k]).mod_out as int) < sel@.len(),
    ensures
        r <==> forall|k: int|
            0 <= k < conns@.len() && ((#[trigger] conns@[k]).mod_in as int) == m ==> sel@[conns@[
                k].mod_out as int],
{
    let n = conns.len();
    let mut k: usize = 0;
    while k < n
        invariant
            n == conns@.len(),
            k <= n,
            forall|j: int|
                0 <= j < k && ((#[trigger] conns@[j]).mod_in as int) == m ==> sel@[conns@[
                    j].mod_out as int],
            forall|j: int|
                0 <= j < conns@.len() ==> ((#[trigger] conns@[j]).mod_out as int) < sel@.len(),
        decreases n - k,
    {
        if conns[k].mod_in == m && !sel[conns[k].mod_out] {
            return false;
        }
        k = k + 1;
    }
    true
}

impl Rack {
    /// Builds a rack: resolves every declared connection from module
    /// and port names, rejects unresolved names and cyclic graphs
    /// outright, and orders the accepted connections so that every
    /// producer is evaluated before its consumers.
    #[verifier::rlimit(100)]
    pub fn new(module_info: Vec<ModuleInfo>, connection_info: Vec<ConnectionInfo>) -> (r: Result<
        Rack,
        RackError,
    >)
        requires
            forall|i: int|
                0 <= i < module_info@.len() ==> spec_module_wf(
                    (#[trigger] module_info@[i]).module,
                ),
        ensures
            match r {
                Ok(rack) => {
                    &&& spec_all_resolve(module_info@, connection_info@)
                    &&& spec_orderable(
                        spec_resolved(module_info@, connection_info@),
                        module_info@.len() as int,
                    )
                    &&& rack.modules@.len() == module_info@.len()
                    &&& forall|i: int|
                        0 <= i < module_info@.len() ==> rack.modules@[i] == (
                        #[trigger] module_info@[i]).module
                    &&& rack.wf()
                    &&& rack.ordered()
                    &&& rack.connections@.to_multiset() == spec_resolved(
                        module_info@,
                        connection_info@,
                    ).to_multiset()
                },
                Err(RackError::UnresolvedName) => !spec_all_resolve(
                    module_info@,
                    connection_info@,
                ),
                Err(RackError::CyclicGraph) => spec_all_resolve(module_info@, connection_info@)
                    && !spec_orderable(
                    spec_resolved(module_info@, connection_info@),
                    module_info@.len() as int,
                ),
            },
    {
        broadcast use vstd::seq_lib::group_to_multiset_ensures;

        let n = module_info.len();
        // Resolve every declared connection.
        let mut conns: Vec<Connection> = Vec::new();
        let mut ci: usize = 0;
        let cn = connection_info.len();
        while ci < cn
            invariant
                cn == connection_info@.len(),
                n == module_info@.len(),
                ci <= cn,
                conns@.len() == ci,
                forall|k: int|
                    0 <= k < ci ==> spec_resolve(module_info@, #[trigger] connection_info@[k])
                        == Some(conns@[k]),
                forall|k: int|
                    0 <= k < ci ==> {
                        let c = #[trigger] conns@[k];
                        &&& (c.mod_out as int) < n
                        &&& (c.mod_in as int) < n
                        &&& (c.output as int) < spec_data_of(
                            module_info@[c.mod_out as int].module,
                        ).len()
                        &&& (c.input as int) < spec_data_of(
                            module_info@[c.mod_in as int].module,
                        ).len()
                    },
            decreases cn - ci,
        {
            match resolve_conn(&module_info, &connection_info[ci]) {
                Some(c) => {
                    conns.push(c);
                },
                None => {
                    return Err(RackError::UnresolvedName);
                },
            }
            ci = ci + 1;
        }
        let ghost conns0 = conns@;
        proof {
            assert(conns@ =~= spec_resolved(module_info@, connection_info@));
        }
        // Assign each module a rank with every producer below its
        // consumers; stalling means the graph is cyclic.
        let mut sel: Vec<bool> = Vec::new();
        let mut rankv: Vec<usize> = Vec::new();
        let mut z: usize = 0;
        while z < n
            invariant
                z <= n,
                sel@.len() == z,
                rankv@.len() == z,
                forall|m: int| 0 <= m < z ==> !(#[trigger] sel@[m]),
            decreases n - z,
        {
            sel.push(false);
            rankv.push(0);
            z = z + 1;
        }
        let ghost mut selset: Set<int> = Set::empty();
        proof {
            assert(selset =~= Set::new(|m: int| 0 <= m < n && sel@[m]));
            assert(selset.finite() && selset.len() == 0) by {
                assert(selset =~= Set::empty());
            }
        }
        let mut k: usize = 0;
        while k < n
            invariant
                n == module_info@.len(),
                sel@.len() == n,
                rankv@.len() == n,
                k <= n,
                conns@ == spec_resolved(module_info@, connection_info@),
                spec_all_resolve(module_info@, connection_info@),
                forall|q: int|
                    0 <= q < conns@.len() ==> ((#[trigger] conns@[q]).mod_out as int) < n && ((
                    conns@[q]).mod_in as int) < n,
                selset == Set::new(|m: int| 0 <= m < n && sel@[m]),
                selset.finite(),
                selset.len() == k,
                forall|m: int| 0 <= m < n && #[trigger] sel@[m] ==> (rankv@[m] as int) < k,
                forall|q: int|
                    0 <= q < conns@.len() && sel@[(#[trigger] conns@[q]).mod_in as int] ==> sel@[
                        conns@[q].mod_out as int] && (rankv@[conns@[q].mod_out as int] as int)
                        < (rankv@[conns@[q].mod_in as int] as int),
            decreases n - k,
        {
            let mut cand: usize = 0;
            let mut picked: bool = false;
            let mut m: usize = 0;
            while m < n && !picked
                invariant
                    n == sel@.len(),
                    forall|q: int|
                        0 <= q < conns@.len() ==> ((#[trigger] conns@[q]).mod_out as int) < n && ((
                        conns@[q]).mod_in as int) < n,
                    m <= n,
                    !picked ==> forall|w: int|
                        0 <= w < m && !(#[trigger] sel@[w]) ==> exists|q: int|
                            0 <= q < conns@.len() && ((#[trigger] conns@[q]).mod_in as int) == w
                                && !sel@[conns@[q].mod_out as int],
                    picked ==> cand < n && !sel@[cand as int] && forall|q: int|
                        0 <= q < conns@.len() && ((#[trigger] conns@[q]).mod_in as int) == cand
                            ==> sel@[conns@[q].mod_out as int],
                decreases n - m,
            {
                if !sel[m] {
                    if ready(&conns, &sel, m) {
                        picked = true;
                        cand = m;
                    }
                }
                m = m + 1;
            }
            if !picked {
                proof {
                    assert_by_contradiction!(exists|w: int| 0 <= w < n && !sel@[w], {
                        assert(forall|w: int| 0 <= w < n ==> #[trigger] sel@[w]);
                        assert(selset =~= vstd::set_lib::set_int_range(0, n as int));
                        vstd::set_lib::lemma_int_range(0, n as int);
                    });
                    lemma_stall_unorderable(conns@, sel@, n as int);
                }
                return Err(RackError::CyclicGraph);
            }
            sel.set(cand, true);
            rankv.set(cand, k);
            proof {
                let ghost old_set = selset;
                selset = Set::new(|m2: int| 0 <= m2 < n && sel@[m2]);
                assert(selset =~= old_set.insert(cand as int));
                assert(selset.len() == k + 1) by {
                    assert(!old_set.contains(cand as int));
                }
            }
            k = k + 1;
        }
        // All modules are now ranked; every connection flows upward.
        proof {
            assert_by_contradiction!(forall|m: int| 0 <= m < n ==> #[trigger] sel@[m], {
                let w = choose|m: int| 0 <= m < n && !#[trigger] sel@[m];
                assert(selset =~= vstd::set_lib::set_int_range(0, n as int).remove(w).union(
                    selset.intersect(vstd::set_lib::set_int_range(0, n as int).remove(w)),
                ) || true);
                vstd::set_lib::lemma_int_range(0, n as int);
                assert(selset.subset_of(vstd::set_lib::set_int_range(0, n as int).remove(w)));
                vstd::set_lib::lemma_len_subset(
                    selset,
                    vstd::set_lib::set_int_range(0, n as int).remove(w),
                );
                assert(vstd::set_lib::set_int_range(0, n as int).remove(w).len() == n - 1);
            });
            assert(forall|q: int|
                0 <= q < conns0.len() ==> (rankv@[(#[trigger] conns0[q]).mod_out as int] as int)
                    < (rankv@[conns0[q].mod_in as int] as int));
            let ranks = rankv@.map_values(|x: usize| x as int);
            assert(ranks.len() == n && forall|q: int|
                0 <= q < conns0.len() ==> ranks[(#[trigger] conns0[q]).mod_out as int] < ranks[
                    conns0[q].mod_in as int]);
            assert(spec_orderable(conns0, n as int));
        }
        // Sort the connections by the rank of their producer; ties
        // keep declaration order.
        let ghost rank_final = rankv@;
        let mut sorted: Vec<Connection> = Vec::new();
        while conns.len() > 0
            invariant
                n == module_info@.len(),
                rankv@.len() == n,
                forall|q: int|
                    0 <= q < conns@.len() ==> ((#[trigger] conns@[q]).mod_out as int) < n && ((
                    conns@[q]).mod_in as int) < n,
                forall|q: int|
                    0 <= q < sorted@.len() ==> ((#[trigger] sorted@[q]).mod_out as int) < n && ((
                    sorted@[q]).mod_in as int) < n,
                forall|q: int|
                    0 <= q < conns0.len() ==> {
                        let c = #[trigger] conns0[q];
                        &&& (c.mod_out as int) < n
                        &&& (c.mod_in as int) < n
                        &&& (c.output as int) < spec_data_of(
                            module_info@[c.mod_out as int].module,
                        ).len()
                        &&& (c.input as int) < spec_data_of(
                            module_info@[c.mod_in as int].module,
                        ).len()
                    },
                rankv@ == rank_final,
                forall|q: int|
                    0 <= q < conns0.len() ==> (rankv@[(#[trigger] conns0[q]).mod_out as int] as int)
                        < (rankv@[conns0[q].mod_in as int] as int),
                sorted@.to_multiset().add(conns@.to_multiset()) == conns0.to_multiset(),
                forall|a: int, b: int|
                    0 <= a <= b < sorted@.len() ==> (rankv@[(
                    #[trigger] sorted@[a]).mod_out as int] as int) <= (rankv@[(
                    #[trigger] sorted@[b]).mod_out as int] as int),
            decreases conns@.len(),
        {
            broadcast use vstd::seq_lib::group_to_multiset_ensures;

            let c = conns.remove(0);
            let key: usize = rankv[c.mod_out];
            let mut p: usize = 0;
            while p < sorted.len() && rankv[sorted[p].mod_out] <= key
                invariant
                    rankv@.len() == n,
                    (c.mod_out as int) < n,
                    key == rankv@[c.mod_out as int],
                    forall|q: int|
                        0 <= q < sorted@.len() ==> ((#[trigger] sorted@[q]).mod_out as int) < n,
                    p <= sorted@.len(),
                    forall|q: int|
                        0 <= q < p ==> (rankv@[(#[trigger] sorted@[q]).mod_out as int] as int)
                            <= key,
                decreases sorted@.len() - p,
            {
                p = p + 1;
            }
            let ghost presorted = sorted@;
            sorted.insert(p, c);
            proof {
                assert(sorted@[p as int] == c);
                assert(sorted@.remove(p as int) =~= presorted);
                assert(sorted@.to_multiset().remove(c) =~= presorted.to_multiset());
                assert(sorted@.to_multiset().contains(c)) by {
                    assert(sorted@[p as int] == c);
                }
                assert(sorted@.to_multiset() =~= presorted.to_multiset().insert(c));
            }
        }
        proof {
            assert(conns@.to_multiset() =~= Multiset::empty()) by {
                assert(conns@ =~= Seq::empty());
            }
            assert(sorted@.to_multiset() =~= conns0.to_multiset());
        }
        // Move the modules into the rack.
        let ghost infos0 = module_info@;
        let mut mods: Vec<ModuleKind> = Vec::new();
        let mut rest = module_info;
        while rest.len() > 0
            invariant
                mods@.len() + rest@.len() == infos0.len(),
                forall|i: int| 0 <= i < mods@.len() ==> mods@[i] == (#[trigger] infos0[i]).module,
                forall|i: int|
                    0 <= i < rest@.len() ==> rest@[i] == infos0[mods@.len() + i],
            decreases rest@.len(),
        {
            let mi = rest.remove(0);
            mods.push(mi.module);
        }
        let rack = Rack { connections: sorted, modules: mods };
        proof {
            broadcast use vstd::seq_lib::group_to_multiset_ensures;

            assert forall|q: int| 0 <= q < rack.connections@.len() implies {
                let c = #[trigger] rack.connections@[q];
                &&& (c.mod_out as int) < rack.modules@.len()
                &&& (c.mod_in as int) < rack.modules@.len()
                &&& (c.output as int) < spec_data_of(rack.modules@[c.mod_out as int]).len()
                &&& (c.input as int) < spec_data_of(rack.modules@[c.mod_in as int]).len()
                &&& (rankv@[c.mod_out as int] as int) < (rankv@[c.mod_in as int] as int)
            } by {
                let c = rack.connections@[q];
                assert(rack.connections@.to_multiset().contains(c));
                assert(conns0.to_multiset().contains(c));
                assert(conns0.contains(c));
                let w = choose|w: int| 0 <= w < conns0.len() && conns0[w] == c;
                assert((rankv@[(conns0[w]).mod_out as int] as int) < (rankv@[conns0[
                    w].mod_in as int] as int));
            }
            assert forall|i: int| 0 <= i < rack.modules@.len() implies spec_module_wf(
                #[trigger] rack.modules@[i],
            ) by {
                assert(rack.modules@[i] == module_info@[i].module);
                assert(spec_module_wf(module_info@[i].module));
            }
            assert(rack.wf());
            assert forall|i: int, j: int|
                0 <= i < rack.connections@.len() && 0 <= j < rack.connections@.len() && (
                #[trigger] rack.connections@[i]).mod_in == (
                #[trigger] rack.connections@[j]).mod_out implies i < j by {
                let ki = rankv@[rack.connections@[i].mod_out as int] as int;
                let kj = rankv@[rack.connections@[j].mod_out as int] as int;
                assert(ki < rankv@[rack.connections@[i].mod_in as int] as int);
                assert(kj == rankv@[rack.connections@[i].mod_in as int] as int);
                if j <= i {
                    assert(kj <= ki);
                }
            }
            assert(rack.ordered());
        }
        Ok(rack)
    }
}

/// How one `extract` call relates a module's next state and output to
/// its previous state: the buffer hands back its stored block and
/// keeps it; the attenuverter, oscillator and envelope produce `len`
/// samples from their (consumed) inputs, the latter two advancing
/// their internal state.
pub open spec fn spec_extract_rel(
    m0: ModuleKind,
    m1: ModuleKind,
    out: Seq<i64>,
    output: int,
    len: int,
    noise: Seq<i64>,
) -> bool {
    match m0 {
        ModuleKind::Buffer(b) => {
            &&& m1 matches ModuleKind::Buffer(b2)
            &&& b2.data@.len() == b.data@.len()
            &&& out == b.data@[output].vals()
            &&& b2.data@[output].vals() == b.data@[output].vals()
            &&& forall|j: int| 0 <= j < b.data@.len() && j != output ==> b2.data@[j] == b.data@[j]
        },
        ModuleKind::Attenuverter(a) => {
            &&& m1 matches ModuleKind::Attenuverter(a2)
            &&& a2.data@.len() == 2
            &&& a2.data@[0].v is None && a2.data@[1].v is None
            &&& out.len() == len
            &&& out.map_values(|x: i64| x as int) == Attenuverter::spec_out(
                a.data@[0].vals(),
                a.data@[1].vals(),
                len,
            )
        },
        ModuleKind::Oscillator(o) => {
            &&& m1 matches ModuleKind::Oscillator(o2)
            &&& o2.rate == o.rate
            &&& o2.t == (o.t + len) % (MAX_PHASE + 1)
            &&& out.len() == len
            &&& out.map_values(|x: i64| x as int) == Oscillator::spec_out(
                o.rate as int,
                o.t as int,
                o.data@[0].vals(),
                o.data@[1].vals(),
                o.data@[2].vals(),
                o.data@[3].vals(),
                noise,
                len,
            )
        },
        ModuleKind::Envelope(e) => {
            &&& m1 matches ModuleKind::Envelope(e2)
            &&& e2.rate == e.rate
            &&& out.len() == len
            &&& ({
                let run = spec_env_run(
                    e.st(),
                    e.rate as int,
                    e.data@[0].vals(),
                    e.data@[1].vals(),
                    e.data@[2].vals(),
                    e.data@[3].vals(),
                    e.data@[4].vals(),
                    e.data@[5].vals(),
                    0,
                    len,
                );
                &&& out.map_values(|x: i64| x as int) == run.0
                &&& e2.st() == run.1
            })
        },
    }
}

impl ModuleKind {
    /// Produces a block from output port `output`: the buffer returns
    /// its stored block as-is; the other kinds render `len` samples.
    /// `noise` supplies the oscillator's random draws.
    pub fn extract(&mut self, output: usize, len: usize, noise: &Vec<i64>) -> (r: Vec<i64>)
        requires
            spec_module_wf(*old(self)),
            output < spec_data_of(*old(self)).len(),
            noise@.len() > 0,
            forall|i: int| 0 <= i < noise@.len() ==> iabs(#[trigger] noise@[i] as int)
                <= STATE_LIMIT,
        ensures
            spec_module_wf(*final(self)),
            spec_data_of(*final(self)).len() == spec_data_of(*old(self)).len(),
            spec_extract_rel(*old(self), *final(self), r@, output as int, len as int, noise@),
            r@.len() > 0 || len == 0,
            forall|i: int| 0 <= i < r@.len() ==> iabs(#[trigger] r@[i] as int) <= STATE_LIMIT,
    {
        match self {
            ModuleKind::Buffer(b) => b.extract(output),
            ModuleKind::Attenuverter(a) => a.extract(len),
            ModuleKind::Oscillator(o) => {
                let r = o.extract(len, noise);
                proof {
                    assert(forall|i: int|
                        0 <= i < r@.len() ==> iabs(#[trigger] r@[i] as int) <= STATE_LIMIT);
                }
                r
            },
            ModuleKind::Envelope(e) => e.extract(len),
        }
    }
}


/// How one `feed` call relates a module's next state to its previous
/// one: the fed port holds the clamped block (or falls back to its
/// default when the block is empty), every other port is untouched,
/// and the module's kind is preserved.
pub open spec fn spec_feed_rel(m0: ModuleKind, m1: ModuleKind, input: int, v: Seq<i64>) -> bool {
    &&& spec_module_wf(m1)
    &&& spec_data_of(m1).len() == spec_data_of(m0).len()
    &&& forall|j: int|
        0 <= j < spec_data_of(m0).len() && j != input ==> spec_data_of(m1)[j] == spec_data_of(
            m0,
        )[j]
    &&& spec_data_of(m1)[input].vals() == (if v.len() > 0 {
        v.map_values(|x: i64| spec_clamp_ctl(x as int) as i64)
    } else {
        seq![spec_data_of(m0)[input].default]
    })
    &&& spec_data_of(m1)[input].name == spec_data_of(m0)[input].name
    &&& spec_data_of(m1)[input].default == spec_data_of(m0)[input].default
    &&& (m1 is Buffer <==> m0 is Buffer)
    &&& (m1 is Attenuverter <==> m0 is Attenuverter)
    &&& (m1 is Oscillator <==> m0 is Oscillator)
    &&& (m1 is Envelope <==> m0 is Envelope)
    &&& (m0 matches ModuleKind::Oscillator(o0) ==> m1 matches ModuleKind::Oscillator(o1)
        && o1.t == o0.t && o1.rate == o0.rate)
    &&& (m0 matches ModuleKind::Envelope(e0) ==> m1 matches ModuleKind::Envelope(e1) && e1.t
        == e0.t && e1.t_trig == e0.t_trig && e1.n_trig_1 == e0.n_trig_1 && e1.rate == e0.rate)
}

/// One step of the per-block evaluation: `len` samples are extracted
/// from connection `c`'s source port (advancing only that module) and,
/// unless the block came back empty, fed clamped into `c`'s
/// destination port (changing only that module).
pub open spec fn spec_feed_all_step(
    pre: Seq<ModuleKind>,
    post: Seq<ModuleKind>,
    c: Connection,
    len: int,
    noise: Seq<i64>,
) -> bool {
    exists|mid: Seq<ModuleKind>, out: Seq<i64>|
        {
            &&& mid.len() == pre.len()
            &&& post.len() == pre.len()
            &&& #[trigger] spec_extract_rel(
                pre[c.mod_out as int],
                mid[c.mod_out as int],
                out,
                c.output as int,
                len,
                noise,
            )
            &&& forall|j: int| 0 <= j < pre.len() && j != c.mod_out ==> mid[j] == pre[j]
            &&& if out.len() > 0 {
                &&& spec_feed_rel(mid[c.mod_in as int], post[c.mod_in as int], c.input as int, out)
                &&& forall|j: int| 0 <= j < pre.len() && j != c.mod_in ==> post[j] == mid[j]
            } else {
                post == mid
            }
        }
}

/// Introduces the evaluation-step relation from concrete intermediate
/// witnesses.
proof fn lemma_feed_all_step_intro(
    pre: Seq<ModuleKind>,
    post: Seq<ModuleKind>,
    c: Connection,
    len: int,
    noise: Seq<i64>,
    mid: Seq<ModuleKind>,
    out: Seq<i64>,
)
    requires
        mid.len() == pre.len(),
        post.len() == pre.len(),
        spec_extract_rel(
            pre[c.mod_out as int],
            mid[c.mod_out as int],
            out,
            c.output as int,
            len,
            noise,
        ),
        forall|j: int| 0 <= j < pre.len() && j != c.mod_out ==> mid[j] == pre[j],
        if out.len() > 0 {
            &&& spec_feed_rel(mid[c.mod_in as int], post[c.mod_in as int], c.input as int, out)
            &&& forall|j: int| 0 <= j < pre.len() && j != c.mod_in ==> post[j] == mid[j]
        } else {
            post == mid
        },
    ensures
        spec_feed_all_step(pre, post, c, len, noise),
{
}

impl Rack {
    /// Feeds a block into one module's input port.
    pub fn feed_module(&mut self, m: usize, input: usize, v: Vec<i64>)
        requires
            old(self).wf(),
            m < old(self).modules@.len(),
            input < spec_data_of(old(self).modules@[m as int]).len(),
        ensures
            final(self).wf(),
            final(self).connections == old(self).connections,
            final(self).modules@.len() == old(self).modules@.len(),
            forall|j: int|
                0 <= j < old(self).modules@.len() && j != m ==> final(self).modules@[j] == old(
                    self,
                ).modules@[j],
            spec_data_of(final(self).modules@[m as int]).len() == spec_data_of(
                old(self).modules@[m as int],
            ).len(),
            spec_data_of(final(self).modules@[m as int])[input as int].vals() == (if v@.len() > 0 {
                v@.map_values(|x: i64| spec_clamp_ctl(x as int) as i64)
            } else {
                seq![spec_data_of(old(self).modules@[m as int])[input as int].default]
            }),
            spec_feed_rel(
                old(self).modules@[m as int],
                final(self).modules@[m as int],
                input as int,
                v@,
            ),
    {
        let mut md = self.modules.remove(m);
        md.feed(input, v);
        self.modules.insert(m, md);
        proof {
            assert(final(self).modules@ =~= old(self).modules@.update(m as int, md));
            assert forall|k: int| 0 <= k < final(self).connections@.len() implies {
                let c = #[trigger] final(self).connections@[k];
                &&& (c.mod_out as int) < final(self).modules@.len()
                &&& (c.mod_in as int) < final(self).modules@.len()
                &&& (c.output as int) < spec_data_of(final(self).modules@[c.mod_out as int]).len()
                &&& (c.input as int) < spec_data_of(final(self).modules@[c.mod_in as int]).len()
            } by {
                let c = final(self).connections@[k];
                assert(spec_data_of(final(self).modules@[c.mod_out as int]).len() == spec_data_of(
                    old(self).modules@[c.mod_out as int],
                ).len());
                assert(spec_data_of(final(self).modules@[c.mod_in as int]).len() == spec_data_of(
                    old(self).modules@[c.mod_in as int],
                ).len());
            }
        }
    }

    /// Produces a block from one module's output port.
    pub fn extract_module(&mut self, m: usize, output: usize, len: usize, noise: &Vec<i64>) -> (r:
        Vec<i64>)
        requires
            old(self).wf(),
            m < old(self).modules@.len(),
            output < spec_data_of(old(self).modules@[m as int]).len(),
            noise@.len() > 0,
            forall|i: int| 0 <= i < noise@.len() ==> iabs(#[trigger] noise@[i] as int)
                <= STATE_LIMIT,
        ensures
            final(self).wf(),
            final(self).connections == old(self).connections,
            final(self).modules@.len() == old(self).modules@.len(),
            forall|j: int|
                0 <= j < old(self).modules@.len() && j != m ==> final(self).modules@[j] == old(
                    self,
                ).modules@[j],
            spec_extract_rel(
                old(self).modules@[m as int],
                final(self).modules@[m as int],
                r@,
                output as int,
                len as int,
                noise@,
            ),
            r@.len() > 0 || len == 0,
            forall|i: int| 0 <= i < r@.len() ==> iabs(#[trigger] r@[i] as int) <= STATE_LIMIT,
    {
        let mut md = self.modules.remove(m);
        let r = md.extract(output, len, noise);
        self.modules.insert(m, md);
        proof {
            assert(final(self).modules@ =~= old(self).modules@.update(m as int, md));
            assert forall|k: int| 0 <= k < final(self).connections@.len() implies {
                let c = #[trigger] final(self).connections@[k];
                &&& (c.mod_out as int) < final(self).modules@.len()
                &&& (c.mod_in as int) < final(self).modules@.len()
                &&& (c.output as int) < spec_data_of(final(self).modules@[c.mod_out as int]).len()
                &&& (c.input as int) < spec_data_of(final(self).modules@[c.mod_in as int]).len()
            } by {
                let c = final(self).connections@[k];
                assert(spec_data_of(final(self).modules@[c.mod_out as int]).len() == spec_data_of(
                    old(self).modules@[c.mod_out as int],
                ).len());
                assert(spec_data_of(final(self).modules@[c.mod_in as int]).len() == spec_data_of(
                    old(self).modules@[c.mod_in as int],
                ).len());
            }
        }
        r
    }

    /// Evaluates the whole graph for one block: for each connection,
    /// in the verified producer-before-consumer order, extracts `len`
    /// samples from the source port and feeds them to the destination
    /// port. `noise` supplies the oscillators' random draws.
    pub fn feed_all(&mut self, len: usize, noise: &Vec<i64>)
        requires
            old(self).wf(),
            noise@.len() > 0,
            forall|i: int| 0 <= i < noise@.len() ==> iabs(#[trigger] noise@[i] as int)
                <= STATE_LIMIT,
        ensures
            final(self).wf(),
            final(self).connections == old(self).connections,
            final(self).modules@.len() == old(self).modules@.len(),
            exists|steps: Seq<Seq<ModuleKind>>|
                {
                    &&& steps.len() == old(self).connections@.len() + 1
                    &&& steps[0] == old(self).modules@
                    &&& steps[old(self).connections@.len() as int] == final(self).modules@
                    &&& forall|k: int|
                        0 <= k < old(self).connections@.len() ==> spec_feed_all_step(
                            #[trigger] steps[k],
                            steps[k + 1],
                            old(self).connections@[k],
                            len as int,
                            noise@,
                        )
                },
            forall|m: int|
                0 <= m < old(self).modules@.len() && (forall|k: int|
                    0 <= k < old(self).connections@.len() ==> ((
                    #[trigger] old(self).connections@[k]).mod_in as int) != m && (old(
                        self,
                    ).connections@[k].mod_out as int) != m) ==> #[trigger] final(self).modules@[m]
                    == old(self).modules@[m],
    {
        let count = self.connections.len();
        let ghost mut steps: Seq<Seq<ModuleKind>> = seq![self.modules@];
        let mut i: usize = 0;
        while i < count
            invariant
                self.wf(),
                self.connections == old(self).connections,
                self.modules@.len() == old(self).modules@.len(),
                count == self.connections@.len(),
                i <= count,
                noise@.len() > 0,
                forall|k: int| 0 <= k < noise@.len() ==> iabs(#[trigger] noise@[k] as int)
                    <= STATE_LIMIT,
                steps.len() == i + 1,
                steps[0] == old(self).modules@,
                steps[i as int] == self.modules@,
                forall|k: int|
                    0 <= k < i ==> spec_feed_all_step(
                        #[trigger] steps[k],
                        steps[k + 1],
                        old(self).connections@[k],
                        len as int,
                        noise@,
                    ),
                forall|m: int|
                    0 <= m < old(self).modules@.len() && (forall|k: int|
                        0 <= k < old(self).connections@.len() ==> ((
                        #[trigger] old(self).connections@[k]).mod_in as int) != m && (old(
                            self,
                        ).connections@[k].mod_out as int) != m) ==> #[trigger] self.modules@[m]
                        == old(self).modules@[m],
            decreases count - i,
        {
            let ghost pre_mods = self.modules@;
            let c = self.connections[i];
            let out = self.extract_module(c.mod_out, c.output, len, noise);
            let ghost mid_mods = self.modules@;
            let ghost out_v = out@;
            if out.len() > 0 {
                self.feed_module(c.mod_in, c.input, out);
            }
            proof {
                lemma_feed_all_step_intro(
                    pre_mods,
                    self.modules@,
                    c,
                    len as int,
                    noise@,
                    mid_mods,
                    out_v,
                );
                steps = steps.push(self.modules@);
            }
            i = i + 1;
        }
    }
}

} // verus!
