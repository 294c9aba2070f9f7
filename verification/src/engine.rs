//! The engine state, the mix engine and the callback driver.
//!
//! The engine owns the bank of oscillator voices, the negotiated sample rate
//! and channel count, and the frame clock.  Its one entry point in the hot
//! path, [`Engine::fill_buffer`], partitions a flat interleaved buffer into
//! whole frames and, for each frame in order, advances every voice and the
//! frame clock exactly once and then computes every channel's sample from
//! that same just-advanced state — a channel can never observe a partially
//! advanced frame.

use vstd::prelude::*;

use crate::oscillator::Oscillator;
use crate::oscillator::OscillatorModel;
use crate::AMP_SCALE;
use crate::EngineError;
use crate::MAX_FREQ_MILLIHZ;
use crate::MAX_SAMPLE_RATE;
use crate::MAX_VOICES;

verus! {

use vstd::arithmetic::div_mod::lemma_div_by_multiple;
use vstd::arithmetic::div_mod::lemma_div_is_ordered;
use vstd::arithmetic::div_mod::lemma_div_nonincreasing;
use vstd::arithmetic::div_mod::lemma_div_pos_is_pos;
use vstd::arithmetic::div_mod::lemma_fundamental_div_mod;
use vstd::arithmetic::div_mod::lemma_fundamental_div_mod_converse;
use vstd::arithmetic::div_mod::lemma_mod_division_less_than_divisor;

/// Per-channel stereo detune offset, in milli-hertz: channel 0 is detuned
/// down by 0.1 Hz, every other channel up by 0.1 Hz, widening the stereo
/// image without any per-channel voice state.
pub const CHANNEL_DETUNE_MILLIHZ: i64 = 100;

/// Attenuation divisor: the mixed output is the voice sum times the fixed
/// gain 1/5, averaged over the voice count.
pub const MIX_GAIN_DIVISOR: i64 = 5;

/// The stereo detune offset applied to every voice's effective frequency
/// when mixing a given channel.
pub open spec fn spec_channel_detune(channel_index: int) -> int {
    if channel_index == 0 {
        -CHANNEL_DETUNE_MILLIHZ as int
    } else {
        CHANNEL_DETUNE_MILLIHZ as int
    }
}

/// Integer division rounding toward zero (sign-and-magnitude quotient).
pub open spec fn div_toward_zero(a: int, b: int) -> int
    recommends
        0 < b,
{
    if a >= 0 {
        a / b
    } else {
        -((-a) / b)
    }
}

/// Mathematical model of the engine state.
#[verifier::ext_equal]
pub ghost struct EngineModel {
    /// Sample rate in Hz.
    pub sample_rate: int,
    /// Frames produced since the stream started.
    pub frame_clock: int,
    /// Samples per frame.
    pub channel_count: int,
    /// The ordered bank of voices.
    pub oscillators: Seq<OscillatorModel>,
}

impl EngineModel {
    /// A well-formed engine: positive sample rate and channel count within
    /// the engine's limits, and every voice well formed with its phase
    /// clock inside one cycle.
    pub open spec fn wf(self) -> bool {
        &&& 0 < self.sample_rate <= MAX_SAMPLE_RATE
        &&& 0 < self.channel_count
        &&& self.oscillators.len() <= MAX_VOICES
        &&& forall|i: int|
            0 <= i < self.oscillators.len() ==> (#[trigger] self.oscillators[i]).wf()
                && self.oscillators[i].phase_wf(self.sample_rate)
    }

    /// Sum of the contributions of the first `voices` voices for a channel.
    pub open spec fn contribution_sum(self, voices: int, channel_index: int) -> int
        recommends
            0 <= voices <= self.oscillators.len(),
        decreases voices,
    {
        if voices <= 0 {
            0
        } else {
            self.contribution_sum(voices - 1, channel_index) + self.oscillators[voices
                - 1].contribution(self.sample_rate, spec_channel_detune(channel_index))
        }
    }

    /// The mixed sample for a channel: every voice's contribution at the
    /// channel's detuned effective frequency, summed, then attenuated by the
    /// fixed 1/5 gain and averaged over the voice count (rounding toward
    /// zero); zero when the bank is empty.  A pure function of the engine
    /// state and the channel index.
    pub open spec fn mix(self, channel_index: int) -> int {
        let s = self.contribution_sum(self.oscillators.len() as int, channel_index);
        if self.oscillators.len() == 0 {
            0
        } else {
            div_toward_zero(s, MIX_GAIN_DIVISOR * self.oscillators.len())
        }
    }

    /// One whole frame step: every voice advances exactly once and the frame
    /// clock gains exactly one.
    pub open spec fn stepped(self) -> EngineModel {
        EngineModel {
            sample_rate: self.sample_rate,
            frame_clock: self.frame_clock + 1,
            channel_count: self.channel_count,
            oscillators: Seq::new(
                self.oscillators.len(),
                |i: int| self.oscillators[i].advanced(self.sample_rate),
            ),
        }
    }

    /// The engine after `k` whole frames.
    pub open spec fn stepped_by(self, k: nat) -> EngineModel
        decreases k,
    {
        if k == 0 {
            self
        } else {
            self.stepped_by((k - 1) as nat).stepped()
        }
    }
}

/// One frame step keeps the configuration, moves the frame clock forward by
/// exactly one, keeps the voice count, and keeps the engine well formed.
pub proof fn lemma_stepped_props(m: EngineModel)
    ensures
        m.stepped().sample_rate == m.sample_rate,
        m.stepped().channel_count == m.channel_count,
        m.stepped().frame_clock == m.frame_clock + 1,
        m.stepped().oscillators.len() == m.oscillators.len(),
        m.wf() ==> m.stepped().wf(),
{
    if m.wf() {
        assert forall|i: int| 0 <= i < m.stepped().oscillators.len() implies (#[trigger] m.stepped(
        ).oscillators[i]).wf() && m.stepped().oscillators[i].phase_wf(m.sample_rate) by {
            lemma_mod_division_less_than_divisor(
                m.oscillators[i].phase + m.oscillators[i].frequency,
                1000 * m.sample_rate,
            );
        }
    }
}

/// `k` frame steps keep the configuration and the voice count, move the
/// frame clock forward by exactly `k`, and keep the engine well formed.
pub proof fn lemma_stepped_by_props(m: EngineModel, k: nat)
    ensures
        m.stepped_by(k).sample_rate == m.sample_rate,
        m.stepped_by(k).channel_count == m.channel_count,
        m.stepped_by(k).frame_clock == m.frame_clock + k,
        m.stepped_by(k).oscillators.len() == m.oscillators.len(),
        m.wf() ==> m.stepped_by(k).wf(),
    decreases k,
{
    if k > 0 {
        lemma_stepped_by_props(m, (k - 1) as nat);
        lemma_stepped_props(m.stepped_by((k - 1) as nat));
    }
}

/// The engine state: the negotiated stream configuration, the frame clock
/// and the bank of voices.  Exclusively owned by the callback driver for the
/// stream's lifetime.
pub struct Engine {
    /// Sample rate in Hz, immutable for the stream's lifetime.
    pub sample_rate: u64,
    /// Frames produced since the stream started; gains exactly one per frame
    /// and is never reset while the stream runs.
    pub frame_clock: u64,
    /// Samples per frame, immutable for the stream's lifetime.
    pub channel_count: usize,
    /// The ordered bank of voices.
    pub oscillators: Vec<Oscillator>,
}

impl View for Engine {
    type V = EngineModel;

    open spec fn view(&self) -> EngineModel {
        EngineModel {
            sample_rate: self.sample_rate as int,
            frame_clock: self.frame_clock as int,
            channel_count: self.channel_count as int,
            oscillators: Seq::new(self.oscillators@.len() as nat, |i: int| self.oscillators@[i]@),
        }
    }
}

impl Engine {
    /// Builds an engine from the negotiated stream configuration and the
    /// bank's frequencies (milli-hertz), all phase clocks and the frame
    /// clock at zero.  A non-positive sample rate or a zero channel count is
    /// an `InvalidStreamConfig`; any non-positive frequency is an
    /// `InvalidOscillatorConfig`.  Both are rejected here, eagerly, so that
    /// no stream session can start from a bad configuration.
    pub fn new(sample_rate: i64, channel_count: usize, frequencies_millihz: &Vec<i64>) -> (r:
        Result<Engine, EngineError>)
        requires
            sample_rate <= MAX_SAMPLE_RATE,
            frequencies_millihz@.len() <= MAX_VOICES,
            forall|i: int|
                0 <= i < frequencies_millihz@.len() ==> #[trigger] frequencies_millihz@[i]
                    <= MAX_FREQ_MILLIHZ,
        ensures
            match r {
                Ok(e) => {
                    &&& 0 < sample_rate
                    &&& 0 < channel_count
                    &&& forall|i: int|
                        0 <= i < frequencies_millihz@.len() ==> 0 < #[trigger] frequencies_millihz@[i]
                    &&& e@.wf()
                    &&& e@.sample_rate == sample_rate
                    &&& e@.frame_clock == 0
                    &&& e@.channel_count == channel_count
                    &&& e@.oscillators.len() == frequencies_millihz@.len()
                    &&& forall|i: int|
                        0 <= i < frequencies_millihz@.len() ==> (#[trigger] e@.oscillators[i]).frequency
                            == frequencies_millihz@[i] && e@.oscillators[i].phase == 0
                },
                Err(err) => if sample_rate <= 0 || channel_count == 0 {
                    err == EngineError::InvalidStreamConfig
                } else {
                    err == EngineError::InvalidOscillatorConfig && exists|i: int|
                        0 <= i < frequencies_millihz@.len() && #[trigger] frequencies_millihz@[i]
                            <= 0
                },
            },
    {
        if sample_rate <= 0 || channel_count == 0 {
            return Err(EngineError::InvalidStreamConfig);
        }
        let mut oscillators: Vec<Oscillator> = Vec::new();
        let mut i: usize = 0;
        while i < frequencies_millihz.len()
            invariant
                0 < sample_rate,
                0 < channel_count,
                i <= frequencies_millihz@.len(),
                oscillators@.len() == i,
                forall|j: int|
                    0 <= j < frequencies_millihz@.len() ==> #[trigger] frequencies_millihz@[j]
                        <= MAX_FREQ_MILLIHZ,
                forall|j: int| 0 <= j < i ==> 0 < #[trigger] frequencies_millihz@[j],
                forall|j: int|
                    0 <= j < i ==> (#[trigger] oscillators@[j])@.frequency
                        == frequencies_millihz@[j] && oscillators@[j]@.phase == 0
                        && oscillators@[j]@.wf(),
            decreases frequencies_millihz@.len() - i,
        {
            match Oscillator::new(frequencies_millihz[i]) {
                Ok(o) => {
                    oscillators.push(o);
                },
                Err(err) => {
                    return Err(err);
                },
            }
            i += 1;
        }
        Ok(Engine { sample_rate: sample_rate as u64, frame_clock: 0, channel_count, oscillators })
    }

    /// Computes the mixed sample for `channel_index` from the current state.
    /// Read-only, and deterministic by contract: the result equals the model
    /// mix of the engine's state snapshot, so repeated calls on an unchanged
    /// state return the bit-identical sample.
    ///
    /// The fixed gain and voice-count averaging keep one voice's share of
    /// the output small, but they are a soft heuristic, not a limiter: the
    /// proven bound is `[-AMP_SCALE, AMP_SCALE]`, the full sample range.
    pub fn mix(&self, channel_index: usize) -> (r: i64)
        requires
            self@.wf(),
        ensures
            r == self@.mix(channel_index as int),
            -AMP_SCALE <= r <= AMP_SCALE,
    {
        let detune: i64 = if channel_index == 0 {
            -CHANNEL_DETUNE_MILLIHZ
        } else {
            CHANNEL_DETUNE_MILLIHZ
        };
        let nv = self.oscillators.len();
        let mut sum: i64 = 0;
        let mut i: usize = 0;
        #[verifier::loop_isolation(false)]
        while i < nv
            invariant
                i <= nv,
                sum == self@.contribution_sum(i as int, channel_index as int),
                -1_000_000 * (i as int) <= sum <= 1_000_000 * (i as int),
            decreases nv - i,
        {
            let o = self.oscillators[i];
            proof {
                assert(o@ == self@.oscillators[i as int]);
            }
            let c = o.sample(self.sample_rate, detune);
            sum = sum + c;
            i += 1;
        }
        if nv == 0 {
            return 0;
        }
        let divisor: i64 = 5 * (nv as i64);
        proof {
            assert(MIX_GAIN_DIVISOR * self@.oscillators.len() == 5 * (nv as int));
            assert(1_000_000 * (nv as int) == 200_000 * (5 * (nv as int)));
            if sum >= 0 {
                lemma_div_pos_is_pos(sum as int, divisor as int);
                lemma_div_is_ordered(sum as int, 1_000_000 * (nv as int), divisor as int);
                lemma_div_by_multiple(200_000, 5 * (nv as int));
            } else {
                lemma_div_pos_is_pos(-(sum as int), divisor as int);
                lemma_div_is_ordered(-(sum as int), 1_000_000 * (nv as int), divisor as int);
                lemma_div_by_multiple(200_000, 5 * (nv as int));
            }
        }
        if sum >= 0 {
            ((sum as u64) / (divisor as u64)) as i64
        } else {
            -((((-sum) as u64) / (divisor as u64)) as i64)
        }
    }

    /// Fills one interleaved output buffer, the per-callback entry point.
    /// The buffer is partitioned into consecutive frames of `channel_count`
    /// samples; for each frame, strictly in order, every voice and the frame
    /// clock advance exactly once — however many channels there are — and
    /// then every channel's sample is computed by `mix` from that same
    /// just-advanced state.  A buffer whose length is not a whole number of
    /// frames is refused as a `BufferMisalignment` before anything is
    /// written or advanced: no partial frame is ever produced.
    #[verifier::loop_isolation(false)]
    pub fn fill_buffer(&mut self, buffer: &mut Vec<i64>) -> (r: Result<(), EngineError>)
        requires
            old(self)@.wf(),
            old(self)@.frame_clock + old(buffer)@.len() <= u64::MAX,
        ensures
            final(self)@.wf(),
            final(self)@.sample_rate == old(self)@.sample_rate,
            final(self)@.channel_count == old(self)@.channel_count,
            final(buffer)@.len() == old(buffer)@.len(),
            match r {
                Ok(()) => {
                    &&& old(buffer)@.len() as int % old(self)@.channel_count == 0
                    &&& final(self)@ == old(self)@.stepped_by(
                        (old(buffer)@.len() as int / old(self)@.channel_count) as nat,
                    )
                    &&& final(self)@.frame_clock == old(self)@.frame_clock + old(
                        buffer,
                    )@.len() as int / old(self)@.channel_count
                    &&& forall|j: int|
                        0 <= j < old(buffer)@.len() ==> #[trigger] final(buffer)@[j] == old(
                        self)@.stepped_by(
                            (j / old(self)@.channel_count + 1) as nat,
                        ).mix(j % old(self)@.channel_count) && -AMP_SCALE <= final(buffer)@[j]
                            <= AMP_SCALE
                },
                Err(err) => {
                    &&& err == EngineError::BufferMisalignment
                    &&& old(buffer)@.len() as int % old(self)@.channel_count != 0
                    &&& final(self)@ == old(self)@
                    &&& final(buffer)@ == old(buffer)@
                },
            },
    {
        let ch = self.channel_count;
        let len = buffer.len();
        if len % ch != 0 {
            return Err(EngineError::BufferMisalignment);
        }
        let nframes = len / ch;
        let ghost m0 = self@;
        proof {
            lemma_fundamental_div_mod(len as int, ch as int);
            lemma_div_nonincreasing(len as int, ch as int);
        }
        let mut f: usize = 0;
        while f < nframes
            invariant
                f <= nframes,
                self@ == m0.stepped_by(f as nat),
                buffer@.len() == len,
                forall|j: int|
                    0 <= j < (f as int) * (ch as int) ==> #[trigger] buffer@[j] == m0.stepped_by(
                        (j / (ch as int) + 1) as nat,
                    ).mix(j % (ch as int)) && -AMP_SCALE <= buffer@[j] <= AMP_SCALE,
            decreases nframes - f,
        {
            proof {
                lemma_stepped_by_props(m0, f as nat);
                assert((f as int) * (ch as int) + (ch as int) <= len as int && (f as int) * (
                ch as int) >= 0) by (nonlinear_arith)
                    requires
                        len as int == (ch as int) * (nframes as int),
                        0 <= (f as int) && (f as int) < (nframes as int),
                        0 < ch as int,
                ;
            }
            let base = f * ch;
            let ghost mcur = self@;
            let nv = self.oscillators.len();
            let mut k: usize = 0;
            while k < nv
                invariant
                    k <= nv,
                    self.oscillators@.len() == nv,
                    self.sample_rate as int == mcur.sample_rate,
                    self.frame_clock as int == mcur.frame_clock,
                    self.channel_count as int == mcur.channel_count,
                    forall|j: int|
                        0 <= j < k ==> (#[trigger] self.oscillators@[j])@ ==
                            mcur.oscillators[j].advanced(mcur.sample_rate),
                    forall|j: int|
                        k <= j < nv ==> (#[trigger] self.oscillators@[j])@ == mcur.oscillators[j],
                decreases nv - k,
            {
                let mut o = self.oscillators[k];
                proof {
                    assert(o@ == mcur.oscillators[k as int]);
                }
                o.advance(self.sample_rate);
                self.oscillators[k] = o;
                k += 1;
            }
            self.frame_clock = self.frame_clock + 1;
            proof {
                assert forall|i: int| 0 <= i < nv implies self@.oscillators[i] == mcur.stepped(
                ).oscillators[i] by {
                    assert(self@.oscillators[i] == self.oscillators@[i]@);
                }
                assert(self@.oscillators =~= mcur.stepped().oscillators);
                assert(self@ =~= mcur.stepped());
                assert(m0.stepped_by((f + 1) as nat) == m0.stepped_by(f as nat).stepped());
                lemma_stepped_by_props(m0, (f + 1) as nat);
            }
            let mut c: usize = 0;
            while c < ch
                invariant
                    c <= ch,
                    buffer@.len() == len,
                    forall|j: int|
                        0 <= j < (f as int) * (ch as int) + (c as int) ==> #[trigger] buffer@[j]
                            == m0.stepped_by((j / (ch as int) + 1) as nat).mix(j % (ch as int))
                            && -AMP_SCALE <= buffer@[j] <= AMP_SCALE,
                decreases ch - c,
            {
                let v = self.mix(c);
                buffer[base + c] = v;
                proof {
                    lemma_fundamental_div_mod_converse(
                        (base + c) as int,
                        ch as int,
                        f as int,
                        c as int,
                    );
                }
                c += 1;
            }
            proof {
                assert((f as int + 1) * (ch as int) == (f as int) * (ch as int) + (ch as int))
                    by (nonlinear_arith);
            }
            f += 1;
        }
        proof {
            lemma_stepped_by_props(m0, nframes as nat);
            assert((nframes as int) * (ch as int) == len as int) by (nonlinear_arith)
                requires
                    len as int == (ch as int) * (nframes as int),
            ;
        }
        Ok(())
    }
}

} // verus!
