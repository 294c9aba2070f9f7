//! One oscillator voice: a fixed frequency and an exact phase clock.
//!
//! The phase clock of the data model — elapsed frames since the last full
//! cycle, wrapped into `[0, sample_rate / frequency)` every frame — is a
//! rational number whose denominator is the voice's frequency.  The voice
//! stores its exact numerator: `phase_num = phase_clock * frequency_millihz`,
//! an integer in `[0, 1000 * sample_rate)` that also equals the fraction of
//! the current cycle times `1000 * sample_rate`.  All phase bookkeeping is
//! thereby exact; nothing drifts, however long the stream runs.

use vstd::prelude::*;

use crate::waveform::spec_sine;
use crate::waveform::wave_at;
use crate::waveform::Waveform;
use crate::AMP_SCALE;
use crate::EngineError;
use crate::MAX_FREQ_MILLIHZ;
use crate::MAX_SAMPLE_RATE;

verus! {

use vstd::arithmetic::div_mod::lemma_add_mod_noop_right;
use vstd::arithmetic::div_mod::lemma_div_pos_is_pos;
use vstd::arithmetic::div_mod::lemma_fundamental_div_mod;
use vstd::arithmetic::div_mod::lemma_mod_division_less_than_divisor;
use vstd::arithmetic::div_mod::lemma_mod_multiples_vanish;
use vstd::arithmetic::div_mod::lemma_small_mod;

/// Mathematical model of one oscillator voice.
pub ghost struct OscillatorModel {
    /// Frequency in milli-hertz.
    pub frequency: int,
    /// Numerator of the phase clock: `phase_clock * frequency`.
    pub phase: int,
}

impl OscillatorModel {
    /// A voice is well formed when its frequency is positive and within the
    /// engine's limit.
    pub open spec fn wf(self) -> bool {
        0 < self.frequency <= MAX_FREQ_MILLIHZ
    }

    /// The phase numerator stays within one cycle denominator: this is the
    /// invariant `0 <= phase_clock < sample_rate / frequency` in numerator
    /// form.
    pub open spec fn phase_wf(self, sample_rate: int) -> bool {
        0 <= self.phase < 1000 * sample_rate
    }

    /// The voice after one frame: the phase clock gains one frame and wraps
    /// at the cycle length, i.e. the numerator gains `frequency` and wraps at
    /// `1000 * sample_rate`.
    pub open spec fn advanced(self, sample_rate: int) -> OscillatorModel
        recommends
            0 < sample_rate,
    {
        OscillatorModel {
            frequency: self.frequency,
            phase: (self.phase + self.frequency) % (1000 * sample_rate),
        }
    }

    /// The voice after `k` frames.
    pub open spec fn advanced_by(self, sample_rate: int, k: nat) -> OscillatorModel
        recommends
            0 < sample_rate,
        decreases k,
    {
        if k == 0 {
            self
        } else {
            self.advanced_by(sample_rate, (k - 1) as nat).advanced(sample_rate)
        }
    }

    /// The voice's signal contribution at its current phase, with the
    /// effective frequency shifted additively by `detune_millihz`: the
    /// sine-like wave at the cycle fraction
    /// `phase_clock * (frequency + detune) / (1000 * sample_rate)`, whose
    /// exact numerator over `1000 * sample_rate * frequency` is
    /// `phase * (frequency + detune)`.
    pub open spec fn contribution(self, sample_rate: int, detune_millihz: int) -> int
        recommends
            self.wf(),
            0 < sample_rate,
    {
        spec_sine(
            (self.phase * (self.frequency + detune_millihz)) % (1000 * sample_rate
                * self.frequency),
            1000 * sample_rate * self.frequency,
        )
    }
}

/// One oscillator voice.
#[derive(Clone, Copy, Debug, PartialEq, Eq, Structural)]
pub struct Oscillator {
    /// The voice's fixed frequency, in milli-hertz.
    pub frequency_millihz: u64,
    /// Numerator of the exact phase clock (see the module description).
    pub phase_num: u64,
}

impl View for Oscillator {
    type V = OscillatorModel;

    open spec fn view(&self) -> OscillatorModel {
        OscillatorModel { frequency: self.frequency_millihz as int, phase: self.phase_num as int }
    }
}

impl Oscillator {
    /// Creates a voice at `frequency_millihz` with its phase clock at zero.
    /// A non-positive frequency is a configuration error, rejected eagerly —
    /// never deferred to the first sample.
    pub fn new(frequency_millihz: i64) -> (r: Result<Oscillator, EngineError>)
        requires
            frequency_millihz <= MAX_FREQ_MILLIHZ,
        ensures
            match r {
                Ok(o) => 0 < frequency_millihz && o@.frequency == frequency_millihz && o@.phase
                    == 0 && o@.wf(),
                Err(e) => frequency_millihz <= 0 && e == EngineError::InvalidOscillatorConfig,
            },
    {
        if frequency_millihz <= 0 {
            Err(EngineError::InvalidOscillatorConfig)
        } else {
            Ok(Oscillator { frequency_millihz: frequency_millihz as u64, phase_num: 0 })
        }
    }

    /// Advances the phase clock by exactly one frame:
    /// `phase_clock := (phase_clock + 1) mod (sample_rate / frequency)`,
    /// computed exactly on the numerator.  Must be called exactly once per
    /// output frame, whatever the channel count.
    pub fn advance(&mut self, sample_rate: u64)
        requires
            old(self)@.wf(),
            0 < sample_rate <= MAX_SAMPLE_RATE,
            old(self)@.phase_wf(sample_rate as int),
        ensures
            final(self)@ == old(self)@.advanced(sample_rate as int),
            final(self)@.wf(),
            final(self)@.phase_wf(sample_rate as int),
    {
        let den: u64 = 1000 * sample_rate;
        proof {
            lemma_mod_division_less_than_divisor(
                self.phase_num as int + self.frequency_millihz as int,
                den as int,
            );
        }
        self.phase_num = (self.phase_num + self.frequency_millihz) % den;
    }

    /// Reads the voice's current signal contribution; no mutation.  The
    /// result depends only on the voice's state, the sample rate and the
    /// detune offset.
    pub fn sample(&self, sample_rate: u64, detune_millihz: i64) -> (r: i64)
        requires
            self@.wf(),
            0 < sample_rate <= MAX_SAMPLE_RATE,
            self@.phase_wf(sample_rate as int),
            -(MAX_FREQ_MILLIHZ as int) <= detune_millihz <= MAX_FREQ_MILLIHZ,
        ensures
            r == self@.contribution(sample_rate as int, detune_millihz as int),
            -AMP_SCALE <= r <= AMP_SCALE,
    {
        let den: u64 = 1000 * sample_rate;
        let n = self.phase_num;
        let f = self.frequency_millihz;
        let ghost den2i = 1000 * (sample_rate as int) * (f as int);
        proof {
            assert(den as int * f as int == den2i && den as int <= den2i && den2i
                <= 100_000_000_000_000_000) by (nonlinear_arith)
                requires
                    den == 1000 * (sample_rate as int),
                    den2i == 1000 * (sample_rate as int) * (f as int),
                    0 < sample_rate && sample_rate <= 1_000_000,
                    0 < (f as int) && (f as int) <= 100_000_000,
            ;
        }
        let den2: u128 = (den as u128) * (f as u128);
        let num: u128 = if detune_millihz >= 0 {
            let d: u128 = detune_millihz as u128;
            proof {
                assert(0 <= (n as int) * (f as int + detune_millihz as int) && (n as int) * (
                f as int + detune_millihz as int) <= 200_000_000_000_000_000_000_000_000)
                    by (nonlinear_arith)
                    requires
                        0 <= (n as int) && (n as int) <= 1_000_000_000_000,
                        0 < (f as int) && (f as int) <= 100_000_000,
                        0 <= (detune_millihz as int) && (detune_millihz as int) <= 100_000_000,
                ;
                lemma_mod_division_less_than_divisor(
                    (n as int) * (f as int + detune_millihz as int),
                    den2i,
                );
            }
            ((n as u128) * ((f as u128) + d)) % den2
        } else {
            let s: u128 = (-detune_millihz) as u128;
            proof {
                assert(0 <= (n as int) * (f as int) + ((-detune_millihz) as int) * (den2i
                    - n as int) && (n as int) * (f as int) + ((-detune_millihz) as int) * (den2i
                    - n as int) <= 200_000_000_000_000_000_000_000_000 && (n as int) * (f as int)
                    + ((-detune_millihz) as int) * (den2i - n as int) == (n as int) * (f as int
                    + detune_millihz as int) + den2i * ((-detune_millihz) as int))
                    by (nonlinear_arith)
                    requires
                        0 <= (n as int) && (n as int) < (den as int),
                        (den as int) <= den2i && den2i <= 100_000_000_000_000_000,
                        0 < (f as int) && (f as int) <= 100_000_000,
                        -100_000_000 <= (detune_millihz as int) && (detune_millihz as int) < 0,
                ;
                lemma_mod_multiples_vanish(
                    (-detune_millihz) as int,
                    (n as int) * (f as int + detune_millihz as int),
                    den2i,
                );
                lemma_mod_division_less_than_divisor(
                    (n as int) * (f as int + detune_millihz as int),
                    den2i,
                );
            }
            ((n as u128) * (f as u128) + s * (den2 - (n as u128))) % den2
        };
        wave_at(Waveform::Sine, num as u64, den2 as u64)
    }
}

/// After one `advance`, the phase clock is always within
/// `[0, sample_rate / frequency)` — here in numerator form,
/// `[0, 1000 * sample_rate)` — and after `k` advances the numerator equals
/// the starting numerator plus `k * frequency`, wrapped.
pub proof fn lemma_advanced_by_phase(o: OscillatorModel, sample_rate: int, k: nat)
    requires
        o.wf(),
        0 < sample_rate,
        o.phase_wf(sample_rate),
    ensures
        o.advanced_by(sample_rate, k).frequency == o.frequency,
        o.advanced_by(sample_rate, k).phase == (o.phase + k * o.frequency) % (1000 * sample_rate),
        o.advanced_by(sample_rate, k).phase_wf(sample_rate),
    decreases k,
{
    let d = 1000 * sample_rate;
    if k == 0 {
        assert(k * o.frequency == 0) by (nonlinear_arith)
            requires
                k == 0,
        ;
        lemma_small_mod(o.phase as nat, d as nat);
    } else {
        lemma_advanced_by_phase(o, sample_rate, (k - 1) as nat);
        assert((k - 1) * o.frequency + o.frequency == k * o.frequency) by (nonlinear_arith);
        lemma_add_mod_noop_right(o.frequency, o.phase + (k - 1) * o.frequency, d);
        lemma_mod_division_less_than_divisor(o.phase + k * o.frequency, d);
    }
}

/// Cycle closure: whenever `k` frames span an exact whole number of cycles —
/// `k * frequency` a multiple of `1000 * sample_rate` — the phase clock
/// returns to its starting value after exactly `k` advances.
pub proof fn lemma_phase_cycle_multiple(o: OscillatorModel, sample_rate: int, k: nat)
    requires
        o.wf(),
        0 < sample_rate,
        o.phase_wf(sample_rate),
        (k * o.frequency) % (1000 * sample_rate) == 0,
    ensures
        o.advanced_by(sample_rate, k) == o,
{
    let d = 1000 * sample_rate;
    lemma_advanced_by_phase(o, sample_rate, k);
    lemma_add_mod_noop_right(o.phase, k * o.frequency, d);
    lemma_small_mod(o.phase as nat, d as nat);
}

/// Cycle closure at the natural period: after exactly
/// `1000 * sample_rate / frequency` advances — the cycle length in frames,
/// whenever it is a whole number — the phase clock returns to its starting
/// value.
pub proof fn lemma_phase_cycle_closure(o: OscillatorModel, sample_rate: int)
    requires
        o.wf(),
        0 < sample_rate,
        o.phase_wf(sample_rate),
        (1000 * sample_rate) % o.frequency == 0,
    ensures
        o.advanced_by(sample_rate, ((1000 * sample_rate) / o.frequency) as nat) == o,
{
    let d = 1000 * sample_rate;
    let p = d / o.frequency;
    lemma_div_pos_is_pos(d, o.frequency);
    lemma_fundamental_div_mod(d, o.frequency);
    assert(p * o.frequency == d) by (nonlinear_arith)
        requires
            d == o.frequency * p,
    ;
    lemma_phase_cycle_multiple(o, sample_rate, p as nat);
}

} // verus!
