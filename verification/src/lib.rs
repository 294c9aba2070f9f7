//! A fixed-point, real-time audio synthesis core.
//!
//! The library generates multi-channel periodic waveforms from a bank of
//! oscillators.  All signal arithmetic is exact integer arithmetic:
//! amplitudes are fixed-point values scaled by [`AMP_SCALE`] (so `AMP_SCALE`
//! stands for 1.0 and `-AMP_SCALE` for -1.0), frequencies are integer
//! milli-hertz, and every oscillator's position inside its cycle is kept as
//! the exact numerator of a rational phase.  The surrounding application owns
//! the audio device and the output stream; it hands the engine a flat,
//! frame-aligned sample buffer to fill and converts the fixed-point samples
//! into the device's native representation.

use vstd::prelude::*;

pub mod engine;
pub mod oscillator;
pub mod waveform;

verus! {

/// Fixed-point amplitude scale: a sample value of `AMP_SCALE` stands for the
/// real amplitude 1.0, and `-AMP_SCALE` for -1.0.
pub const AMP_SCALE: i64 = 1_000_000;

/// Largest sample rate (in Hz) the engine accepts; keeps all phase
/// denominators within the range of exact 64-bit arithmetic.
pub const MAX_SAMPLE_RATE: u64 = 1_000_000;

/// Largest oscillator frequency the engine accepts, in milli-hertz
/// (100_000_000 milli-hertz = 100 kHz, far above the audible range).
pub const MAX_FREQ_MILLIHZ: u64 = 100_000_000;

/// Largest number of simultaneous oscillator voices.
pub const MAX_VOICES: usize = 1024;

/// Errors detected while configuring the engine or handing it a buffer.
/// All of them are raised before or outside the per-sample hot path; once a
/// valid configuration is running, sample production is total.
#[derive(Clone, Copy, Debug, PartialEq, Eq, Structural)]
pub enum EngineError {
    /// An oscillator was constructed with a non-positive frequency.
    InvalidOscillatorConfig,
    /// The stream configuration had a zero channel count or a non-positive
    /// sample rate.
    InvalidStreamConfig,
    /// A buffer whose length is not a multiple of the channel count was
    /// handed to the callback driver.
    BufferMisalignment,
}

} // verus!
