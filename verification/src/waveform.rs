//! Pure waveform evaluation.
//!
//! A waveform is sampled at a point of its cycle given as an exact rational
//! fraction `num / den` with `0 <= num < den`: the accumulated phase modulo
//! one full cycle.  Every evaluator returns a fixed-point amplitude in
//! `[-AMP_SCALE, AMP_SCALE]`.

use vstd::prelude::*;

use crate::AMP_SCALE;
use crate::MAX_SAMPLE_RATE;

verus! {

use vstd::arithmetic::div_mod::lemma_div_by_multiple;
use vstd::arithmetic::div_mod::lemma_div_is_ordered;
use vstd::arithmetic::div_mod::lemma_div_multiples_vanish;
use vstd::arithmetic::div_mod::lemma_div_pos_is_pos;
use vstd::arithmetic::div_mod::lemma_fundamental_div_mod;
use vstd::arithmetic::div_mod::lemma_mod_add_multiples_vanish;
use vstd::arithmetic::div_mod::lemma_mod_division_less_than_divisor;
use vstd::arithmetic::div_mod::lemma_mul_hoist_inequality;
use vstd::arithmetic::div_mod::lemma_multiply_divide_lt;

/// Largest phase denominator any caller may use, chosen so that every
/// intermediate product in the evaluators fits comfortably in 128 bits.
/// It equals `1000 * MAX_SAMPLE_RATE * MAX_FREQ_MILLIHZ`, the largest
/// denominator the engine itself ever forms.
pub const MAX_WAVE_DEN: u64 = 100_000_000_000_000_000;

/// The closed set of waveform shapes the engine can produce.
#[derive(Clone, Copy, Debug, PartialEq, Eq, Structural)]
pub enum Waveform {
    Sine,
    Square,
    Triangle,
    Sawtooth,
}

/// Positive half-wave of the sine approximation: a parabolic arch over
/// `u / den` in `[0, 1]`, zero at both ends and `AMP_SCALE` at the middle
/// (the classic `4 x (1 - x)` approximation of `sin(pi x)`).
pub open spec fn spec_sine_half(u: int, den: int) -> int
    recommends
        0 < den,
        0 <= u <= den,
{
    (4 * AMP_SCALE * ((u * (den - u)) / den)) / den
}

/// Sine-like wave over one cycle `num / den` in `[0, 1)`: the parabolic arch
/// on the first half cycle, its negation on the second half.
pub open spec fn spec_sine(num: int, den: int) -> int
    recommends
        0 < den,
        0 <= num < den,
{
    if 2 * num <= den {
        spec_sine_half(2 * num, den)
    } else {
        -spec_sine_half(2 * num - den, den)
    }
}

/// Square wave: `AMP_SCALE` exactly where the sine of the same phase is
/// strictly positive (the open first half cycle), `-AMP_SCALE` everywhere
/// else; ties at the zero crossings go to `-AMP_SCALE`.
pub open spec fn spec_square(num: int, den: int) -> int
    recommends
        0 < den,
        0 <= num < den,
{
    if 0 < num && 2 * num < den {
        AMP_SCALE as int
    } else {
        -AMP_SCALE as int
    }
}

/// Sawtooth wave: a linear ramp from `-AMP_SCALE` up towards `AMP_SCALE`
/// over one cycle, discontinuous at the cycle boundary.
pub open spec fn spec_sawtooth(num: int, den: int) -> int
    recommends
        0 < den,
        0 <= num < den,
{
    (2 * AMP_SCALE * num) / den - AMP_SCALE
}

/// Triangle wave: rises linearly from 0 to `AMP_SCALE` over the first
/// quarter cycle, falls to `-AMP_SCALE` through the middle half, and rises
/// back to 0 over the last quarter.
pub open spec fn spec_triangle(num: int, den: int) -> int
    recommends
        0 < den,
        0 <= num < den,
{
    let q = (4 * AMP_SCALE * num) / den;
    if 4 * num <= den {
        q
    } else if 4 * num <= 3 * den {
        2 * AMP_SCALE - q
    } else {
        q - 4 * AMP_SCALE
    }
}

/// Value of a waveform at the cycle fraction `num / den`.
pub open spec fn spec_wave(kind: Waveform, num: int, den: int) -> int
    recommends
        0 < den,
        0 <= num < den,
{
    match kind {
        Waveform::Sine => spec_sine(num, den),
        Waveform::Square => spec_square(num, den),
        Waveform::Triangle => spec_triangle(num, den),
        Waveform::Sawtooth => spec_sawtooth(num, den),
    }
}

/// Value of a waveform sampled at whole frame `elapsed_frames` of a stream
/// running at `sample_rate` Hz, for an oscillation of `frequency_millihz`
/// milli-hertz.  The accumulated phase in cycles is
/// `(elapsed_frames * frequency_millihz) / (1000 * sample_rate)`; only its
/// fractional part matters, kept here as the exact numerator modulo the
/// denominator `1000 * sample_rate`.
pub open spec fn spec_tone(
    frequency_millihz: int,
    elapsed_frames: int,
    sample_rate: int,
    kind: Waveform,
) -> int
    recommends
        0 < frequency_millihz,
        0 < sample_rate,
{
    spec_wave(
        kind,
        (elapsed_frames * frequency_millihz) % (1000 * sample_rate),
        1000 * sample_rate,
    )
}

/// The positive half-wave stays within `[0, AMP_SCALE]`.
pub proof fn lemma_sine_half_in_range(u: int, den: int)
    requires
        0 < den,
        0 <= u <= den,
    ensures
        0 <= spec_sine_half(u, den) <= AMP_SCALE,
{
    let p = u * (den - u);
    let t = p / den;
    assert(0 <= p && 4 * p <= den * den) by (nonlinear_arith)
        requires
            0 <= u <= den,
            p == u * (den - u),
    ;
    lemma_div_pos_is_pos(p, den);
    lemma_mul_hoist_inequality(4, p, den);
    lemma_div_is_ordered(4 * p, den * den, den);
    lemma_div_multiples_vanish(den, den);
    assert(4 * t <= den);
    assert(0 <= 4 * AMP_SCALE * t && 4 * AMP_SCALE * t <= AMP_SCALE * den) by (nonlinear_arith)
        requires
            0 <= t,
            4 * t <= den,
            0 < AMP_SCALE,
    ;
    lemma_div_pos_is_pos(4 * AMP_SCALE * t, den);
    lemma_div_is_ordered(4 * AMP_SCALE * t, AMP_SCALE * den, den);
    lemma_div_by_multiple(AMP_SCALE as int, den);
}

/// The sine-like wave stays within `[-AMP_SCALE, AMP_SCALE]`.
pub proof fn lemma_sine_in_range(num: int, den: int)
    requires
        0 < den,
        0 <= num < den,
    ensures
        -AMP_SCALE <= spec_sine(num, den) <= AMP_SCALE,
{
    if 2 * num <= den {
        lemma_sine_half_in_range(2 * num, den);
    } else {
        lemma_sine_half_in_range(2 * num - den, den);
    }
}

/// The sawtooth stays within `[-AMP_SCALE, AMP_SCALE)`.
pub proof fn lemma_sawtooth_in_range(num: int, den: int)
    requires
        0 < den,
        0 <= num < den,
    ensures
        -AMP_SCALE <= spec_sawtooth(num, den) < AMP_SCALE,
{
    assert(0 <= 2 * AMP_SCALE * num && 2 * AMP_SCALE * num < den * (2 * AMP_SCALE))
        by (nonlinear_arith)
        requires
            0 <= num < den,
            0 < AMP_SCALE,
    ;
    lemma_div_pos_is_pos(2 * AMP_SCALE * num, den);
    lemma_multiply_divide_lt(2 * AMP_SCALE * num, den, 2 * AMP_SCALE);
}

/// The triangle stays within `[-AMP_SCALE, AMP_SCALE]`.
pub proof fn lemma_triangle_in_range(num: int, den: int)
    requires
        0 < den,
        0 <= num < den,
    ensures
        -AMP_SCALE <= spec_triangle(num, den) <= AMP_SCALE,
{
    let q = (4 * AMP_SCALE * num) / den;
    assert(0 <= 4 * AMP_SCALE * num && 4 * AMP_SCALE * num < den * (4 * AMP_SCALE))
        by (nonlinear_arith)
        requires
            0 <= num < den,
            0 < AMP_SCALE,
    ;
    lemma_div_pos_is_pos(4 * AMP_SCALE * num, den);
    lemma_multiply_divide_lt(4 * AMP_SCALE * num, den, 4 * AMP_SCALE);
    if 4 * num <= den {
        assert(4 * AMP_SCALE * num <= AMP_SCALE * den) by (nonlinear_arith)
            requires
                4 * num <= den,
                0 < AMP_SCALE,
        ;
        lemma_div_is_ordered(4 * AMP_SCALE * num, AMP_SCALE * den, den);
        lemma_div_by_multiple(AMP_SCALE as int, den);
    } else if 4 * num <= 3 * den {
        assert(AMP_SCALE * den <= 4 * AMP_SCALE * num && 4 * AMP_SCALE * num <= 3 * AMP_SCALE
            * den) by (nonlinear_arith)
            requires
                den <= 4 * num <= 3 * den,
                0 < AMP_SCALE,
        ;
        lemma_div_is_ordered(AMP_SCALE * den, 4 * AMP_SCALE * num, den);
        lemma_div_by_multiple(AMP_SCALE as int, den);
        lemma_div_is_ordered(4 * AMP_SCALE * num, 3 * AMP_SCALE * den, den);
        lemma_div_by_multiple(3 * AMP_SCALE as int, den);
    } else {
        assert(3 * AMP_SCALE * den <= 4 * AMP_SCALE * num) by (nonlinear_arith)
            requires
                3 * den <= 4 * num,
                0 < AMP_SCALE,
        ;
        lemma_div_is_ordered(3 * AMP_SCALE * den, 4 * AMP_SCALE * num, den);
        lemma_div_by_multiple(3 * AMP_SCALE as int, den);
    }
}

/// Every waveform stays within `[-AMP_SCALE, AMP_SCALE]`, and the square
/// wave takes no value but the two extremes.
pub proof fn lemma_wave_in_range(kind: Waveform, num: int, den: int)
    requires
        0 < den,
        0 <= num < den,
    ensures
        -AMP_SCALE <= spec_wave(kind, num, den) <= AMP_SCALE,
        kind == Waveform::Square ==> spec_wave(kind, num, den) == AMP_SCALE
            || spec_wave(kind, num, den) == -AMP_SCALE,
{
    match kind {
        Waveform::Sine => lemma_sine_in_range(num, den),
        Waveform::Square => {},
        Waveform::Triangle => lemma_triangle_in_range(num, den),
        Waveform::Sawtooth => lemma_sawtooth_in_range(num, den),
    }
}

/// A tone repeats exactly after `1000 * sample_rate / frequency_millihz`
/// frames — one full cycle — whenever that period is a whole number of
/// frames.  This holds for every waveform kind, since each is a function of
/// the phase fraction alone.
pub proof fn lemma_tone_periodic(
    frequency_millihz: int,
    elapsed_frames: int,
    sample_rate: int,
    kind: Waveform,
)
    requires
        0 < frequency_millihz,
        0 < sample_rate,
        (1000 * sample_rate) % frequency_millihz == 0,
    ensures
        spec_tone(
            frequency_millihz,
            elapsed_frames + (1000 * sample_rate) / frequency_millihz,
            sample_rate,
            kind,
        ) == spec_tone(frequency_millihz, elapsed_frames, sample_rate, kind),
{
    let d = 1000 * sample_rate;
    let p = d / frequency_millihz;
    lemma_fundamental_div_mod(d, frequency_millihz);
    assert(frequency_millihz * p == d);
    assert((elapsed_frames + p) * frequency_millihz == elapsed_frames * frequency_millihz + d)
        by (nonlinear_arith)
        requires
            frequency_millihz * p == d,
    ;
    lemma_mod_add_multiples_vanish(elapsed_frames * frequency_millihz, d);
}

/// Evaluates the positive half-wave of the sine approximation at `u / den`.
fn sine_half_at(u: u64, den: u64) -> (r: i64)
    requires
        0 < den <= MAX_WAVE_DEN,
        u <= den,
    ensures
        r == spec_sine_half(u as int, den as int),
        0 <= r <= AMP_SCALE,
{
    let ghost pi = (u as int) * ((den - u) as int);
    let ghost ti = pi / (den as int);
    proof {
        assert(0 <= pi && pi <= (den as int) * (den as int) && pi
            <= 10_000_000_000_000_000_000_000_000_000_000_000) by (nonlinear_arith)
            requires
                0 <= (u as int) && (u as int) <= (den as int),
                den as int <= 100_000_000_000_000_000,
                pi == (u as int) * ((den - u) as int),
        ;
        lemma_div_pos_is_pos(pi, den as int);
        lemma_div_is_ordered(pi, (den as int) * (den as int), den as int);
        lemma_div_multiples_vanish(den as int, den as int);
        assert(0 <= 4 * AMP_SCALE * ti && 4 * AMP_SCALE * ti
            <= 400_000_000_000_000_000_000_000) by (nonlinear_arith)
            requires
                0 <= ti && ti <= 100_000_000_000_000_000,
                AMP_SCALE == 1_000_000,
        ;
        lemma_sine_half_in_range(u as int, den as int);
    }
    let p: u128 = (u as u128) * ((den - u) as u128);
    let t: u128 = p / (den as u128);
    let v: u128 = (4 * (AMP_SCALE as u128) * t) / (den as u128);
    v as i64
}

/// Evaluates a waveform at the cycle fraction `num / den`.
pub fn wave_at(kind: Waveform, num: u64, den: u64) -> (r: i64)
    requires
        0 < den <= MAX_WAVE_DEN,
        num < den,
    ensures
        r == spec_wave(kind, num as int, den as int),
        -AMP_SCALE <= r <= AMP_SCALE,
        kind == Waveform::Square ==> r == AMP_SCALE || r == -AMP_SCALE,
{
    proof {
        lemma_wave_in_range(kind, num as int, den as int);
    }
    match kind {
        Waveform::Sine => {
            if 2 * num <= den {
                sine_half_at(2 * num, den)
            } else {
                let v = sine_half_at(2 * num - den, den);
                -v
            }
        },
        Waveform::Square => {
            if 0 < num && 2 * num < den {
                AMP_SCALE
            } else {
                -AMP_SCALE
            }
        },
        Waveform::Triangle => {
            proof {
                assert(0 <= 4 * AMP_SCALE * (num as int) && 4 * AMP_SCALE * (num as int) < (
                den as int) * (4 * AMP_SCALE) && 4 * AMP_SCALE * (num as int)
                    <= 400_000_000_000_000_000_000_000) by (nonlinear_arith)
                    requires
                        0 <= (num as int) && (num as int) < (den as int),
                        den as int <= 100_000_000_000_000_000,
                        AMP_SCALE == 1_000_000,
                ;
                lemma_div_pos_is_pos(4 * AMP_SCALE * (num as int), den as int);
                lemma_multiply_divide_lt(4 * AMP_SCALE * (num as int), den as int, 4 * AMP_SCALE);
            }
            let q128: u128 = (4 * (AMP_SCALE as u128) * (num as u128)) / (den as u128);
            let q: i64 = q128 as i64;
            if 4 * num <= den {
                q
            } else if 4 * num <= 3 * den {
                2 * AMP_SCALE - q
            } else {
                q - 4 * AMP_SCALE
            }
        },
        Waveform::Sawtooth => {
            proof {
                assert(0 <= 2 * AMP_SCALE * (num as int) && 2 * AMP_SCALE * (num as int) < (
                den as int) * (2 * AMP_SCALE) && 2 * AMP_SCALE * (num as int)
                    <= 200_000_000_000_000_000_000_000) by (nonlinear_arith)
                    requires
                        0 <= (num as int) && (num as int) < (den as int),
                        den as int <= 100_000_000_000_000_000,
                        AMP_SCALE == 1_000_000,
                ;
                lemma_div_pos_is_pos(2 * AMP_SCALE * (num as int), den as int);
                lemma_multiply_divide_lt(2 * AMP_SCALE * (num as int), den as int, 2 * AMP_SCALE);
            }
            let v128: u128 = (2 * (AMP_SCALE as u128) * (num as u128)) / (den as u128);
            let v: i64 = v128 as i64;
            v - AMP_SCALE
        },
    }
}

/// Value of a waveform at whole frame `elapsed_frames` of a stream running
/// at `sample_rate` Hz, for an oscillation of `frequency_millihz`
/// milli-hertz.  Pure: the result is a function of the four arguments alone.
pub fn tone(frequency_millihz: u64, elapsed_frames: u64, sample_rate: u64, kind: Waveform) -> (r:
    i64)
    requires
        0 < frequency_millihz,
        0 < sample_rate <= MAX_SAMPLE_RATE,
    ensures
        r == spec_tone(frequency_millihz as int, elapsed_frames as int, sample_rate as int, kind),
        -AMP_SCALE <= r <= AMP_SCALE,
        kind == Waveform::Square ==> r == AMP_SCALE || r == -AMP_SCALE,
{
    let den: u64 = 1000 * sample_rate;
    proof {
        assert(0 <= (elapsed_frames as int) * (frequency_millihz as int) && (elapsed_frames as int)
            * (frequency_millihz as int) <= 0xffffffffffffffffffffffffffffffff)
            by (nonlinear_arith)
            requires
                0 <= (elapsed_frames as int) && (elapsed_frames as int) <= 0xffffffffffffffff,
                0 <= (frequency_millihz as int) && (frequency_millihz as int) <= 0xffffffffffffffff,
        ;
        lemma_mod_division_less_than_divisor(
            (elapsed_frames as int) * (frequency_millihz as int),
            den as int,
        );
    }
    let num: u64 = (((elapsed_frames as u128) * (frequency_millihz as u128)) % (den as u128)) as u64;
    wave_at(kind, num, den)
}

} // verus!
