use synth::waveform::{tone, Waveform};
use synth::AMP_SCALE;

// Sample rate 1000 Hz with a 250 Hz tone gives a whole 4-frame period, so
// the quarter-cycle points land exactly on frames.
#[test]
fn sine_quarter_cycle_values() {
    assert_eq!(tone(250_000, 0, 1000, Waveform::Sine), 0);
    assert_eq!(tone(250_000, 1, 1000, Waveform::Sine), AMP_SCALE);
    assert_eq!(tone(250_000, 2, 1000, Waveform::Sine), 0);
    assert_eq!(tone(250_000, 3, 1000, Waveform::Sine), -AMP_SCALE);
    assert_eq!(tone(250_000, 4, 1000, Waveform::Sine), 0);
    assert_eq!(tone(250_000, 5, 1000, Waveform::Sine), AMP_SCALE);
}

// A 125 Hz tone at 1000 Hz has a whole 8-frame period: eighth-cycle points.
#[test]
fn sine_eighth_cycle_values() {
    let expected: [i64; 8] = [
        0, 750_000, 1_000_000, 750_000, 0, -750_000, -1_000_000, -750_000,
    ];
    for (t, &want) in expected.iter().enumerate() {
        assert_eq!(tone(125_000, t as u64, 1000, Waveform::Sine), want);
    }
}

#[test]
fn sawtooth_exact_ramp() {
    let expected: [i64; 8] = [
        -1_000_000, -750_000, -500_000, -250_000, 0, 250_000, 500_000, 750_000,
    ];
    for (t, &want) in expected.iter().enumerate() {
        assert_eq!(tone(125_000, t as u64, 1000, Waveform::Sawtooth), want);
    }
}

#[test]
fn triangle_exact_values() {
    let expected: [i64; 8] = [
        0, 500_000, 1_000_000, 500_000, 0, -500_000, -1_000_000, -500_000,
    ];
    for (t, &want) in expected.iter().enumerate() {
        assert_eq!(tone(125_000, t as u64, 1000, Waveform::Triangle), want);
    }
}

// The square wave's zero crossings (phase 0 and half cycle) go to the low
// extreme: ties go to -1.
#[test]
fn square_tie_goes_low() {
    assert_eq!(tone(250_000, 0, 1000, Waveform::Square), -AMP_SCALE);
    assert_eq!(tone(250_000, 1, 1000, Waveform::Square), AMP_SCALE);
    assert_eq!(tone(250_000, 2, 1000, Waveform::Square), -AMP_SCALE);
    assert_eq!(tone(250_000, 3, 1000, Waveform::Square), -AMP_SCALE);
}

// The square wave never takes an intermediate value, over a dense sweep of
// frames and several frequencies.
#[test]
fn square_only_extremes_sweep() {
    for &f in &[80_000u64, 440_000, 479_458, 718_376, 1_333] {
        for t in 0..2000u64 {
            let v = tone(f, t, 48_000, Waveform::Square);
            assert!(v == AMP_SCALE || v == -AMP_SCALE);
        }
    }
}

// Sawtooth and triangle stay within [-1, 1] over a dense sweep.
#[test]
fn sawtooth_triangle_in_range_sweep() {
    for &f in &[80_000u64, 380_546, 570_175, 718_376, 99_999_937] {
        for t in 0..3000u64 {
            let s = tone(f, t, 48_000, Waveform::Sawtooth);
            assert!(-AMP_SCALE <= s && s <= AMP_SCALE);
            let tr = tone(f, t, 48_000, Waveform::Triangle);
            assert!(-AMP_SCALE <= tr && tr <= AMP_SCALE);
        }
    }
}

#[test]
fn sine_in_range_sweep() {
    for &f in &[80_000u64, 160_000, 479_458, 99_999_937] {
        for t in 0..3000u64 {
            let v = tone(f, t, 48_000, Waveform::Sine);
            assert!(-AMP_SCALE <= v && v <= AMP_SCALE);
        }
    }
}

// A 480 Hz tone at 48000 Hz has a whole 100-frame period: the tone repeats
// bit-for-bit after exactly one period, for every waveform kind.
#[test]
fn tone_periodic_whole_period() {
    let kinds = [
        Waveform::Sine,
        Waveform::Square,
        Waveform::Triangle,
        Waveform::Sawtooth,
    ];
    for kind in kinds {
        for t in 0..500u64 {
            assert_eq!(
                tone(480_000, t, 48_000, kind),
                tone(480_000, t + 100, 48_000, kind)
            );
        }
    }
}

// The tone is a pure function of its arguments: repeated calls are
// bit-identical.
#[test]
fn tone_deterministic() {
    for t in 0..200u64 {
        let a = tone(440_000, t, 48_000, Waveform::Sine);
        let b = tone(440_000, t, 48_000, Waveform::Sine);
        assert_eq!(a, b);
    }
}
