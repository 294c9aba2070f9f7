use synth::oscillator::Oscillator;
use synth::EngineError;

#[test]
fn new_rejects_zero_frequency() {
    assert!(matches!(
        Oscillator::new(0),
        Err(EngineError::InvalidOscillatorConfig)
    ));
}

#[test]
fn new_rejects_negative_frequency() {
    // -5 Hz is -5000 milli-hertz; a bare -5 milli-hertz is just as invalid.
    assert!(matches!(
        Oscillator::new(-5_000),
        Err(EngineError::InvalidOscillatorConfig)
    ));
    assert!(matches!(
        Oscillator::new(-5),
        Err(EngineError::InvalidOscillatorConfig)
    ));
}

#[test]
fn new_accepts_positive_frequency() {
    let o = Oscillator::new(440_000).unwrap();
    assert_eq!(o.frequency_millihz, 440_000);
    assert_eq!(o.phase_num, 0);
}

// The phase numerator always stays within [0, 1000 * sample_rate) and
// follows the exact wrap formula.
#[test]
fn advance_wraps_within_cycle() {
    let sr: u64 = 48_000;
    let den: u64 = 1000 * sr;
    let mut o = Oscillator::new(440_000).unwrap();
    for k in 1..=500u64 {
        o.advance(sr);
        assert!(o.phase_num < den);
        assert_eq!(o.phase_num, (k * 440_000) % den);
    }
}

// A 480 Hz voice at 48000 Hz closes its cycle after exactly 100 advances:
// the phase clock returns to its starting value.
#[test]
fn advance_cycle_closure() {
    let sr: u64 = 48_000;
    let mut o = Oscillator::new(480_000).unwrap();
    for _ in 0..100 {
        o.advance(sr);
    }
    assert_eq!(o.phase_num, 0);

    // Starting mid-cycle closes the same way.
    let mut p = Oscillator::new(480_000).unwrap();
    for _ in 0..7 {
        p.advance(sr);
    }
    let mid = p.phase_num;
    for _ in 0..100 {
        p.advance(sr);
    }
    assert_eq!(p.phase_num, mid);
}

#[test]
fn sample_deterministic_and_in_range() {
    let sr: u64 = 48_000;
    let mut o = Oscillator::new(440_000).unwrap();
    for _ in 0..37 {
        o.advance(sr);
    }
    let a = o.sample(sr, -100);
    let b = o.sample(sr, -100);
    assert_eq!(a, b);
    assert!(-synth::AMP_SCALE <= a && a <= synth::AMP_SCALE);
    // The detune offset changes the effective frequency, so it changes the
    // sample away from the undetuned one at a mid-cycle phase.
    let undetuned = o.sample(sr, 0);
    assert_ne!(a, undetuned);
}
