use synth::engine::Engine;
use synth::oscillator::Oscillator;
use synth::AMP_SCALE;
use synth::EngineError;

fn engine_440() -> Engine {
    Engine::new(48_000, 2, &vec![440_000]).unwrap()
}

fn engine_bank() -> Engine {
    // The six-voice bank: 80 Hz, 160 Hz, 380.546 Hz, 479.458 Hz, 570.175 Hz
    // and 718.376 Hz, in milli-hertz.
    Engine::new(
        48_000,
        2,
        &vec![80_000, 160_000, 380_546, 479_458, 570_175, 718_376],
    )
    .unwrap()
}

#[test]
fn engine_rejects_zero_sample_rate() {
    assert!(matches!(
        Engine::new(0, 2, &vec![440_000]),
        Err(EngineError::InvalidStreamConfig)
    ));
}

#[test]
fn engine_rejects_negative_sample_rate() {
    assert!(matches!(
        Engine::new(-48_000, 2, &vec![440_000]),
        Err(EngineError::InvalidStreamConfig)
    ));
}

#[test]
fn engine_rejects_zero_channels() {
    assert!(matches!(
        Engine::new(48_000, 0, &vec![440_000]),
        Err(EngineError::InvalidStreamConfig)
    ));
}

// No stream session can start from a bad oscillator configuration: the
// engine that would drive it is never constructed.
#[test]
fn engine_rejects_bad_oscillator_frequency() {
    assert!(matches!(
        Engine::new(48_000, 2, &vec![440_000, 0]),
        Err(EngineError::InvalidOscillatorConfig)
    ));
    assert!(matches!(
        Engine::new(48_000, 2, &vec![440_000, -5_000]),
        Err(EngineError::InvalidOscillatorConfig)
    ));
}

#[test]
fn engine_new_sets_state() {
    let e = engine_440();
    assert_eq!(e.sample_rate, 48_000);
    assert_eq!(e.frame_clock, 0);
    assert_eq!(e.channel_count, 2);
    assert_eq!(e.oscillators.len(), 1);
    assert_eq!(e.oscillators[0].frequency_millihz, 440_000);
    assert_eq!(e.oscillators[0].phase_num, 0);
}

// Identical engine snapshots give bit-identical mixes: no hidden entropy.
#[test]
fn mix_deterministic() {
    let mut e = engine_bank();
    let mut buffer = vec![0i64; 2 * 16];
    e.fill_buffer(&mut buffer).unwrap();
    for ch in 0..2usize {
        let a = e.mix(ch);
        let b = e.mix(ch);
        let c = e.mix(ch);
        assert_eq!(a, b);
        assert_eq!(b, c);
        assert!(-AMP_SCALE <= a && a <= AMP_SCALE);
    }
}

// A buffer of length 5 with two channels is misaligned: the call fails with
// BufferMisalignment and writes no partial frame, advances nothing.
#[test]
fn misaligned_buffer_refused() {
    let mut e = engine_440();
    let mut buffer = vec![7i64; 5];
    assert_eq!(
        e.fill_buffer(&mut buffer),
        Err(EngineError::BufferMisalignment)
    );
    assert_eq!(buffer, vec![7i64; 5]);
    assert_eq!(e.frame_clock, 0);
    assert_eq!(e.oscillators[0].phase_num, 0);
}

// One stereo frame from a single 440 Hz voice at 48000 Hz: the two channel
// samples are produced from the same just-advanced phase and differ only
// through the stereo detune offset (-0.1 Hz on channel 0, +0.1 Hz on
// channel 1).
#[test]
fn single_frame_stereo_detune() {
    let mut e = engine_440();
    let mut buffer = vec![0i64; 2];
    e.fill_buffer(&mut buffer).unwrap();
    assert_eq!(e.frame_clock, 1);
    assert_eq!(e.oscillators[0].phase_num, 440_000);
    // The same state, sampled by hand at the two detuned frequencies.
    let want0 = e.oscillators[0].sample(48_000, -100) / 5;
    let want1 = e.oscillators[0].sample(48_000, 100) / 5;
    assert_eq!(buffer, vec![want0, want1]);
    assert_eq!(buffer[0], 14_394);
    assert_eq!(buffer[1], 14_400);
    assert_ne!(buffer[0], buffer[1]);
}

// 48000 / 440 is about 109 frames per cycle; after that many frames the
// waveform comes back near its frame-0 value (the period is not a whole
// number of frames, so only within tolerance).
#[test]
fn waveform_returns_near_start_after_cycle() {
    let mut e = engine_440();
    let mut buffer = vec![0i64; 2 * 110];
    e.fill_buffer(&mut buffer).unwrap();
    let frame0 = buffer[0];
    let frame109 = buffer[2 * 109];
    assert_eq!(frame0, 14_394);
    assert_eq!(frame109, 13_108);
    assert!((frame0 - frame109).abs() < 10_000);
}

// Driving a second engine by hand — advance every voice once per frame,
// then mix each channel — reproduces fill_buffer's output exactly.
#[test]
fn fill_buffer_matches_mix() {
    let mut e = engine_bank();
    let mut buffer = vec![0i64; 2 * 3];
    e.fill_buffer(&mut buffer).unwrap();

    let mut m = engine_bank();
    let mut want: Vec<i64> = Vec::new();
    for _ in 0..3 {
        for k in 0..m.oscillators.len() {
            let mut o = m.oscillators[k];
            o.advance(m.sample_rate);
            m.oscillators[k] = o;
        }
        m.frame_clock += 1;
        for ch in 0..2usize {
            want.push(m.mix(ch));
        }
    }
    assert_eq!(buffer, want);
    assert_eq!(e.frame_clock, 3);
}

#[test]
fn multi_voice_first_frame_values() {
    let mut e = engine_bank();
    let mut buffer = vec![0i64; 2];
    e.fill_buffer(&mut buffer).unwrap();
    assert_eq!(buffer, vec![12_977, 12_984]);
}

#[test]
fn empty_bank_mixes_silence() {
    let mut e = Engine::new(48_000, 2, &vec![]).unwrap();
    assert_eq!(e.mix(0), 0);
    assert_eq!(e.mix(1), 0);
    let mut buffer = vec![5i64; 4];
    e.fill_buffer(&mut buffer).unwrap();
    assert_eq!(buffer, vec![0i64; 4]);
    assert_eq!(e.frame_clock, 2);
}

// An oscillator constructed directly agrees with one built by the engine.
#[test]
fn engine_voices_match_standalone_oscillators() {
    let e = engine_bank();
    for (i, &f) in [80_000i64, 160_000, 380_546, 479_458, 570_175, 718_376]
        .iter()
        .enumerate()
    {
        let o = Oscillator::new(f).unwrap();
        assert_eq!(e.oscillators[i], o);
    }
}
