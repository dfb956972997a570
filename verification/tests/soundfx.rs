use uniasset_audioplayer::error::AudioError;
use uniasset_audioplayer::stream::{EffectMath, SoundFx};

const FAST_LIMIT: f32 = 0.98;
const SUSTAIN_LIMIT: f32 = 0.90;
const ENVELOPE_RELEASE: f32 = 0.995;

struct FloatMath;

impl EffectMath<f32> for FloatMath {
    fn add_samples(sum: f32, sample: f32) -> f32 {
        sum + sample
    }
    fn share(sample: f32, voices: usize) -> f32 {
        sample * (1.0 / (voices as f32).sqrt())
    }
    fn louder(peak: f32, sample: f32) -> f32 {
        peak.max(sample.abs())
    }
    fn soft_clip(sample: f32, peak: f32) -> f32 {
        let gain = if peak > FAST_LIMIT {
            FAST_LIMIT / peak
        } else {
            1.0
        };
        (sample * gain).tanh()
    }
    fn follow(peak: f32, envelope: f32) -> f32 {
        peak.max(envelope * ENVELOPE_RELEASE)
    }
    fn is_hot(envelope: f32) -> bool {
        envelope > SUSTAIN_LIMIT
    }
    fn sustain(sample: f32, envelope: f32) -> f32 {
        sample * (SUSTAIN_LIMIT / envelope)
    }
}

/// Exact integer samples: nothing is attenuated or limited.
struct PlainMath;

impl EffectMath<i32> for PlainMath {
    fn add_samples(sum: i32, sample: i32) -> i32 {
        sum + sample
    }
    fn share(sample: i32, _voices: usize) -> i32 {
        sample
    }
    fn louder(peak: i32, sample: i32) -> i32 {
        peak.max(sample.abs())
    }
    fn soft_clip(sample: i32, _peak: i32) -> i32 {
        sample
    }
    fn follow(peak: i32, envelope: i32) -> i32 {
        peak.max(envelope - 1)
    }
    fn is_hot(envelope: i32) -> bool {
        envelope > 1000
    }
    fn sustain(sample: i32, _envelope: i32) -> i32 {
        sample / 2
    }
}

type FloatFx = SoundFx<f32, FloatMath>;
type PlainFx = SoundFx<i32, PlainMath>;

#[test]
fn overlapping_voices_use_root_n_gain() {
    let mut sound = FloatFx::new(vec![0.1], 1, 48_000, 2).unwrap();
    assert!(sound.trigger());
    assert!(sound.trigger());

    let mut output = [0.0];
    assert_eq!(sound.read(&mut output, 1), 1);
    assert!((output[0] / 0.1 - 2.0_f32.sqrt()).abs() < 0.02);
}

#[test]
fn retriggers_after_a_voice_finishes() {
    let mut sound = FloatFx::new(vec![0.25], 1, 48_000, 1).unwrap();
    assert!(sound.trigger());

    let mut output = [0.0];
    sound.read(&mut output, 1);
    sound.read(&mut output, 1);

    assert_eq!(output, [0.0]);
    assert!(!sound.is_eof());
    assert!(sound.trigger());
}

#[test]
fn limiter_bounds_large_transients() {
    let mut sound = FloatFx::new(vec![100.0], 1, 48_000, 1).unwrap();
    sound.trigger();

    let mut output = [0.0];
    sound.read(&mut output, 1);

    assert!(output[0].is_finite());
    assert!(output[0].abs() <= SUSTAIN_LIMIT);
}

#[test]
fn limiter_keeps_bounding_a_sustained_effect() {
    let mut sound = FloatFx::new(vec![100.0; 64], 1, 48_000, 1).unwrap();
    sound.trigger();
    let mut output = [0.0; 64];
    sound.read(&mut output, 64);
    assert!(output.iter().all(|sample| sample.abs() <= SUSTAIN_LIMIT));
}

#[test]
fn voices_overlap_frame_by_frame() {
    let mut sound = PlainFx::new(vec![1, 10, 2, 20, 3, 30], 2, 48_000, 2).unwrap();
    let mut output = [0; 2];
    assert!(sound.trigger());
    sound.read(&mut output, 1);
    assert_eq!(output, [1, 10]);
    assert!(sound.trigger());
    let mut output = [0; 6];
    assert_eq!(sound.read(&mut output, 3), 6);
    assert_eq!(output, [3, 30, 5, 50, 3, 30]);
    let mut output = [7; 3];
    assert_eq!(sound.read(&mut output, 1), 3);
    assert_eq!(output, [0, 0, 0]);
}

#[test]
fn reading_in_pieces_is_reading_at_once() {
    let mut whole = PlainFx::new(vec![1, 2, 3, 4, 5], 1, 48_000, 1).unwrap();
    let mut pieces = PlainFx::new(vec![1, 2, 3, 4, 5], 1, 48_000, 1).unwrap();
    whole.trigger();
    pieces.trigger();
    let mut expected = [0; 6];
    whole.read(&mut expected, 6);
    let mut first = [0; 2];
    let mut second = [0; 4];
    pieces.read(&mut first, 2);
    pieces.read(&mut second, 4);
    assert_eq!(expected, [1, 2, 3, 4, 5, 0]);
    assert_eq!(first, [1, 2]);
    assert_eq!(second, [3, 4, 5, 0]);
}

#[test]
fn full_pool_restarts_the_voice_nearest_to_its_end() {
    let mut sound = PlainFx::new(vec![1, 20, 300], 1, 48_000, 2).unwrap();
    let mut output = [0];
    sound.trigger();
    sound.read(&mut output, 1);
    sound.trigger();
    sound.read(&mut output, 1);
    assert_eq!(output, [21]);
    assert!(!sound.trigger());
    sound.read(&mut output, 1);
    assert_eq!(output, [21]);
    sound.read(&mut output, 1);
    assert_eq!(output, [320]);
}

#[test]
fn loud_envelope_engages_the_sustain_limiter() {
    let mut sound = PlainFx::new(vec![2000, 10], 1, 48_000, 1).unwrap();
    sound.trigger();
    let mut output = [0; 2];
    sound.read(&mut output, 2);
    assert_eq!(output, [1000, 5]);
}

#[test]
fn seek_moves_active_voices_only() {
    let mut sound = PlainFx::new(vec![1, 2, 3], 1, 48_000, 2).unwrap();
    sound.trigger();
    assert!(sound.seek(2).is_ok());
    let mut output = [0; 2];
    sound.read(&mut output, 2);
    assert_eq!(output, [3, 0]);
    sound.trigger();
    assert!(sound.seek(3).is_ok());
    sound.read(&mut output, 2);
    assert_eq!(output, [0, 0]);
    assert_eq!(sound.channels(), 1);
    assert_eq!(sound.sample_rate(), 48_000);
}

fn message(result: Result<PlainFx, AudioError>) -> String {
    match result {
        Err(AudioError::StreamError(message)) => message,
        _ => panic!("the effect cannot be made"),
    }
}

#[test]
fn incomplete_effects_are_rejected() {
    assert_eq!(
        message(PlainFx::new(vec![1], 0, 48_000, 1)),
        "SoundFx requires at least one channel"
    );
    assert_eq!(
        message(PlainFx::new(vec![1], 1, 0, 1)),
        "SoundFx requires a non-zero sample rate"
    );
    assert_eq!(
        message(PlainFx::new(vec![1], 1, 48_000, 0)),
        "SoundFx requires at least one voice"
    );
    assert_eq!(
        message(PlainFx::new(vec![1, 2, 3], 2, 48_000, 1)),
        "SoundFx PCM must contain complete, non-empty frames"
    );
    assert_eq!(
        message(PlainFx::new(vec![], 1, 48_000, 1)),
        "SoundFx PCM must contain complete, non-empty frames"
    );
}
