use std::sync::atomic::{AtomicUsize, Ordering};
use std::sync::Arc;

use uniasset_audioplayer::error::AudioError;
use uniasset_audioplayer::hal::{AudioDevice, AudioManager};
use uniasset_audioplayer::mixer::{
    Advance, AudioStream, MixMath, Mixer, Position, ResampleRatio, SnapshotCell, StreamModifier, Tap,
};
use uniasset_audioplayer::player::{AudioPlayer, CleanupTimer};
use uniasset_audioplayer::types::AudioFormat;

struct FloatMath;

fn ratio_of(ratio: ResampleRatio) -> f64 {
    f64::from(ratio.stream_rate) / f64::from(ratio.mixer_rate)
}

impl MixMath<f32> for FloatMath {
    fn advance(position: Position, ratio: ResampleRatio, frame_count: usize) -> Advance {
        let start = position.frame as f64 + f64::from_bits(position.fraction);
        let end = start + frame_count as f64 * ratio_of(ratio);
        Advance {
            start_frame: position.frame,
            fraction: position.fraction,
            end_frame: end.ceil() as u64,
            next_position: Position {
                frame: end as u64,
                fraction: (end - end.floor()).to_bits(),
            },
        }
    }
    fn is_unity(ratio: ResampleRatio) -> bool {
        (ratio_of(ratio) - 1.0).abs() < 1e-9
    }
    fn tap(run: Advance, ratio: ResampleRatio, out_frame: usize, source_frames: usize) -> Tap {
        let start = run.start_frame as f64;
        let position = start + f64::from_bits(run.fraction) + out_frame as f64 * ratio_of(ratio);
        let relative = (position - start).min((source_frames - 1) as f64).max(0.0);
        let index = relative as usize;
        Tap {
            index,
            weight: (relative - index as f64).to_bits(),
        }
    }
    fn interpolate(before: f32, behind: f32, weight: u64) -> f32 {
        before + (behind - before) * f64::from_bits(weight) as f32
    }
    fn accumulate(sum: f32, sample: f32, volume: u32) -> f32 {
        sum + sample * f32::from_bits(volume)
    }
}

/// A position as a number of frames.
fn frames_at(position: Position) -> f64 {
    position.frame as f64 + f64::from_bits(position.fraction)
}

struct TestStream {
    sample_rate: u32,
}

impl AudioStream<f32> for TestStream {
    fn read(&self, buffer: &mut [f32], _frame_count: u64) -> usize {
        buffer.fill(0.0);
        buffer.len()
    }

    fn seek(&self, _frame: u64) -> Result<(), AudioError> {
        Ok(())
    }

    fn is_eof(&self) -> bool {
        false
    }

    fn channels(&self) -> u16 {
        2
    }

    fn sample_rate(&self) -> u32 {
        self.sample_rate
    }
}

/// Plays the given samples once.
struct Clip {
    samples: Vec<f32>,
    next: AtomicUsize,
    channels: u16,
    sample_rate: u32,
}

impl Clip {
    fn new(samples: Vec<f32>, channels: u16, sample_rate: u32) -> Self {
        Clip {
            samples,
            next: AtomicUsize::new(0),
            channels,
            sample_rate,
        }
    }
}

impl AudioStream<f32> for Clip {
    fn read(&self, buffer: &mut [f32], _frame_count: u64) -> usize {
        let start = self.next.load(Ordering::Relaxed);
        let count = buffer.len().min(self.samples.len() - start);
        buffer[..count].copy_from_slice(&self.samples[start..start + count]);
        self.next.store(start + count, Ordering::Relaxed);
        count
    }
    fn seek(&self, frame: u64) -> Result<(), AudioError> {
        if frame as usize > self.samples.len() {
            return Err(AudioError::FormatNotSupported);
        }
        self.next.store(frame as usize, Ordering::Relaxed);
        Ok(())
    }
    fn is_eof(&self) -> bool {
        self.next.load(Ordering::Relaxed) == self.samples.len()
    }
    fn channels(&self) -> u16 {
        self.channels
    }
    fn sample_rate(&self) -> u32 {
        self.sample_rate
    }
}

struct Negate;

impl StreamModifier<f32> for Negate {
    fn apply(&self, samples: &mut [f32]) {
        for sample in samples.iter_mut() {
            *sample = -*sample;
        }
    }
}

type TestMixer<S> = Mixer<f32, S, Negate, FloatMath>;

#[test]
fn format_and_resample_ratio_publish_together() {
    let mut mixer: TestMixer<Arc<dyn AudioStream<f32>>> = Mixer::new(48_000, 2);
    mixer.add_stream(
        Arc::new(TestStream {
            sample_rate: 48_000,
        }),
        true,
    );

    mixer.on_device_format_changed(AudioFormat::new(44_100, 2));

    let snapshot = mixer.snapshot_entries();
    assert_eq!(mixer.format(), AudioFormat::new(44_100, 2));
    assert_eq!(snapshot.len(), 1);
    assert!((ratio_of(snapshot[0].ratio) - (48_000.0 / 44_100.0)).abs() < f64::EPSILON);
}

#[test]
fn format_reconfiguration_preserves_stream_position() {
    let mut mixer: TestMixer<Arc<dyn AudioStream<f32>>> = Mixer::new(48_000, 2);
    mixer.add_stream(
        Arc::new(TestStream {
            sample_rate: 48_000,
        }),
        true,
    );

    mixer.store_position(
        0,
        Position {
            frame: 123,
            fraction: 0.5_f64.to_bits(),
        },
    );
    mixer.on_device_format_changed(AudioFormat::new(44_100, 2));

    assert_eq!(
        frames_at(mixer.snapshot_entries()[0].position),
        123.5
    );
}

#[test]
fn empty_mixer_is_silent() {
    let mut mixer: TestMixer<Clip> = Mixer::new(48_000, 2);
    let mut output = [9.0; 5];
    assert_eq!(mixer.pull(&mut output), 2);
    assert_eq!(output, [0.0; 5]);
    assert_eq!(mixer.stream_count(), 0);
}

#[test]
fn streams_are_summed_at_their_volume() {
    let mut mixer: TestMixer<Clip> = Mixer::new(48_000, 1);
    mixer.add_stream(Clip::new(vec![1.0, 2.0, 3.0, 4.0], 1, 48_000), true);
    let second = mixer.add_stream(Clip::new(vec![10.0; 4], 1, 48_000), true);
    assert!(mixer.set_volume(second, 0.5_f32.to_bits()));
    let mut output = [9.0; 2];
    assert_eq!(mixer.pull(&mut output), 2);
    assert_eq!(output, [6.0, 7.0]);
    assert_eq!(mixer.pull(&mut output), 2);
    assert_eq!(output, [8.0, 9.0]);
    assert_eq!(frames_at(mixer.snapshot_entries()[0].position), 4.0);
}

#[test]
fn resampling_interpolates_between_frames() {
    let mut mixer: TestMixer<Clip> = Mixer::new(48_000, 1);
    mixer.add_stream(Clip::new(vec![0.0, 1.0, 2.0, 3.0], 1, 24_000), true);
    let mut output = [9.0; 4];
    assert_eq!(mixer.pull(&mut output), 4);
    assert_eq!(output, [0.0, 0.5, 1.0, 1.0]);
    assert_eq!(frames_at(mixer.snapshot_entries()[0].position), 2.0);
}

#[test]
fn missing_channels_repeat_the_last_one() {
    let mut mixer: TestMixer<Clip> = Mixer::new(48_000, 3);
    mixer.add_stream(Clip::new(vec![1.0, 2.0, 3.0, 4.0], 2, 48_000), true);
    let mut output = [9.0; 6];
    assert_eq!(mixer.pull(&mut output), 2);
    assert_eq!(output, [1.0, 2.0, 2.0, 3.0, 4.0, 4.0]);
}

#[test]
fn extra_channels_are_trimmed() {
    let mut mixer: TestMixer<Clip> = Mixer::new(48_000, 1);
    mixer.add_stream(Clip::new(vec![1.0, 2.0, 3.0, 4.0], 2, 48_000), true);
    let mut output = [9.0; 2];
    assert_eq!(mixer.pull(&mut output), 2);
    assert_eq!(output, [1.0, 3.0]);
}

#[test]
fn short_reads_are_padded_with_silence() {
    let mut mixer: TestMixer<Clip> = Mixer::new(48_000, 1);
    mixer.add_stream(Clip::new(vec![5.0; 8], 2, 48_000), true);
    let mut output = [9.0; 4];
    mixer.pull(&mut output);
    assert_eq!(output, [5.0; 4]);

    let mut mixer: TestMixer<Clip> = Mixer::new(48_000, 1);
    mixer.add_stream(Clip::new(vec![5.0; 8], 2, 48_000), true);
    mixer.add_stream(Clip::new(vec![1.0, 1.0], 2, 48_000), true);
    mixer.pull(&mut output);
    assert_eq!(output, [6.0, 5.0, 5.0, 5.0]);
}

#[test]
fn modifiers_apply_before_mixing() {
    let mut mixer: TestMixer<Clip> = Mixer::new(48_000, 1);
    let handle = mixer.add_stream(Clip::new(vec![1.0, 2.0, 3.0], 1, 48_000), true);
    assert!(mixer.set_modifier(handle, Some(Negate)));
    let mut output = [9.0; 2];
    mixer.pull(&mut output);
    assert_eq!(output, [-1.0, -2.0]);
    assert!(mixer.set_modifier(handle, None));
    mixer.pull(&mut output);
    assert_eq!(output, [3.0, 0.0]);
}

#[test]
fn paused_streams_wait() {
    let mut mixer: TestMixer<Clip> = Mixer::new(48_000, 1);
    let handle = mixer.add_stream(Clip::new(vec![1.0, 2.0], 1, 48_000), false);
    assert!(mixer.state(handle).unwrap().paused);
    let mut output = [9.0; 1];
    mixer.pull(&mut output);
    assert_eq!(output, [0.0]);
    assert_eq!(frames_at(mixer.snapshot_entries()[0].position), 0.0);
    assert!(mixer.set_paused(handle, false));
    mixer.pull(&mut output);
    assert_eq!(output, [1.0]);
}

#[test]
fn ended_streams_are_flagged_and_removed() {
    let mut mixer: TestMixer<Clip> = Mixer::new(48_000, 1);
    let first = mixer.add_stream(Clip::new(vec![1.0], 1, 48_000), true);
    let second = mixer.add_stream(Clip::new(vec![2.0; 10], 1, 48_000), true);
    let mut output = [9.0; 1];
    mixer.cleanup_eof();
    assert_eq!(mixer.stream_count(), 2);
    mixer.pull(&mut output);
    assert_eq!(output, [3.0]);
    assert!(mixer.state(first).unwrap().eof);
    assert!(!mixer.state(second).unwrap().eof);
    mixer.pull(&mut output);
    assert_eq!(output, [2.0]);
    mixer.cleanup_eof();
    assert_eq!(mixer.stream_count(), 1);
    assert!(mixer.state(first).is_none());
    assert!(!mixer.set_paused(first, true));
    assert!(mixer.seek(first, 0).is_none());
    assert_eq!(frames_at(mixer.snapshot_entries()[0].position), 2.0);
    assert_eq!(mixer.snapshot_entries()[0].id, second.id);
    let third = mixer.add_stream(Clip::new(vec![], 1, 48_000), true);
    assert!(third.id != first.id && third.id != second.id);
    assert_eq!(frames_at(mixer.snapshot_entries()[0].position), 2.0);
    assert_eq!(frames_at(mixer.snapshot_entries()[1].position), 0.0);
}

/// Always fills the buffer, with silence once it has ended.
struct Padded(Clip);

impl AudioStream<f32> for Padded {
    fn read(&self, buffer: &mut [f32], frame_count: u64) -> usize {
        let count = self.0.read(buffer, frame_count);
        buffer[count..].fill(0.0);
        buffer.len()
    }
    fn seek(&self, frame: u64) -> Result<(), AudioError> {
        self.0.seek(frame)
    }
    fn is_eof(&self) -> bool {
        self.0.is_eof()
    }
    fn channels(&self) -> u16 {
        self.0.channels
    }
    fn sample_rate(&self) -> u32 {
        self.0.sample_rate
    }
}

#[test]
fn ended_streams_are_removed_though_their_reads_are_full() {
    let mut mixer: TestMixer<Padded> = Mixer::new(48_000, 1);
    let handle = mixer.add_stream(Padded(Clip::new(vec![1.0, 2.0, 3.0], 1, 48_000)), true);
    let mut output = [9.0; 2];
    mixer.pull(&mut output);
    assert_eq!(output, [1.0, 2.0]);
    mixer.cleanup_eof();
    assert_eq!(mixer.stream_count(), 1);
    mixer.pull(&mut output);
    assert_eq!(output, [3.0, 0.0]);
    assert!(mixer.state(handle).unwrap().eof);
    mixer.cleanup_eof();
    assert_eq!(mixer.stream_count(), 0);
}

#[test]
fn resampling_goes_on_across_callbacks() {
    let ramp: Vec<f32> = (0..20).map(|i| i as f32).collect();
    let mut mixer: TestMixer<Clip> = Mixer::new(48_000, 1);
    mixer.add_stream(Clip::new(ramp.clone(), 1, 24_000), true);
    let mut output = [9.0; 3];
    mixer.pull(&mut output);
    assert_eq!(output, [0.0, 0.5, 1.0]);
    mixer.pull(&mut output);
    assert_eq!(output[..2], [1.5, 2.0]);
    mixer.pull(&mut output);
    assert_eq!(output, [3.0, 3.5, 4.0]);
    assert_eq!(frames_at(mixer.snapshot_entries()[0].position), 4.5);

    let mut mixer: TestMixer<Clip> = Mixer::new(48_000, 1);
    mixer.add_stream(Clip::new(ramp, 1, 24_000), true);
    let mut output = [9.0; 1];
    let mut heard = Vec::new();
    for _ in 0..6 {
        mixer.pull(&mut output);
        heard.push(output[0]);
    }
    assert_eq!(heard[0], 0.0);
    assert_eq!(heard[2], 1.0);
    assert_eq!(heard[4], 2.0);
}

#[test]
fn held_frames_are_modified_once() {
    let mut mixer: TestMixer<Clip> = Mixer::new(48_000, 1);
    let ramp: Vec<f32> = (0..20).map(|i| i as f32).collect();
    let handle = mixer.add_stream(Clip::new(ramp, 1, 24_000), true);
    mixer.set_modifier(handle, Some(Negate));
    let mut output = [9.0; 3];
    mixer.pull(&mut output);
    assert_eq!(output, [0.0, -0.5, -1.0]);
    mixer.pull(&mut output);
    assert_eq!(output[..2], [-1.5, -2.0]);
}

#[test]
fn held_frames_are_dropped_by_a_seek() {
    let mut mixer: TestMixer<Clip> = Mixer::new(48_000, 1);
    let ramp: Vec<f32> = (0..20).map(|i| i as f32).collect();
    let handle = mixer.add_stream(Clip::new(ramp, 1, 24_000), true);
    let mut output = [9.0; 3];
    mixer.pull(&mut output);
    assert!(matches!(mixer.seek(handle, 10), Some(Ok(()))));
    mixer.pull(&mut output);
    assert_eq!(output[..2], [10.5, 11.0]);
    assert!(mixer.stream_sought(handle));
    mixer.pull(&mut output);
    assert!(matches!(
        mixer.seek(handle, 99),
        Some(Err(AudioError::FormatNotSupported))
    ));
    mixer.pull(&mut output);
    assert_eq!(output[0], 13.5);
}

#[test]
fn streams_at_the_mixer_rate_stay_on_frames() {
    let mut mixer: TestMixer<Clip> = Mixer::new(44_100, 1);
    mixer.add_stream(Clip::new(vec![1.0; 100], 1, 44_100), true);
    let mut output = [9.0; 7];
    for pulls in 1..=5 {
        mixer.pull(&mut output);
        assert_eq!(output, [1.0; 7]);
        assert_eq!(
            mixer.snapshot_entries()[0].position,
            Position {
                frame: 7 * pulls,
                fraction: 0
            }
        );
    }
}

#[test]
fn streams_between_frames_are_mixed_between_frames() {
    let ramp: Vec<f32> = (0..20).map(|i| i as f32).collect();
    let mut mixer: TestMixer<Clip> = Mixer::new(48_000, 2);
    mixer.add_stream(Clip::new(ramp, 1, 24_000), true);
    let mut output = [9.0; 2];
    mixer.pull(&mut output);
    assert_eq!(output, [0.0; 2]);
    mixer.on_device_format_changed(AudioFormat::new(24_000, 2));
    let mut output = [9.0; 6];
    mixer.pull(&mut output);
    assert_eq!(output, [0.5, 0.5, 1.5, 1.5, 2.5, 2.5]);
    mixer.pull(&mut output);
    assert_eq!(output, [3.5, 3.5, 4.5, 4.5, 5.5, 5.5]);
    assert_eq!(frames_at(mixer.snapshot_entries()[0].position), 6.5);
}

#[test]
fn publishing_covers_every_stream() {
    let mut mixer: TestMixer<Clip> = Mixer::new(48_000, 1);
    mixer.add_stream(Clip::new(vec![1.0; 10], 1, 48_000), true);
    let mut output = [9.0; 4];
    mixer.pull(&mut output);
    mixer.add_stream(Clip::new(vec![1.0; 10], 2, 44_100), true);
    mixer.publish_snapshot(AudioFormat::new(32_000, 1));
    let cells = mixer.snapshot_entries();
    assert_eq!(cells.len(), 2);
    assert_eq!(frames_at(cells[0].position), 4.0);
    assert_eq!(frames_at(cells[1].position), 0.0);
    assert_eq!(cells[1].stream_channels, 2);
    for (cell, rate) in cells.iter().zip([48_000, 44_100]) {
        assert_eq!(cell.ratio.stream_rate, rate);
        assert_eq!(cell.ratio.mixer_rate, 32_000);
    }
    assert_eq!(mixer.format(), AudioFormat::new(32_000, 1));
}

#[test]
fn two_pulls_are_one_longer_pull() {
    let samples: Vec<f32> = (0..40).map(|i| i as f32).collect();
    for channels in 1..4 {
        let mut whole: TestMixer<Clip> = Mixer::new(48_000, 2);
        let mut pieces: TestMixer<Clip> = Mixer::new(48_000, 2);
        for mixer in [&mut whole, &mut pieces] {
            mixer.add_stream(Clip::new(samples.clone(), channels, 48_000), true);
            mixer.add_stream(Clip::new(vec![0.5; 40], 2, 48_000), true);
            mixer.add_stream(Clip::new(vec![9.0; 40], 2, 48_000), false);
        }
        let mut expected = [0.0; 10];
        whole.pull(&mut expected);
        let mut first = [0.0; 4];
        let mut second = [0.0; 6];
        pieces.pull(&mut first);
        pieces.pull(&mut second);
        assert_eq!(first, expected[..4]);
        assert_eq!(second, expected[4..]);
    }
}

#[test]
fn seeking_reaches_the_stream() {
    let mut mixer: TestMixer<Clip> = Mixer::new(48_000, 1);
    let handle = mixer.add_stream(Clip::new(vec![1.0, 2.0, 3.0], 1, 48_000), true);
    assert!(matches!(mixer.seek(handle, 2), Some(Ok(()))));
    assert!(matches!(
        mixer.seek(handle, 9),
        Some(Err(AudioError::FormatNotSupported))
    ));
    let mut output = [9.0; 1];
    mixer.pull(&mut output);
    assert_eq!(output, [3.0]);
}

#[test]
fn device_changes_are_counted() {
    let mut mixer: TestMixer<Clip> = Mixer::new(48_000, 2);
    assert_eq!(mixer.device_change_epoch(), 0);
    assert!(mixer.has_free_id());
    mixer.on_device_invalidated();
    mixer.on_device_format_changed(AudioFormat::new(48_000, 2));
    mixer.on_device_recovered();
    assert_eq!(mixer.device_change_epoch(), 3);
    assert_eq!(mixer.format(), AudioFormat::new(48_000, 2));
}

#[test]
fn published_snapshots_reach_other_owners() {
    let mut mixer: TestMixer<Clip> = Mixer::new(48_000, 2);
    let cell = Arc::new(SnapshotCell::new(mixer.freeze()));
    let reader = Arc::clone(&cell);
    let before = reader.load();
    assert_eq!(before.stream_count(), 0);
    mixer.add_stream(Clip::new(vec![1.0], 1, 48_000), true);
    mixer.on_device_format_changed(AudioFormat::new(44_100, 2));
    cell.publish(mixer.freeze());
    let after = reader.load();
    assert_eq!(after.format(), AudioFormat::new(44_100, 2));
    assert_eq!(after.stream_count(), 1);
    assert_eq!(after.entries[0].ratio.mixer_rate, 44_100);
    assert_eq!(before.format(), AudioFormat::new(48_000, 2));
}

/// A device that can be told to fail.
struct TestDevice {
    format: AudioFormat,
    fail: bool,
    calls: Vec<char>,
}

impl TestDevice {
    fn call(&mut self, name: char) -> Result<(), AudioError> {
        self.calls.push(name);
        if self.fail {
            Err(AudioError::DeviceBusy)
        } else {
            Ok(())
        }
    }
}

impl AudioDevice for TestDevice {
    fn format(&self) -> AudioFormat {
        self.format
    }
    fn start(&mut self) -> Result<(), AudioError> {
        self.call('s')
    }
    fn stop(&mut self) -> Result<(), AudioError> {
        self.call('x')
    }
    fn pause(&mut self) -> Result<(), AudioError> {
        self.call('p')
    }
    fn resume(&mut self) -> Result<(), AudioError> {
        self.call('r')
    }
}

type TestPlayer = AudioPlayer<f32, Clip, Negate, FloatMath, TestDevice>;

fn device(fail: bool) -> TestDevice {
    TestDevice {
        format: AudioFormat::new(44_100, 1),
        fail,
        calls: Vec::new(),
    }
}

#[test]
fn player_takes_the_format_of_its_device() {
    let mut player = TestPlayer::new(Ok(device(false))).ok().unwrap();
    assert_eq!(player.format(), AudioFormat::new(44_100, 1));
    player.add_stream(Clip::new(vec![1.0, 2.0], 1, 44_100), true);
    assert_eq!(player.stream_count(), 1);
    assert!(player.pause().is_ok());
    assert!(player.resume().is_ok());
    assert_eq!(player.shutdown().calls, vec!['s', 'p', 'r', 'x']);
}

#[test]
fn player_reports_why_it_cannot_play() {
    assert!(matches!(
        TestPlayer::new(Err(AudioError::DeviceNotFound)),
        Err(AudioError::DeviceNotFound)
    ));
    assert!(matches!(
        TestPlayer::new(Ok(device(true))),
        Err(AudioError::DeviceBusy)
    ));
}

#[test]
fn player_removes_finished_streams_periodically() {
    let mut player = TestPlayer::new(Ok(device(false))).ok().unwrap();
    player.add_stream(Clip::new(vec![1.0], 1, 44_100), true);
    let mut output = [0.0; 1];
    player.mixer_mut().pull(&mut output);
    assert_eq!(output, [1.0]);
    player.mixer_mut().pull(&mut output);
    for _ in 0..49 {
        assert!(!player.tick());
    }
    assert_eq!(player.stream_count(), 1);
    assert!(player.tick());
    assert_eq!(player.stream_count(), 0);
}

#[test]
fn cleanup_is_due_on_every_fiftieth_tick() {
    let mut timer = CleanupTimer::new();
    for tick in 1..=200 {
        assert_eq!(timer.tick(), tick % 50 == 0);
    }
}

/// Hands the mixer's frames out as a manager would.
struct Fixed(f32);

impl AudioManager<f32> for Fixed {
    fn pull(&self, buffer: &mut [f32]) -> usize {
        buffer.fill(self.0);
        buffer.len()
    }
}

#[test]
fn managers_can_be_shared() {
    let manager = Arc::new(Fixed(0.5));
    let mut output = [0.0; 2];
    assert_eq!(AudioManager::pull(&manager, &mut output), 2);
    assert_eq!(output, [0.5, 0.5]);
}

#[test]
fn epoch_counts_device_changes_only() {
    let mut mixer: TestMixer<Clip> = Mixer::new(48_000, 1);
    let mut output = [9.0; 2];
    for round in 1..=3 {
        mixer.on_device_invalidated();
        mixer.add_stream(Clip::new(vec![1.0], 1, 48_000), true);
        mixer.on_device_format_changed(AudioFormat::new(44_100, 1));
        mixer.pull(&mut output);
        mixer.on_device_recovered();
        mixer.cleanup_eof();
        assert_eq!(mixer.device_change_epoch(), 3 * round);
    }
}
