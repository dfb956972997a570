use std::sync::atomic::{AtomicBool, AtomicU64, AtomicUsize, Ordering};
use std::sync::Arc;
use std::time::Duration;

use uniasset_audioplayer::error::AudioError;
use uniasset_audioplayer::mixer::AudioStream;
use uniasset_audioplayer::stream::buffered_stream::{
    acquire_worker_handle, buffer_capacity, buffer_capacity_of, fill_groups, fill_round,
    spawn_failed, AudioBuffer, BufferError, BufferedAudioStream, FillRound, GroupFill, RefillPlan,
    Wake, WorkerState, WorkerStep,
};

/// Counts upwards, `left` samples at most.
struct Counter {
    next: AtomicU64,
    left: AtomicUsize,
    fail_seek: AtomicBool,
    channels: u16,
}

impl Counter {
    fn new(left: usize) -> Self {
        Counter {
            next: AtomicU64::new(0),
            left: AtomicUsize::new(left),
            fail_seek: AtomicBool::new(false),
            channels: 1,
        }
    }
}

impl AudioStream<f32> for Counter {
    fn read(&self, buffer: &mut [f32], _frame_count: u64) -> usize {
        let count = buffer.len().min(self.left.load(Ordering::Relaxed));
        for sample in buffer[..count].iter_mut() {
            *sample = self.next.fetch_add(1, Ordering::Relaxed) as f32;
        }
        self.left.fetch_sub(count, Ordering::Relaxed);
        count
    }
    fn seek(&self, frame: u64) -> Result<(), AudioError> {
        if self.fail_seek.load(Ordering::Relaxed) {
            return Err(AudioError::DeviceBusy);
        }
        self.next.store(frame, Ordering::Relaxed);
        Ok(())
    }
    fn is_eof(&self) -> bool {
        self.left.load(Ordering::Relaxed) == 0
    }
    fn channels(&self) -> u16 {
        self.channels
    }
    fn sample_rate(&self) -> u32 {
        10
    }
}

#[test]
fn arc_forwards_streams() {
    let stream: Arc<dyn AudioStream<f32>> = Arc::new(Counter::new(2));
    let mut samples = [9.0; 3];
    assert!(!stream.is_eof());
    assert_eq!(stream.read(&mut samples, 3), 2);
    assert_eq!(samples, [0.0, 1.0, 9.0]);
    assert!(stream.is_eof());
    assert_eq!(stream.channels(), 1);
    assert_eq!(stream.sample_rate(), 10);
    assert!(stream.seek(3).is_ok());
}

#[test]
fn buffer_capacity_supports_fractional_seconds() {
    assert_eq!(
        buffer_capacity(48_000, 2, Duration::from_millis(1_500)).unwrap(),
        144_000
    );
}

#[test]
fn buffer_capacity_rejects_zero_duration() {
    assert!(buffer_capacity(48_000, 2, Duration::ZERO).is_err());
}

#[test]
fn buffer_capacity_says_why_it_fails() {
    assert_eq!(
        buffer_capacity(48_000, 2, Duration::ZERO),
        Err(BufferError::NoSamples)
    );
    assert_eq!(
        buffer_capacity(48_000, 0, Duration::from_secs(1)),
        Err(BufferError::NoSamples)
    );
    assert_eq!(
        buffer_capacity_of(u32::MAX, u16::MAX, u64::MAX, 0),
        Err(BufferError::CapacityTooLarge)
    );
    assert_eq!(
        BufferError::NoSamples.message(),
        "buffer duration must contain at least one sample"
    );
    assert_eq!(
        BufferError::CapacityTooLarge.message(),
        "buffer capacity is too large"
    );
    assert_eq!(
        BufferError::FormatTooLarge.message(),
        "audio format is too large"
    );
    assert_eq!(
        BufferError::DurationTooLarge.message(),
        "buffer duration is too large for this platform"
    );
}

#[test]
fn buffer_capacity_takes_seconds_and_nanoseconds_apart() {
    assert_eq!(buffer_capacity_of(48_000, 2, 1, 500_000_000), Ok(144_000));
    assert_eq!(
        buffer_capacity(10, 1, Duration::new(3, 250_000_000)),
        buffer_capacity_of(10, 1, 3, 250_000_000)
    );
}

#[test]
fn discard_preserves_samples_published_after_the_request() {
    let mut buffer = AudioBuffer::new(8);
    assert_eq!(buffer.write(&[1.0, 2.0, 3.0, 4.0]), 4);

    buffer.discard_buffered_samples();
    assert_eq!(buffer.write(&[5.0, 6.0]), 2);

    let mut output = [0.0; 2];
    assert_eq!(buffer.read(&mut output), 2);
    assert_eq!(output, [5.0, 6.0]);
}

#[test]
fn latest_discard_request_wins() {
    let mut buffer = AudioBuffer::new(8);
    assert_eq!(buffer.write(&[1.0, 2.0, 3.0, 4.0]), 4);
    buffer.discard_buffered_samples();
    assert_eq!(buffer.write(&[5.0, 6.0]), 2);
    buffer.discard_buffered_samples();
    assert_eq!(buffer.write(&[7.0, 8.0]), 2);

    let mut output = [0.0; 2];
    assert_eq!(buffer.read(&mut output), 2);
    assert_eq!(output, [7.0, 8.0]);
}

#[test]
fn ring_wraps_and_conserves_samples() {
    let mut buffer = AudioBuffer::new(4);
    let mut written = 0.0;
    let mut read = 0.0;
    for _ in 0..10 {
        let chunk = [written, written + 1.0, written + 2.0];
        written += buffer.write(&chunk) as f32;
        assert_eq!(buffer.available() + buffer.free_space(), 4);
        let mut output = [0.0; 2];
        let count = buffer.read(&mut output);
        for sample in &output[..count] {
            assert_eq!(*sample, read);
            read += 1.0;
        }
    }
    assert_eq!(buffer.total_consumed_samples(), read as u64);
    assert_eq!(written, read + buffer.available() as f32);
}

#[test]
fn ring_takes_no_more_than_fits() {
    let mut buffer = AudioBuffer::new(3);
    assert_eq!(buffer.write(&[1, 2, 3, 4]), 3);
    assert_eq!(buffer.write(&[5]), 0);
    let mut output = [0; 4];
    assert_eq!(buffer.read(&mut output), 3);
    assert_eq!(output, [1, 2, 3, 0]);
}

#[test]
fn watermark_is_sixty_percent() {
    let mut buffer = AudioBuffer::new(10);
    buffer.write(&[0; 5]);
    assert!(buffer.fill_level().is_below_watermark());
    buffer.write(&[0; 1]);
    assert!(!buffer.fill_level().is_below_watermark());
    assert_eq!(buffer.fill_level().filled, 6);
    assert_eq!(buffer.fill_level().capacity, 10);
}

#[test]
fn underrun_is_silence_and_does_not_move_the_position() {
    let mut stream = BufferedAudioStream::new(Counter::new(3), Duration::from_secs(1)).unwrap();
    let mut temp = Vec::new();
    assert_eq!(
        stream.refill(&mut temp),
        Some(GroupFill {
            samples_read: 3,
            settled: true
        })
    );
    let mut output = [9.0; 5];
    assert_eq!(stream.read(&mut output, 5), 5);
    assert_eq!(output, [0.0, 1.0, 2.0, 0.0, 0.0]);
    assert_eq!(stream.consumed_frames(), 3);
    assert_eq!(stream.position_for(3), 1);
    assert!(stream.is_eof());
    assert!(stream.take_wake());
    assert!(!stream.take_wake());
    assert_eq!(stream.channels(), 1);
    assert_eq!(stream.sample_rate(), 10);
}

#[test]
fn seek_moves_the_position_and_drops_what_was_buffered() {
    let mut stream = BufferedAudioStream::new(Counter::new(100), Duration::from_secs(1)).unwrap();
    let mut temp = Vec::new();
    stream.refill(&mut temp);
    let mut output = [0.0; 4];
    stream.read(&mut output, 4);
    assert_eq!(stream.consumed_frames(), 4);

    assert!(stream.seek(50).is_ok());
    assert_eq!(stream.consumed_frames(), 50);
    assert!(stream.take_wake());
    stream.refill(&mut temp);
    stream.read(&mut output, 4);
    assert_eq!(output, [50.0, 51.0, 52.0, 53.0]);
    assert_eq!(stream.consumed_frames(), 54);
}

#[test]
fn failed_seek_changes_nothing() {
    let inner = Counter::new(100);
    inner.fail_seek.store(true, Ordering::Relaxed);
    let mut stream = BufferedAudioStream::new(inner, Duration::from_secs(1)).unwrap();
    let mut temp = Vec::new();
    stream.refill(&mut temp);
    assert!(matches!(stream.seek(7), Err(AudioError::DeviceBusy)));
    let mut output = [0.0; 2];
    stream.read(&mut output, 2);
    assert_eq!(output, [0.0, 1.0]);
    assert_eq!(stream.consumed_frames(), 2);
}

#[test]
fn stream_without_room_cannot_be_made() {
    assert!(BufferedAudioStream::new(Counter::new(1), Duration::ZERO).is_err());
}

#[test]
fn full_stream_is_not_refilled() {
    let mut stream = BufferedAudioStream::new(Counter::new(100), Duration::from_secs(1)).unwrap();
    let mut temp = Vec::new();
    assert!(stream.refill(&mut temp).is_some());
    assert_eq!(stream.refill(&mut temp), None);
}

#[test]
fn worker_lives_as_long_as_its_handles() {
    let mut registry: WorkerState<u32> = WorkerState::new();
    let first = acquire_worker_handle(&mut registry);
    assert!(first.spawn);
    let second = acquire_worker_handle(&mut registry);
    assert!(!second.spawn);
    assert!(matches!(registry.next_step(), WorkerStep::Wait));
    assert_eq!(first.handle.release(&mut registry), Wake::Nobody);
    assert!(registry.is_running());
    assert_eq!(second.handle.release(&mut registry), Wake::Everybody);
    assert!(matches!(registry.next_step(), WorkerStep::Exit));
    assert!(!registry.is_running());
}

#[test]
fn worker_that_cannot_be_spawned_is_taken_back() {
    let mut registry: WorkerState<u32> = WorkerState::new();
    let acquired = acquire_worker_handle(&mut registry);
    spawn_failed(acquired.handle, &mut registry);
    assert!(!registry.is_running());
    assert_eq!(registry.handle_count(), 0);
    assert!(acquire_worker_handle(&mut registry).spawn);
}

#[test]
fn refill_requests_are_served_once() {
    let mut registry = WorkerState::new();
    let acquired = acquire_worker_handle(&mut registry);
    let (first, wake) = acquired.handle.add_buffer_group(&mut registry, 'a');
    assert_eq!(wake, Wake::One);
    let (second, _) = acquired.handle.add_buffer_group(&mut registry, 'b');
    assert!(first != second);
    match registry.next_step() {
        WorkerStep::Fill(groups) => assert_eq!(groups, vec!['a', 'b']),
        _ => panic!("a refill was requested"),
    }
    assert!(matches!(registry.next_step(), WorkerStep::Wait));
    acquired.handle.remove_buffer_group(&mut registry, first);
    assert_eq!(acquired.handle.notify(&mut registry), Wake::One);
    match registry.next_step() {
        WorkerStep::Fill(groups) => assert_eq!(groups, vec!['b']),
        _ => panic!("a refill was requested"),
    }
}

#[test]
fn pass_ends_when_all_streams_are_served() {
    let mut streams = vec![
        BufferedAudioStream::new(Counter::new(100), Duration::from_secs(1)).unwrap(),
        BufferedAudioStream::new(Counter::new(2), Duration::from_secs(1)).unwrap(),
    ];
    let mut temp = Vec::new();
    let round = fill_groups(&mut streams, &mut temp);
    assert!(round.is_last());
    assert!(round.all_settled);
    let mut output = [9.0; 10];
    streams[0].read(&mut output, 10);
    assert_eq!(output[9], 9.0);
    let mut output = [9.0; 3];
    streams[1].read(&mut output, 3);
    assert_eq!(output, [0.0, 1.0, 0.0]);
}

#[test]
fn round_reports_progress() {
    let mut streams =
        vec![BufferedAudioStream::new(Counter::new(3), Duration::from_secs(1)).unwrap()];
    let mut temp = Vec::new();
    let round = fill_round(&mut streams, &mut temp);
    assert!(round.made_progress && round.all_settled);
    let round = fill_round(&mut streams, &mut temp);
    assert!(!round.made_progress);

    let mut round = FillRound::start();
    round.record(None);
    assert!(round.all_settled && !round.made_progress);
    round.record(Some(GroupFill {
        samples_read: 4,
        settled: false,
    }));
    assert!(!round.is_last());
}

#[test]
fn refills_can_be_planned_and_accepted_apart() {
    let inner = Counter {
        channels: 2,
        ..Counter::new(100)
    };
    let mut stream = BufferedAudioStream::new(inner, Duration::from_millis(500)).unwrap();
    assert!(stream.has_headroom());
    assert_eq!(
        stream.plan_refill(2),
        Some(RefillPlan {
            samples: 10,
            frames: 5,
            seeks: 0
        })
    );
    assert_eq!(stream.plan_refill(0).unwrap().frames, 10);
    let plan = stream.plan_refill(2).unwrap();
    assert_eq!(
        stream.accept_refill(plan, &[1.0, 2.0, 3.0], 2, false),
        Some(GroupFill {
            samples_read: 2,
            settled: false
        })
    );
    assert_eq!(
        stream.accept_refill(plan, &[3.0; 9], 99, false),
        Some(GroupFill {
            samples_read: 99,
            settled: true
        })
    );
    assert_eq!(stream.plan_refill(2), None);
    let mut output = [0.0; 4];
    stream.read(&mut output, 2);
    assert_eq!(output, [1.0, 2.0, 3.0, 3.0]);
}

#[test]
fn seeks_of_the_inner_stream_are_taken_in() {
    let mut stream =
        BufferedAudioStream::new(Counter::new(100), Duration::from_millis(500)).unwrap();
    stream.refill(&mut Vec::new());
    let mut output = [9.0; 3];
    stream.read(&mut output, 3);
    stream.take_wake();
    stream.inner_sought(40, 1);
    assert!(stream.take_wake());
    assert_eq!(stream.position_for(1), 40);
    stream.read(&mut output, 3);
    assert_eq!(output, [0.0; 3]);
    assert_eq!(stream.position_for(1), 40);
}

#[test]
fn refills_planned_before_a_seek_are_refused() {
    let mut stream =
        BufferedAudioStream::new(Counter::new(100), Duration::from_millis(500)).unwrap();
    let stale = stream.plan_refill(1).unwrap();
    assert!(stream.seek(7).is_ok());
    assert_eq!(stream.accept_refill(stale, &[1.0, 2.0], 2, false), None);
    let fresh = stream.plan_refill(1).unwrap();
    assert!(stream.accept_refill(fresh, &[7.0, 8.0], 2, false).is_some());
    let mut output = [9.0; 3];
    stream.read(&mut output, 3);
    assert_eq!(output, [7.0, 8.0, 0.0]);
}

#[test]
fn transfers_in_pieces_are_one_transfer() {
    let mut whole = AudioBuffer::new(6);
    let mut pieces = AudioBuffer::new(6);
    whole.write(&[1, 2, 3, 4, 5]);
    pieces.write(&[1, 2]);
    pieces.write(&[3, 4, 5]);
    let mut expected = [0; 4];
    whole.read(&mut expected);
    let mut first = [0; 1];
    let mut second = [0; 3];
    pieces.read(&mut first);
    pieces.read(&mut second);
    assert_eq!(expected, [1, 2, 3, 4]);
    assert_eq!(first, [1]);
    assert_eq!(second, [2, 3, 4]);
    assert_eq!(whole.available(), pieces.available());
}

#[test]
fn position_moves_by_whole_frames_after_a_seek() {
    let inner = Counter {
        channels: 2,
        ..Counter::new(100)
    };
    let mut stream = BufferedAudioStream::new(inner, Duration::from_millis(500)).unwrap();
    let mut output = [9.0; 3];
    assert!(stream.seek(10).is_ok());
    assert_eq!(stream.consumed_frames(), 10);
    stream.refill(&mut Vec::new());
    stream.read(&mut output, 1);
    assert_eq!(stream.consumed_frames(), 11);
    stream.read(&mut output[..1], 1);
    assert_eq!(stream.consumed_frames(), 12);
}
