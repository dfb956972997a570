use std::sync::atomic::{AtomicUsize, Ordering};
use std::sync::Arc;

use uniasset_audioplayer::hal::{AudioManager, SharedFormat};
use uniasset_audioplayer::types::AudioFormat;

struct RecordingManager {
    invalidated: AtomicUsize,
    format_changes: AtomicUsize,
    recovered: AtomicUsize,
}

impl AudioManager<f32> for RecordingManager {
    fn pull(&self, _buffer: &mut [f32]) -> usize {
        0
    }

    fn on_device_invalidated(&self) {
        self.invalidated.fetch_add(1, Ordering::Relaxed);
    }

    fn on_device_format_changed(&self, _format: AudioFormat) {
        self.format_changes.fetch_add(1, Ordering::Relaxed);
    }

    fn on_device_recovered(&self) {
        self.recovered.fetch_add(1, Ordering::Relaxed);
    }
}

struct QuietManager;

impl AudioManager<f32> for QuietManager {
    fn pull(&self, buffer: &mut [f32]) -> usize {
        buffer.fill(1.0);
        buffer.len() / 2
    }
}

fn forward<M: AudioManager<f32>>(manager: &M) {
    manager.on_device_invalidated();
    manager.on_device_format_changed(AudioFormat::new(44_100, 2));
    manager.on_device_recovered();
}

#[test]
fn arc_forwards_device_events() {
    let manager = Arc::new(RecordingManager {
        invalidated: AtomicUsize::new(0),
        format_changes: AtomicUsize::new(0),
        recovered: AtomicUsize::new(0),
    });

    forward(&manager);

    assert_eq!(manager.invalidated.load(Ordering::Relaxed), 1);
    assert_eq!(manager.format_changes.load(Ordering::Relaxed), 1);
    assert_eq!(manager.recovered.load(Ordering::Relaxed), 1);
}

#[test]
fn arc_forwards_pulls() {
    let manager: Arc<dyn AudioManager<f32>> = Arc::new(QuietManager);
    let mut samples = [0.0; 4];
    assert_eq!(manager.pull(&mut samples), 2);
    assert_eq!(samples, [1.0; 4]);
    forward(&manager);
}

#[test]
fn shared_format_gives_back_what_was_set() {
    let shared = Arc::new(SharedFormat::new(AudioFormat::new(48_000, 2)));
    let other = Arc::clone(&shared);
    assert_eq!(shared.get(), AudioFormat::new(48_000, 2));
    other.set(AudioFormat::new(44_100, 1));
    assert_eq!(shared.get(), AudioFormat::new(44_100, 1));
}
