use uniasset_audioplayer::hal::callback::{
    buffer_samples, render, render_samples, settle_output, SAMPLE_BYTES,
};
use uniasset_audioplayer::hal::AudioManager;

struct PartialManager;

impl AudioManager<f32> for PartialManager {
    fn pull(&self, buffer: &mut [f32]) -> usize {
        buffer[..2].fill(1.0);
        1
    }
}

/// Reports more frames than the buffer holds.
struct BoastingManager;

impl AudioManager<f32> for BoastingManager {
    fn pull(&self, buffer: &mut [f32]) -> usize {
        buffer.fill(1.0);
        usize::MAX
    }
}

#[test]
fn callback_zero_fills_partial_manager_output() {
    let mut data = [9.0; 6];
    let bytes = (data.len() * SAMPLE_BYTES) as u32;
    let samples = render_samples((data.len() / 2) as u32, 2, bytes).unwrap();
    render(&PartialManager, &mut data[..samples], 2);
    assert_eq!(data, [1.0, 1.0, 0.0, 0.0, 0.0, 0.0]);
}

#[test]
fn callback_converts_manager_panic_to_silence() {
    let mut data = [9.0; 4];
    let bytes = (data.len() * SAMPLE_BYTES) as u32;
    let samples = render_samples((data.len() / 2) as u32, 2, bytes).unwrap();
    // A manager that panics leaves its callback without a result.
    settle_output(&mut data[..samples], 2, None);
    assert_eq!(data, [0.0; 4]);
}

#[test]
fn reports_beyond_the_buffer_are_clamped() {
    let mut data = [9.0; 5];
    assert_eq!(render(&BoastingManager, &mut data, 2), usize::MAX);
    assert_eq!(data, [1.0, 1.0, 1.0, 1.0, 0.0]);
}

#[test]
fn render_length_is_whole_frames_of_what_fits() {
    assert_eq!(render_samples(4, 2, 32), Some(8));
    assert_eq!(render_samples(4, 2, 20), Some(4));
    assert_eq!(render_samples(2, 2, 400), Some(4));
    assert_eq!(render_samples(4, 0, 32), None);
    assert_eq!(render_samples(0, 2, 32), None);
    assert_eq!(render_samples(4, 2, 3), None);
    assert_eq!(render_samples(4, 8, 16), None);
}

#[test]
fn buffer_length_is_in_bytes() {
    assert_eq!(buffer_samples(64, 2), Some(16));
    assert_eq!(buffer_samples(66, 2), Some(16));
    assert_eq!(buffer_samples(4, 2), None);
    assert_eq!(buffer_samples(3, 1), None);
    assert_eq!(buffer_samples(0, 2), None);
    assert_eq!(buffer_samples(-8, 2), None);
}
