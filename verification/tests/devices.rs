use uniasset_audioplayer::error::{backend_error, AudioError};
use uniasset_audioplayer::hal::platform::dummy::{next_pull, DummyDevice, NextPull};
use uniasset_audioplayer::hal::platform::oboe::OboeDevice;
use uniasset_audioplayer::hal::platform::ohos::{
    after_open_call, OhosDevice, OpenCall, OpenNext,
};
use uniasset_audioplayer::text::push_decimal;
use uniasset_audioplayer::types::AudioFormat;

fn message(error: AudioError) -> String {
    match error {
        AudioError::BackendError(message) => message,
        _ => panic!("a backend error was expected"),
    }
}

#[test]
fn numbers_are_rendered_in_decimal() {
    let mut text = String::new();
    push_decimal(&mut text, 0);
    push_decimal(&mut text, -17);
    push_decimal(&mut text, 4096);
    push_decimal(&mut text, i32::MIN);
    assert_eq!(text, "0-174096-2147483648");
    assert_eq!(
        message(backend_error("AudioUnitInitialize", -10879)),
        "AudioUnitInitialize failed: -10879"
    );
}

/// Runs the opening sequence; `fail_at` is the call that fails.
fn open_renderer(fail_at: Option<OpenCall>, status: i32, handle: bool) -> (Vec<OpenCall>, i32, i32, Result<(), AudioError>) {
    let mut calls = Vec::new();
    let mut destroyed = 0;
    let mut dropped = 0;
    let mut call = OpenCall::CreateBuilder;
    loop {
        calls.push(call);
        let step = if Some(call) == fail_at {
            after_open_call(call, status, handle)
        } else {
            after_open_call(call, 0, true)
        };
        destroyed += step.destroy_builder as i32;
        dropped += step.drop_callback as i32;
        match step.next {
            OpenNext::Call(next) => call = next,
            OpenNext::Opened => return (calls, destroyed, dropped, Ok(())),
            OpenNext::Failed(error) => return (calls, destroyed, dropped, Err(error)),
        }
    }
}

#[test]
fn renderer_is_opened_through_its_builder() {
    let (calls, destroyed, dropped, result) = open_renderer(None, 0, true);
    assert_eq!(
        calls,
        vec![
            OpenCall::CreateBuilder,
            OpenCall::SetRendererInfo,
            OpenCall::SetLatencyMode,
            OpenCall::SetSamplingRate,
            OpenCall::SetChannelCount,
            OpenCall::SetSampleFormat,
            OpenCall::SetEncodingType,
            OpenCall::SetWriteDataCallback,
            OpenCall::GenerateRenderer,
        ]
    );
    assert_eq!((destroyed, dropped), (1, 0));
    assert!(result.is_ok());
}

#[test]
fn failed_opening_cleans_up_and_says_why() {
    let expected = [
        (OpenCall::SetRendererInfo, "failed to set renderer info: 7"),
        (OpenCall::SetLatencyMode, "failed to set latency mode: 7"),
        (OpenCall::SetSamplingRate, "failed to set sampling rate: 7"),
        (OpenCall::SetChannelCount, "failed to set channel count: 7"),
        (OpenCall::SetSampleFormat, "failed to set sample format: 7"),
        (OpenCall::SetEncodingType, "failed to set encoding type: 7"),
        (
            OpenCall::SetWriteDataCallback,
            "failed to set write-data callback: 7",
        ),
    ];
    for (call, text) in expected {
        let (calls, destroyed, dropped, result) = open_renderer(Some(call), 7, true);
        assert_eq!(*calls.last().unwrap(), call);
        assert_eq!((destroyed, dropped), (1, 1));
        assert_eq!(message(result.unwrap_err()), text);
    }
    let (_, destroyed, dropped, result) = open_renderer(Some(OpenCall::CreateBuilder), 0, false);
    assert_eq!((destroyed, dropped), (0, 1));
    assert!(matches!(result, Err(AudioError::DeviceNotFound)));
    let (_, destroyed, dropped, result) = open_renderer(Some(OpenCall::GenerateRenderer), 0, false);
    assert_eq!((destroyed, dropped), (1, 1));
    assert!(matches!(result, Err(AudioError::DeviceBusy)));
}

#[test]
fn renderer_format_falls_back() {
    let device = OhosDevice::new(Some(44_100), Some(6));
    assert_eq!(device.format(), AudioFormat::new(44_100, 6));
    assert_eq!(device.callback_channels(), 6);
    let device = OhosDevice::new(None, None);
    assert_eq!(device.format(), AudioFormat::new(48_000, 2));
    assert_eq!(device.callback_channels(), 2);
    let device = OhosDevice::new(Some(-5), Some(0));
    assert_eq!(device.format(), AudioFormat::new(1, 1));
    assert_eq!(device.callback_channels(), 2);
    let device = OhosDevice::new(Some(48_000), Some(65_537));
    assert_eq!(device.format(), AudioFormat::new(48_000, 1));
    assert_eq!(device.callback_channels(), 65_537);
}

#[test]
fn renderer_lifecycle() {
    let mut device = OhosDevice::new(None, None);
    assert!(!device.pause() && !device.resume());
    assert!(device.start().unwrap());
    assert!(device.is_connected());
    assert_eq!(
        message(device.started(-3).unwrap_err()),
        "failed to start OHOS renderer: -3"
    );
    assert!(!device.is_connected());
    assert!(device.start().unwrap());
    assert!(device.started(0).is_ok());
    assert!(!device.start().unwrap());
    assert!(device.pause());
    assert!(device.paused(0).is_ok());
    assert_eq!(
        message(device.paused(4).unwrap_err()),
        "failed to pause OHOS renderer: 4"
    );
    assert!(device.resume());
    assert!(device.resumed(0).is_ok());
    assert_eq!(
        message(device.resumed(4).unwrap_err()),
        "failed to resume OHOS renderer: 4"
    );
    assert!(device.stop());
    assert!(!device.is_connected());
    assert!(!device.stop());
    assert!(matches!(device.start(), Err(AudioError::DeviceNotFound)));
}

#[test]
fn oboe_lifecycle() {
    assert_eq!(
        message(OboeDevice::new(Err("no device")).err().unwrap()),
        "failed to open oboe stream: no device"
    );
    let mut device = OboeDevice::new(Ok(0)).ok().unwrap();
    assert_eq!(device.format(), AudioFormat::new(1, 2));
    assert!(device.start().unwrap());
    assert_eq!(
        message(device.started(Some("busy")).unwrap_err()),
        "failed to start oboe stream: busy"
    );
    assert!(!device.is_connected());
    assert!(device.start().unwrap());
    assert!(device.started(None).is_ok());
    assert!(device.is_connected());
    assert!(device.pause() && device.resume());
    assert!(device.paused(None).is_ok());
    assert_eq!(
        message(device.paused(Some("gone")).unwrap_err()),
        "failed to pause oboe stream: gone"
    );
    assert_eq!(
        message(device.resumed(Some("gone")).unwrap_err()),
        "failed to resume oboe stream: gone"
    );
    assert!(device.stop());
    assert!(!device.stop());
    assert!(device.start().unwrap());
}

#[test]
fn dummy_device_starts_once() {
    let mut device = DummyDevice::new("manager");
    assert_eq!(device.format(), AudioFormat::new(48_000, 2));
    let plan = device.start().unwrap();
    assert_eq!(*plan.manager, "manager");
    assert_eq!(plan.samples_per_tick, 960);
    assert!(device.started(None).is_ok());
    assert!(device.start().is_none());
}

#[test]
fn dummy_device_starts_again_after_a_pause() {
    let mut device = DummyDevice::new("manager");
    for _ in 0..3 {
        let plan = device.start().unwrap();
        assert_eq!(*plan.manager, "manager");
        assert_eq!(plan.samples_per_tick, 960);
        assert!(device.started(None).is_ok());
        device.stop();
    }
}

#[test]
fn dummy_device_reports_a_failed_spawn() {
    let mut device = DummyDevice::new(());
    assert!(device.start().is_some());
    assert_eq!(
        message(device.started(Some("no threads")).unwrap_err()),
        "failed to spawn dummy thread: no threads"
    );
    assert!(device.start().is_some());
}

#[test]
fn dummy_device_keeps_its_rate() {
    assert_eq!(
        next_pull(5, 5),
        NextPull {
            tick: 10_000_005,
            sleep: 10_000_000
        }
    );
    assert_eq!(
        next_pull(0, 9_999_999),
        NextPull {
            tick: 10_000_000,
            sleep: 1
        }
    );
    assert_eq!(
        next_pull(0, 50_000_000),
        NextPull {
            tick: 60_000_000,
            sleep: 0
        }
    );
}
