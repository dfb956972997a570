use uniasset_audioplayer::error::AudioError;
use uniasset_audioplayer::hal::platform::coreaudio::{
    after_open_call, after_session_call, default_format, default_output_property_address,
    hardware_format, monitor_installed, pcm_format, playback_category, playback_mode,
    route_notifications, session_found, AudioUnitOwner, CoreAudioState, OpenCall, OpenNext,
    Platform, RebuildCall, RebuildNext, RebuildSignal, SessionCall, SessionGuard, SessionNext,
    Teardown, UnitCall, UnitNext, WorkerAction, RETRY_INTERVAL_MS,
};
use uniasset_audioplayer::types::AudioFormat;

fn message(error: AudioError) -> String {
    match error {
        AudioError::BackendError(message) => message,
        _ => panic!("a backend error was expected"),
    }
}

fn open_unit(
    platform: Platform,
    fail_at: Option<OpenCall>,
    handle: bool,
) -> (Vec<OpenCall>, i32, Result<(), AudioError>) {
    let mut calls = Vec::new();
    let mut disposed = 0;
    let mut call = OpenCall::FindComponent;
    loop {
        calls.push(call);
        let step = if Some(call) == fail_at {
            after_open_call(platform, call, -50, handle)
        } else {
            after_open_call(platform, call, 0, true)
        };
        disposed += step.dispose as i32;
        match step.next {
            OpenNext::Call(next) => call = next,
            OpenNext::Opened => return (calls, disposed, Ok(())),
            OpenNext::Failed(error) => return (calls, disposed, Err(error)),
        }
    }
}

#[test]
fn units_are_opened_per_platform() {
    let (calls, disposed, result) = open_unit(Platform::MacOs, None, true);
    assert!(result.is_ok());
    assert_eq!(disposed, 0);
    assert_eq!(
        calls,
        vec![
            OpenCall::FindComponent,
            OpenCall::NewInstance,
            OpenCall::QueryFormat,
            OpenCall::SetStreamFormat,
            OpenCall::AddListener,
        ]
    );
    let (calls, _, result) = open_unit(Platform::Ios, Some(OpenCall::QueryFormat), true);
    assert!(result.is_ok());
    assert_eq!(calls[2], OpenCall::EnableOutput);
    assert_eq!(calls[3], OpenCall::DisableInput);
    assert_eq!(calls.len(), 7);
}

#[test]
fn failed_opening_disposes_of_the_instance() {
    let (_, disposed, result) = open_unit(Platform::MacOs, Some(OpenCall::FindComponent), false);
    assert_eq!(disposed, 0);
    assert!(matches!(result, Err(AudioError::DeviceNotFound)));
    let (_, disposed, result) = open_unit(Platform::MacOs, Some(OpenCall::NewInstance), true);
    assert_eq!(disposed, 0);
    assert!(matches!(result, Err(AudioError::DeviceBusy)));
    for call in [OpenCall::EnableOutput, OpenCall::DisableInput] {
        let (_, disposed, result) = open_unit(Platform::Ios, Some(call), true);
        assert_eq!(disposed, 1);
        assert!(matches!(result, Err(AudioError::DeviceNotFound)));
    }
    let (_, disposed, result) = open_unit(Platform::Ios, Some(OpenCall::SetStreamFormat), true);
    assert_eq!(disposed, 1);
    assert!(matches!(result, Err(AudioError::FormatNotSupported)));
    let (_, disposed, result) = open_unit(Platform::MacOs, Some(OpenCall::AddListener), true);
    assert_eq!(disposed, 1);
    assert_eq!(
        message(result.unwrap_err()),
        "AudioUnitAddPropertyListener failed: -50"
    );
}

#[test]
fn hardware_format_falls_back() {
    assert_eq!(
        hardware_format(0, Some(44_100), 6),
        AudioFormat::new(44_100, 6)
    );
    for format in [
        hardware_format(-1, Some(44_100), 6),
        hardware_format(0, None, 6),
        hardware_format(0, Some(44_100), 0),
        hardware_format(0, Some(44_100), 65_536),
    ] {
        assert_eq!(format, default_format());
    }
    assert_eq!(default_format(), AudioFormat::new(48_000, 2));
}

#[test]
fn stream_format_is_packed_float() {
    let description = pcm_format(AudioFormat::new(44_100, 2));
    assert_eq!(description.sample_rate, 44_100);
    assert_eq!(description.bytes_per_packet, 8);
    assert_eq!(description.bytes_per_frame, 8);
    assert_eq!(description.frames_per_packet, 1);
    assert_eq!(description.channels_per_frame, 2);
    assert_eq!(description.bits_per_channel, 32);
}

#[test]
fn unit_starts_in_three_steps() {
    let mut unit = AudioUnitOwner::new();
    assert_eq!(unit.start(), Some(UnitCall::Initialize));
    assert!(matches!(
        unit.after_start_call(UnitCall::Initialize, 0).next,
        UnitNext::Call(UnitCall::SetRenderCallback)
    ));
    assert!(matches!(
        unit.after_start_call(UnitCall::SetRenderCallback, 0).next,
        UnitNext::Call(UnitCall::Start)
    ));
    assert!(matches!(
        unit.after_start_call(UnitCall::Start, 0).next,
        UnitNext::Started
    ));
    assert_eq!(unit.start(), None);
    assert!(unit.pause());
    assert_eq!(
        message(unit.paused(1).unwrap_err()),
        "AudioOutputUnitStop failed: 1"
    );
    assert!(unit.started);
    assert!(unit.paused(0).is_ok());
    assert!(unit.resume());
    assert_eq!(
        message(unit.resumed(1).unwrap_err()),
        "AudioOutputUnitStart failed: 1"
    );
    assert!(unit.resumed(0).is_ok());
    assert_eq!(
        unit.stop_and_uninitialize(),
        Teardown {
            stop: true,
            uninitialize: true
        }
    );
    assert_eq!(
        unit.stop_and_uninitialize(),
        Teardown {
            stop: false,
            uninitialize: false
        }
    );
    assert!(unit.callback);
}

#[test]
fn failed_start_is_unwound() {
    let mut unit = AudioUnitOwner::new();
    match unit.after_start_call(UnitCall::Initialize, -1).next {
        UnitNext::Failed(error) => {
            assert_eq!(message(error), "AudioUnitInitialize failed: -1")
        }
        _ => panic!("the call failed"),
    }
    unit.after_start_call(UnitCall::Initialize, 0);
    let step = unit.after_start_call(UnitCall::SetRenderCallback, -2);
    assert_eq!(
        step.teardown,
        Teardown {
            stop: false,
            uninitialize: true
        }
    );
    match step.next {
        UnitNext::Failed(error) => assert_eq!(
            message(error),
            "AudioUnitSetProperty(SetRenderCallback) failed: -2"
        ),
        _ => panic!("the call failed"),
    }
    assert!(!unit.initialized && unit.callback);
    unit.after_start_call(UnitCall::Initialize, 0);
    unit.after_start_call(UnitCall::SetRenderCallback, 0);
    let step = unit.after_start_call(UnitCall::Start, -3);
    assert!(step.teardown.uninitialize && !step.teardown.stop);
    match step.next {
        UnitNext::Failed(error) => {
            assert_eq!(message(error), "AudioOutputUnitStart failed: -3")
        }
        _ => panic!("the call failed"),
    }
}

fn running_state() -> CoreAudioState {
    let mut state = CoreAudioState::new(AudioFormat::new(48_000, 2));
    let mut call = state.start().unwrap();
    while let Some(current) = call {
        call = match state.after_start_call(current, 0).next {
            UnitNext::Call(next) => Some(next),
            _ => None,
        };
    }
    state
}

#[test]
fn state_follows_its_unit() {
    let mut state = running_state();
    assert!(state.status().running);
    assert_eq!(state.start().unwrap(), None);
    assert!(state.pause());
    assert!(state.paused(5).is_err());
    assert!(!state.status().paused);
    assert!(state.pause());
    assert!(state.paused(0).is_ok());
    assert!(!state.pause());
    assert!(state.resume());
    assert!(state.resumed(0).is_ok());
    assert!(!state.resume());
    assert_eq!(
        state.stop(),
        Teardown {
            stop: true,
            uninitialize: true
        }
    );
    assert!(!state.status().running);
    assert!(!state.pause() && !state.resume());
    assert_eq!(state.format(), AudioFormat::new(48_000, 2));
}

#[test]
fn rebuild_restores_a_paused_device() {
    let mut state = running_state();
    state.pause();
    state.paused(0).ok().unwrap();

    let begin = state.begin_rebuild();
    assert!(begin.notify_invalidated);
    assert!(begin.closed.is_some());
    assert!(matches!(state.start(), Err(AudioError::DeviceNotFound)));
    let mut rebuild = begin.rebuild;
    let mut next = state.endpoint_opened(&mut rebuild, Some(AudioFormat::new(44_100, 1)));
    let mut calls = Vec::new();
    while let RebuildNext::Call(call) = next {
        calls.push(call);
        next = state.after_rebuild_call(&mut rebuild, call, 0);
    }
    assert_eq!(
        calls,
        vec![
            RebuildCall::Start(UnitCall::Initialize),
            RebuildCall::Start(UnitCall::SetRenderCallback),
            RebuildCall::Start(UnitCall::Start),
            RebuildCall::Pause,
        ]
    );
    assert_eq!(next, RebuildNext::Recovered);
    assert!(state.status().running && state.status().paused && !state.status().rebuilding);
    assert_eq!(state.format(), AudioFormat::new(44_100, 1));
}

#[test]
fn failed_rebuild_is_retried_without_another_notice() {
    let mut state = running_state();
    let mut begin = state.begin_rebuild();
    assert!(begin.notify_invalidated);
    assert_eq!(
        state.endpoint_opened(&mut begin.rebuild, None),
        RebuildNext::Retry(Teardown {
            stop: false,
            uninitialize: false
        })
    );
    let mut begin = state.begin_rebuild();
    assert!(!begin.notify_invalidated);
    assert!(begin.closed.is_none());
    let mut next =
        state.endpoint_opened(&mut begin.rebuild, Some(AudioFormat::new(44_100, 2)));
    while let RebuildNext::Call(call) = next {
        next = state.after_rebuild_call(&mut begin.rebuild, call, 0);
    }
    assert_eq!(next, RebuildNext::Recovered);
    assert!(state.status().running && !state.status().paused && !state.status().rebuilding);
    assert_eq!(state.format(), AudioFormat::new(44_100, 2));
    assert!(state.begin_rebuild().notify_invalidated);
}

#[test]
fn rebuild_leaves_the_device_as_it_was_asked_to_be() {
    let mut state = running_state();
    state.begin_rebuild();
    assert!(!state.pause());
    let mut begin = state.begin_rebuild();
    assert!(begin.rebuild.was_running && begin.rebuild.was_paused);
    let mut next =
        state.endpoint_opened(&mut begin.rebuild, Some(AudioFormat::new(48_000, 2)));
    while let RebuildNext::Call(call) = next {
        next = state.after_rebuild_call(&mut begin.rebuild, call, 0);
    }
    assert!(state.status().running && state.status().paused);

    let mut state = running_state();
    state.begin_rebuild();
    state.stop();
    let mut begin = state.begin_rebuild();
    assert_eq!(
        state.endpoint_opened(&mut begin.rebuild, Some(AudioFormat::new(48_000, 2))),
        RebuildNext::Recovered
    );
    assert!(!state.status().running);
}

#[test]
fn replacement_that_cannot_pause_is_closed() {
    let mut state = running_state();
    state.pause();
    state.paused(0).ok().unwrap();
    let mut begin = state.begin_rebuild();
    let mut next =
        state.endpoint_opened(&mut begin.rebuild, Some(AudioFormat::new(48_000, 2)));
    while let RebuildNext::Call(call) = next {
        let status = if call == RebuildCall::Pause { -1 } else { 0 };
        next = state.after_rebuild_call(&mut begin.rebuild, call, status);
    }
    assert_eq!(
        next,
        RebuildNext::Retry(Teardown {
            stop: true,
            uninitialize: true
        })
    );
    assert!(state.status().unit.is_none());
}

#[test]
fn requests_wake_the_worker() {
    let mut signal = RebuildSignal::new();
    assert_eq!(signal.next_action(false, false), WorkerAction::Sleep);
    signal.request();
    signal.request();
    assert_eq!(signal.next_action(false, false), WorkerAction::Rebuild);
    assert_eq!(
        signal.next_action(true, false),
        WorkerAction::SleepAtMost(RETRY_INTERVAL_MS)
    );
    assert_eq!(signal.next_action(true, true), WorkerAction::Rebuild);
    signal.request();
    assert_eq!(signal.next_action(true, false), WorkerAction::Rebuild);
    signal.request();
    signal.shutdown();
    assert_eq!(signal.next_action(false, false), WorkerAction::Exit);
    assert!(signal.take_request());
    assert!(!signal.take_request());
}

#[test]
fn session_is_prepared_and_restored() {
    let mut guard: SessionGuard<&str> = SessionGuard::untouched();
    assert_eq!(guard.prepare(), None);
    assert!(guard.restore().is_none());

    let mut guard = SessionGuard::changing("category", "mode", 3);
    assert_eq!(guard.prepare(), Some(SessionCall::SetCategory));
    assert!(matches!(
        after_session_call(SessionCall::SetCategory, true),
        SessionNext::Call(SessionCall::SetActive)
    ));
    assert!(matches!(
        after_session_call(SessionCall::SetActive, true),
        SessionNext::Prepared
    ));
    let restore = guard.restore().unwrap();
    assert_eq!((restore.category, restore.mode, restore.options), ("category", "mode", 3));
    assert!(guard.restore().is_none());
    assert_eq!(playback_category(), "AVAudioSessionCategoryPlayback");
    assert_eq!(playback_mode(), "AVAudioSessionModeDefault");
}

#[test]
fn session_failures_say_why() {
    for (call, text) in [
        (SessionCall::SetCategory, "AVAudioSession setCategory failed"),
        (SessionCall::SetActive, "AVAudioSession setActive failed"),
    ] {
        match after_session_call(call, false) {
            SessionNext::Failed(error) => assert_eq!(message(error), text),
            _ => panic!("the call failed"),
        }
    }
    assert!(session_found(true).is_ok());
    assert!(matches!(session_found(false), Err(AudioError::DeviceNotFound)));
}

#[test]
fn route_changes_are_monitored() {
    assert_eq!(
        route_notifications(),
        vec![
            "AVAudioSessionRouteChangeNotification",
            "AVAudioSessionInterruptionNotification",
            "AVAudioSessionMediaServicesWereResetNotification",
        ]
    );
    let address = default_output_property_address();
    assert_eq!(address.selector, u32::from_be_bytes(*b"dOut"));
    assert_eq!(address.scope, u32::from_be_bytes(*b"glob"));
    assert_eq!(address.element, 0);
    assert!(monitor_installed(0).is_ok());
    assert_eq!(
        message(monitor_installed(8).unwrap_err()),
        "AudioObjectAddPropertyListener failed: 8"
    );
}
