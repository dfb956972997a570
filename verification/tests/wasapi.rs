use uniasset_audioplayer::error::AudioError;
use uniasset_audioplayer::hal::platform::wasapi::{
    after_startup_call, parse_float_format, request_result, startup_result, wasapi_error,
    ClientCall, ClientNext, ClientOpening, ClientReply, Command, CommandStep, DeviceChangeSignal,
    FillPlan, Notification, PlaybackState, RecoveryStep, RenderError, StartupCall, StartupNext,
    WaitOutcome, WaitStep, WasapiClient, WaveFormat, Worker, DEFAULT_RETRY_NANOS, MAX_RETRY_NANOS,
    SUBTYPE_IEEE_FLOAT, WAVE_FORMAT_EXTENSIBLE, WAVE_FORMAT_IEEE_FLOAT,
};
use uniasset_audioplayer::types::AudioFormat;

fn message(error: AudioError) -> String {
    match error {
        AudioError::BackendError(message) => message,
        _ => panic!("a backend error was expected"),
    }
}

fn float_format() -> WaveFormat {
    WaveFormat {
        format_tag: WAVE_FORMAT_IEEE_FLOAT,
        channels: 2,
        samples_per_sec: 48_000,
        avg_bytes_per_sec: 384_000,
        block_align: 8,
        bits_per_sample: 32,
        extra_bytes: 0,
        sub_format: 0,
    }
}

#[test]
fn rejects_null_and_non_float_formats() {
    assert!(parse_float_format(None).is_err());
    let format = WaveFormat {
        format_tag: 1,
        channels: 2,
        samples_per_sec: 48_000,
        avg_bytes_per_sec: 192_000,
        block_align: 4,
        bits_per_sample: 16,
        extra_bytes: 0,
        sub_format: 0,
    };
    assert!(parse_float_format(Some(format)).is_err());
}

#[test]
fn accepts_interleaved_float_format() {
    let format = WaveFormat {
        format_tag: WAVE_FORMAT_IEEE_FLOAT,
        channels: 2,
        samples_per_sec: 48_000,
        avg_bytes_per_sec: 384_000,
        block_align: 8,
        bits_per_sample: 32,
        extra_bytes: 0,
        sub_format: 0,
    };
    assert_eq!(
        parse_float_format(Some(format)).unwrap(),
        AudioFormat::new(48_000, 2)
    );
}

#[test]
fn accepts_extensible_float_formats_only() {
    let extensible = WaveFormat {
        format_tag: WAVE_FORMAT_EXTENSIBLE,
        extra_bytes: 22,
        sub_format: SUBTYPE_IEEE_FLOAT,
        ..float_format()
    };
    assert!(parse_float_format(Some(extensible)).is_ok());
    for format in [
        WaveFormat {
            extra_bytes: 21,
            ..extensible
        },
        WaveFormat {
            sub_format: 1,
            ..extensible
        },
        WaveFormat {
            bits_per_sample: 24,
            ..extensible
        },
        WaveFormat {
            block_align: 6,
            ..extensible
        },
        WaveFormat {
            samples_per_sec: 0,
            ..extensible
        },
        WaveFormat {
            channels: 0,
            block_align: 0,
            ..extensible
        },
        WaveFormat {
            channels: 16_384,
            block_align: 0,
            ..extensible
        },
    ] {
        assert!(matches!(
            parse_float_format(Some(format)),
            Err(AudioError::FormatNotSupported)
        ));
    }
}

fn reply() -> ClientReply {
    ClientReply {
        mix_format: Some(float_format()),
        fundamental_period: 48,
        minimum_period: 128,
        buffer_frames: 1056,
    }
}

/// Opens a client; calls in `failing` fail.
fn open(
    failing: &[ClientCall],
    reply: ClientReply,
) -> (ClientOpening, Vec<ClientCall>, i32, Result<(), AudioError>) {
    let mut opening = ClientOpening::new();
    let mut calls = Vec::new();
    let mut closed = 0;
    loop {
        calls.push(opening.call);
        let step = if failing.contains(&opening.call) {
            opening.after_call(Err("0x80070005"))
        } else {
            opening.after_call(Ok(reply))
        };
        closed += step.close_event as i32;
        match step.next {
            ClientNext::Call(next) => assert_eq!(next, opening.call),
            ClientNext::Opened => return (opening, calls, closed, Ok(())),
            ClientNext::Failed(error) => return (opening, calls, closed, Err(error)),
        }
    }
}

#[test]
fn client_is_opened_with_the_shortest_period() {
    let (opening, calls, closed, result) = open(&[], reply());
    assert!(result.is_ok());
    assert_eq!(closed, 0);
    assert_eq!(calls[5], ClientCall::InitializeShared(128));
    let (client, format) = WasapiClient::opened(opening);
    assert_eq!(format, AudioFormat::new(48_000, 2));
    assert_eq!(
        client,
        WasapiClient {
            buffer_frames: 1056,
            channels: 2
        }
    );
    let (_, calls, _, _) = open(
        &[],
        ClientReply {
            fundamental_period: 0,
            minimum_period: 0,
            ..reply()
        },
    );
    assert_eq!(calls[5], ClientCall::InitializeShared(1));
}

#[test]
fn client_falls_back_to_the_default_period() {
    for failing in [ClientCall::QueryClient3, ClientCall::GetEnginePeriod] {
        let (_, calls, _, result) = open(&[failing], reply());
        assert!(result.is_ok());
        assert!(calls.contains(&ClientCall::Initialize));
    }
}

#[test]
fn failed_opening_closes_the_event_and_says_why() {
    let cases = [
        (ClientCall::GetMixFormat, 0, "WASAPI GetMixFormat: 0x80070005"),
        (
            ClientCall::InitializeShared(128),
            0,
            "WASAPI InitializeSharedAudioStream: 0x80070005",
        ),
        (ClientCall::GetBufferSize, 0, "WASAPI GetBufferSize: 0x80070005"),
        (ClientCall::CreateEvent, 0, "WASAPI CreateEventW: 0x80070005"),
        (ClientCall::SetEventHandle, 1, "WASAPI SetEventHandle: 0x80070005"),
        (
            ClientCall::GetRenderService,
            1,
            "WASAPI GetService(IAudioRenderClient): 0x80070005",
        ),
    ];
    for (call, expected, text) in cases {
        let (_, _, closed, result) = open(&[call], reply());
        assert_eq!(closed, expected);
        assert_eq!(message(result.unwrap_err()), text);
    }
    let (_, _, _, result) = open(&[ClientCall::QueryClient3, ClientCall::Initialize], reply());
    assert_eq!(
        message(result.unwrap_err()),
        "WASAPI IAudioClient::Initialize: 0x80070005"
    );
    let (_, _, _, result) = open(&[ClientCall::GetDefaultEndpoint], reply());
    assert!(matches!(result, Err(AudioError::DeviceNotFound)));
    let (_, _, _, result) = open(&[ClientCall::Activate], reply());
    assert!(matches!(result, Err(AudioError::DeviceBusy)));
    let (_, _, _, result) = open(
        &[],
        ClientReply {
            mix_format: None,
            ..reply()
        },
    );
    assert!(matches!(result, Err(AudioError::FormatNotSupported)));
    let (_, _, closed, result) = open(
        &[],
        ClientReply {
            buffer_frames: 0,
            ..reply()
        },
    );
    assert_eq!(closed, 0);
    assert_eq!(
        message(result.unwrap_err()),
        "WASAPI returned a zero-sized render buffer"
    );
}

const CLIENT: WasapiClient = WasapiClient {
    buffer_frames: 100,
    channels: 2,
};

#[test]
fn fill_uses_the_free_part_of_the_buffer() {
    assert_eq!(
        CLIENT.fill(40, 200),
        Ok(Some(FillPlan {
            frames: 60,
            samples: 120
        }))
    );
    assert_eq!(CLIENT.fill(100, 0), Ok(None));
    assert_eq!(CLIENT.fill(101, 200), Err(RenderError::Device));
    assert_eq!(CLIENT.fill(40, 119), Err(RenderError::Device));
}

fn format() -> AudioFormat {
    AudioFormat::new(44_100, 2)
}

fn running_worker(now: u64) -> Worker {
    let mut worker = Worker::new(now);
    worker.install_client(CLIENT, format()).ok().unwrap();
    assert_eq!(
        worker.handle_command(Command::Start, now),
        CommandStep::StartClient
    );
    assert!(!worker.start_replied(true, now));
    assert_eq!(worker.try_recover(now), RecoveryStep::Wait);
    worker
}

#[test]
fn worker_plays_pauses_and_stops() {
    let mut worker = running_worker(0);
    assert_eq!(worker.status().scratch, 200);
    assert_eq!(worker.status().format, format());
    assert_eq!(worker.handle_command(Command::Start, 0), CommandStep::Reply);
    assert_eq!(worker.next_wait(0), WaitStep::Buffer);
    let playing = worker;
    assert_eq!(worker.handle_command(Command::Pause, 0), CommandStep::StopClient);
    assert_eq!(worker.status().state, PlaybackState::Paused);
    assert_eq!(worker.next_wait(0), WaitStep::Wake { timeout: None });
    assert_eq!(worker.handle_command(Command::Resume, 5), CommandStep::StartClient);
    assert!(!worker.start_replied(true, 5));
    assert_eq!(worker, playing);
    assert_eq!(worker.handle_command(Command::Stop, 6), CommandStep::CloseClient);
    assert_eq!(worker.status().scratch, 0);
    assert_eq!(worker.handle_command(Command::Stop, 6), CommandStep::Reply);
    assert_eq!(worker.handle_command(Command::Pause, 6), CommandStep::Reply);
    assert_eq!(worker.handle_command(Command::Resume, 6), CommandStep::Reply);
    assert!(!worker.begin_recovery(7));
    assert_eq!(worker.try_recover(7), RecoveryStep::Wait);
    assert_eq!(
        worker.handle_command(Command::Shutdown, 8),
        CommandStep::Exit {
            close_client: false
        }
    );
    let mut worker = running_worker(0);
    assert_eq!(
        worker.handle_command(Command::Shutdown, 8),
        CommandStep::Exit { close_client: true }
    );
}

#[test]
fn lost_endpoint_is_recovered_with_one_notice_each() {
    let mut worker = running_worker(0);
    assert!(worker.waited(WaitOutcome::BufferReady, false, 1_000));
    assert_eq!(
        worker.try_recover(1_000),
        RecoveryStep::Open {
            notify_invalidated: true
        }
    );
    assert_eq!(worker.recovery_opened(None, 1_000), RecoveryStep::Retry);
    assert_eq!(
        worker.next_wait(1_000),
        WaitStep::Wake { timeout: Some(50) }
    );
    assert_eq!(worker.try_recover(1_001), RecoveryStep::Wait);
    let due = 1_000 + DEFAULT_RETRY_NANOS;
    assert_eq!(
        worker.try_recover(due),
        RecoveryStep::Open {
            notify_invalidated: false
        }
    );
    assert_eq!(
        worker.recovery_opened(Some((CLIENT, format())), due),
        RecoveryStep::Start
    );
    assert_eq!(worker.recovery_started(false, due), RecoveryStep::Retry);
    assert!(worker.status().client.is_none());
    assert_eq!(worker.status().retry_at, due + 2 * DEFAULT_RETRY_NANOS);
    let due = worker.status().retry_at;
    worker.try_recover(due);
    worker.recovery_opened(Some((CLIENT, format())), due);
    assert_eq!(
        worker.recovery_started(true, due),
        RecoveryStep::Recovered {
            notify_recovered: true
        }
    );
    assert_eq!(worker.next_wait(due), WaitStep::Buffer);
    assert_eq!(worker.status().retry_delay, DEFAULT_RETRY_NANOS);
}

#[test]
fn retries_back_off_to_a_second() {
    let mut worker = running_worker(0);
    worker.begin_recovery(0);
    let mut delays = Vec::new();
    for _ in 0..7 {
        delays.push(worker.status().retry_delay / 1_000_000);
        worker.recovery_opened(None, 0);
    }
    assert_eq!(delays, vec![50, 100, 200, 400, 800, 1000, 1000]);
    assert_eq!(worker.status().retry_delay, MAX_RETRY_NANOS);
    assert_eq!(worker.recovery_opened(None, u64::MAX), RecoveryStep::Retry);
    assert_eq!(worker.status().retry_at, u64::MAX);
    assert_eq!(
        worker.next_wait(0),
        WaitStep::Wake {
            timeout: Some(u32::MAX)
        }
    );
}

#[test]
fn starting_without_a_client_opens_one_quietly() {
    let mut worker = Worker::new(0);
    assert_eq!(worker.handle_command(Command::Start, 9), CommandStep::Recover);
    assert_eq!(
        worker.try_recover(9),
        RecoveryStep::Open {
            notify_invalidated: false
        }
    );
    assert_eq!(
        worker.recovery_opened(Some((CLIENT, format())), 9),
        RecoveryStep::Start
    );
    assert_eq!(
        worker.recovery_started(true, 9),
        RecoveryStep::Recovered {
            notify_recovered: false
        }
    );
    assert_eq!(worker.status().state, PlaybackState::Running);
    assert!(!worker.status().recovery_pending);
    assert_eq!(worker.try_recover(9), RecoveryStep::Wait);
    assert_eq!(worker.handle_command(Command::Start, 9), CommandStep::Reply);
}

#[test]
fn starting_after_a_stop_starts_one_client() {
    let mut worker = running_worker(0);
    assert_eq!(worker.handle_command(Command::Stop, 1), CommandStep::CloseClient);
    assert_eq!(worker.handle_command(Command::Start, 2), CommandStep::Recover);
    let mut starts = 0;
    let mut step = worker.try_recover(2);
    loop {
        step = match step {
            RecoveryStep::Open { notify_invalidated } => {
                assert!(!notify_invalidated);
                worker.recovery_opened(Some((CLIENT, format())), 2)
            }
            RecoveryStep::Start => {
                starts += 1;
                worker.recovery_started(true, 2)
            }
            RecoveryStep::Recovered { notify_recovered } => {
                assert!(!notify_recovered);
                break;
            }
            _ => panic!("the recovery is due"),
        };
    }
    assert_eq!(starts, 1);
    assert_eq!(worker.status().state, PlaybackState::Running);
    assert!(!worker.status().recovery_pending);
    assert_eq!(worker.next_wait(2), WaitStep::Buffer);
}

#[test]
fn client_that_does_not_start_is_given_up() {
    let mut worker = Worker::new(0);
    worker.install_client(CLIENT, format()).ok().unwrap();
    assert_eq!(
        worker.handle_command(Command::Start, 9),
        CommandStep::StartClient
    );
    assert!(worker.start_replied(false, 10));
    assert!(worker.status().recovery_pending && worker.status().client.is_none());
}

#[test]
fn paused_device_recovers_without_starting() {
    let mut worker = running_worker(0);
    worker.handle_command(Command::Pause, 0);
    assert!(worker.begin_recovery(1));
    worker.try_recover(1);
    assert_eq!(
        worker.recovery_opened(Some((CLIENT, format())), 1),
        RecoveryStep::Recovered {
            notify_recovered: true
        }
    );
    assert_eq!(worker.status().state, PlaybackState::Paused);

    assert!(worker.begin_recovery(2));
    assert_eq!(worker.handle_command(Command::Resume, 3), CommandStep::Reply);
    assert!(worker.status().recovery_pending);
    assert_eq!(worker.next_wait(3), WaitStep::Wake { timeout: Some(0) });
}

#[test]
fn waits_end_in_different_ways() {
    let mut worker = running_worker(0);
    assert!(!worker.waited(WaitOutcome::BufferReady, true, 1));
    assert!(!worker.waited(WaitOutcome::Woken, false, 1));
    assert!(!worker.waited(WaitOutcome::TimedOut, false, 1));
    assert!(!worker.status().recovery_pending);
    assert!(worker.waited(WaitOutcome::Failed, false, 1));
    assert!(worker.status().recovery_pending);
}

#[test]
fn only_output_notifications_count() {
    let mut signal = DeviceChangeSignal::new();
    assert!(!signal.notify(Notification::PropertyValueChanged));
    assert!(!signal.notify(Notification::DefaultDeviceChanged {
        render: true,
        console: false
    }));
    assert!(!signal.take());
    for notification in [
        Notification::DeviceStateChanged,
        Notification::DeviceAdded,
        Notification::DeviceRemoved,
        Notification::DefaultDeviceChanged {
            render: true,
            console: true,
        },
    ] {
        assert!(signal.notify(notification));
        assert!(signal.take());
        assert!(!signal.take());
    }
}

#[test]
fn startup_goes_step_by_step() {
    assert!(matches!(
        after_startup_call(StartupCall::InitializeCom, None),
        StartupNext::Call(StartupCall::CreateEnumerator)
    ));
    assert!(matches!(
        after_startup_call(StartupCall::CreateEnumerator, None),
        StartupNext::Call(StartupCall::RegisterCallback)
    ));
    assert!(matches!(
        after_startup_call(StartupCall::RegisterCallback, None),
        StartupNext::Call(StartupCall::OpenClient)
    ));
    for (call, text) in [
        (StartupCall::InitializeCom, "WASAPI COM initialization failed"),
        (StartupCall::CreateEnumerator, "WASAPI CoCreateInstance: oops"),
        (
            StartupCall::RegisterCallback,
            "WASAPI RegisterEndpointNotificationCallback: oops",
        ),
    ] {
        match after_startup_call(call, Some("oops")) {
            StartupNext::Failed(error) => assert_eq!(message(error), text),
            _ => panic!("the call failed"),
        }
    }
}

#[test]
fn requests_report_a_missing_worker() {
    assert!(startup_result(Some(Ok(()))).is_ok());
    assert!(matches!(
        startup_result(Some(Err(AudioError::DeviceBusy))),
        Err(AudioError::DeviceBusy)
    ));
    assert_eq!(
        message(startup_result(None).unwrap_err()),
        "WASAPI worker exited during initialization"
    );
    assert_eq!(
        message(request_result(false, None, None).unwrap_err()),
        "WASAPI worker is not running"
    );
    assert_eq!(
        message(request_result(true, Some("bad handle"), None).unwrap_err()),
        "WASAPI SetEvent: bad handle"
    );
    assert_eq!(
        message(request_result(true, None, None).unwrap_err()),
        "WASAPI worker stopped unexpectedly"
    );
    assert!(request_result(true, None, Some(Ok(()))).is_ok());
    assert_eq!(
        message(wasapi_error("Start", "gone")),
        "WASAPI Start: gone"
    );
}

#[test]
fn loss_and_recovery_are_told_once_however_often_it_fails() {
    for failures in 0..8 {
        let mut worker = running_worker(0);
        assert!(worker.begin_recovery(0));
        let mut losses = 0;
        let mut recoveries = 0;
        let mut now = 0;
        for attempt in 0..=failures {
            if let RecoveryStep::Open { notify_invalidated } = worker.try_recover(now) {
                losses += usize::from(notify_invalidated);
            }
            if attempt < failures {
                let delay = worker.status().retry_delay;
                let opened = (attempt % 2 == 1).then_some((CLIENT, format()));
                if worker.recovery_opened(opened, now) == RecoveryStep::Start {
                    assert_eq!(worker.recovery_started(false, now), RecoveryStep::Retry);
                }
                assert_eq!(worker.status().retry_at, now + delay);
                now = worker.status().retry_at;
            } else {
                worker.recovery_opened(Some((CLIENT, format())), now);
                if let RecoveryStep::Recovered { notify_recovered } =
                    worker.recovery_started(true, now)
                {
                    recoveries += usize::from(notify_recovered);
                }
            }
        }
        assert_eq!((losses, recoveries), (1, 1));
        assert_eq!(worker.status().retry_delay, DEFAULT_RETRY_NANOS);
    }
}
