//! OHOS (OpenHarmony) audio backend.
//!
//! The renderer is created through a builder: [`after_open_call`] decides, from
//! the reply to each native call, what to call next and what to clean up. The
//! callback is connected in [`OhosDevice::start`].

use vstd::prelude::*;

use super::control::CallbackControl;
use crate::error::{backend_status, status_text, AudioError, ErrorView};
use crate::types::AudioFormat;

verus! {

/// Status of a native call that succeeded.
pub const AUDIOSTREAM_SUCCESS: i32 = 0;

/// Default sample rate fallback: 48 kHz.
pub const DEFAULT_SAMPLE_RATE: i32 = 48000;

/// Default channel count fallback: stereo.
pub const DEFAULT_CHANNEL_COUNT: i32 = 2;

/// A native call on the way to a renderer.
#[derive(Clone, Copy, Debug, PartialEq, Eq, Structural)]
pub enum OpenCall {
    CreateBuilder,
    SetRendererInfo,
    SetLatencyMode,
    SetSamplingRate,
    SetChannelCount,
    SetSampleFormat,
    SetEncodingType,
    SetWriteDataCallback,
    GenerateRenderer,
}

/// How opening goes on.
pub enum OpenNext {
    Call(OpenCall),
    Opened,
    Failed(AudioError),
}

/// What to do after the reply to a native call: clean up as told, then go on.
pub struct OpenStep {
    /// Destroy the builder.
    pub destroy_builder: bool,
    /// Free the callback's user data.
    pub drop_callback: bool,
    pub next: OpenNext,
}

/// Whether a reply is a success: the call's status, and for the two calls that
/// hand out a handle, that there is one.
pub open spec fn call_succeeded(call: OpenCall, status: i32, handle: bool) -> bool {
    status == AUDIOSTREAM_SUCCESS && ((call == OpenCall::CreateBuilder || call
        == OpenCall::GenerateRenderer) ==> handle)
}

/// The call behind a successful one. The renderer comes last.
pub open spec fn following(call: OpenCall) -> Option<OpenCall> {
    match call {
        OpenCall::CreateBuilder => Some(OpenCall::SetRendererInfo),
        OpenCall::SetRendererInfo => Some(OpenCall::SetLatencyMode),
        OpenCall::SetLatencyMode => Some(OpenCall::SetSamplingRate),
        OpenCall::SetSamplingRate => Some(OpenCall::SetChannelCount),
        OpenCall::SetChannelCount => Some(OpenCall::SetSampleFormat),
        OpenCall::SetSampleFormat => Some(OpenCall::SetEncodingType),
        OpenCall::SetEncodingType => Some(OpenCall::SetWriteDataCallback),
        OpenCall::SetWriteDataCallback => Some(OpenCall::GenerateRenderer),
        OpenCall::GenerateRenderer => None,
    }
}

/// The error that a failed call is reported as.
pub open spec fn open_error(call: OpenCall, status: i32) -> ErrorView {
    match call {
        OpenCall::CreateBuilder => ErrorView::DeviceNotFound,
        OpenCall::SetRendererInfo => ErrorView::Backend(
            status_text("failed to set renderer info"@, status as int),
        ),
        OpenCall::SetLatencyMode => ErrorView::Backend(
            status_text("failed to set latency mode"@, status as int),
        ),
        OpenCall::SetSamplingRate => ErrorView::Backend(
            status_text("failed to set sampling rate"@, status as int),
        ),
        OpenCall::SetChannelCount => ErrorView::Backend(
            status_text("failed to set channel count"@, status as int),
        ),
        OpenCall::SetSampleFormat => ErrorView::Backend(
            status_text("failed to set sample format"@, status as int),
        ),
        OpenCall::SetEncodingType => ErrorView::Backend(
            status_text("failed to set encoding type"@, status as int),
        ),
        OpenCall::SetWriteDataCallback => ErrorView::Backend(
            status_text("failed to set write-data callback"@, status as int),
        ),
        OpenCall::GenerateRenderer => ErrorView::DeviceBusy,
    }
}

/// Whether the builder goes after this reply: it always does once the renderer
/// was asked for, and earlier where a call on it failed.
pub open spec fn builder_goes(call: OpenCall, status: i32, handle: bool) -> bool {
    call == OpenCall::GenerateRenderer || (call != OpenCall::CreateBuilder && !call_succeeded(
        call,
        status,
        handle,
    ))
}

fn next_call(call: OpenCall) -> (next: Option<OpenCall>)
    ensures
        next == following(call),
{
    match call {
        OpenCall::CreateBuilder => Some(OpenCall::SetRendererInfo),
        OpenCall::SetRendererInfo => Some(OpenCall::SetLatencyMode),
        OpenCall::SetLatencyMode => Some(OpenCall::SetSamplingRate),
        OpenCall::SetSamplingRate => Some(OpenCall::SetChannelCount),
        OpenCall::SetChannelCount => Some(OpenCall::SetSampleFormat),
        OpenCall::SetSampleFormat => Some(OpenCall::SetEncodingType),
        OpenCall::SetEncodingType => Some(OpenCall::SetWriteDataCallback),
        OpenCall::SetWriteDataCallback => Some(OpenCall::GenerateRenderer),
        OpenCall::GenerateRenderer => None,
    }
}

fn open_failure(call: OpenCall, status: i32) -> (error: AudioError)
    ensures
        error@ == open_error(call, status),
{
    match call {
        OpenCall::CreateBuilder => AudioError::DeviceNotFound,
        OpenCall::SetRendererInfo => backend_status("failed to set renderer info", status),
        OpenCall::SetLatencyMode => backend_status("failed to set latency mode", status),
        OpenCall::SetSamplingRate => backend_status("failed to set sampling rate", status),
        OpenCall::SetChannelCount => backend_status("failed to set channel count", status),
        OpenCall::SetSampleFormat => backend_status("failed to set sample format", status),
        OpenCall::SetEncodingType => backend_status("failed to set encoding type", status),
        OpenCall::SetWriteDataCallback => backend_status(
            "failed to set write-data callback",
            status,
        ),
        OpenCall::GenerateRenderer => AudioError::DeviceBusy,
    }
}

/// Decide how opening goes on after the reply to `call`. `handle` says whether
/// the call handed out a handle.
pub fn after_open_call(call: OpenCall, status: i32, handle: bool) -> (step: OpenStep)
    ensures
        step.destroy_builder == builder_goes(call, status, handle),
        step.drop_callback == !call_succeeded(call, status, handle),
        match step.next {
            OpenNext::Failed(error) => !call_succeeded(call, status, handle) && error@
                == open_error(call, status),
            OpenNext::Call(next) => call_succeeded(call, status, handle) && following(call)
                == Some(next),
            OpenNext::Opened => call_succeeded(call, status, handle) && following(call) is None,
        },
{
    let hands_out = match call {
        OpenCall::CreateBuilder | OpenCall::GenerateRenderer => true,
        _ => false,
    };
    let success = status == AUDIOSTREAM_SUCCESS && (!hands_out || handle);
    let destroy_builder = match call {
        OpenCall::CreateBuilder => false,
        OpenCall::GenerateRenderer => true,
        _ => !success,
    };
    let next = if !success {
        OpenNext::Failed(open_failure(call, status))
    } else {
        match next_call(call) {
            Some(next) => OpenNext::Call(next),
            None => OpenNext::Opened,
        }
    };
    OpenStep { destroy_builder, drop_callback: !success, next }
}

/// What opening has done by its end.
pub struct OpenTally {
    pub builders_created: int,
    pub builders_destroyed: int,
    pub callbacks_dropped: int,
    pub opened: bool,
}

/// Calls that are left, `call` included.
pub open spec fn calls_left(call: OpenCall) -> nat
    decreases
            (match call {
                OpenCall::CreateBuilder => 8nat,
                OpenCall::SetRendererInfo => 7nat,
                OpenCall::SetLatencyMode => 6nat,
                OpenCall::SetSamplingRate => 5nat,
                OpenCall::SetChannelCount => 4nat,
                OpenCall::SetSampleFormat => 3nat,
                OpenCall::SetEncodingType => 2nat,
                OpenCall::SetWriteDataCallback => 1nat,
                OpenCall::GenerateRenderer => 0nat,
            }),
{
    match following(call) {
        Some(next) => 1 + calls_left(next),
        None => 1,
    }
}

/// What opening does from `call` on, where `replies` holds the status and the
/// handle that each further call comes back with.
pub open spec fn opening(call: OpenCall, replies: Seq<(i32, bool)>) -> OpenTally
    decreases replies.len(),
{
    let (status, handle) = replies.first();
    let success = call_succeeded(call, status, handle);
    let created = if call == OpenCall::CreateBuilder && success {
        1int
    } else {
        0int
    };
    let destroyed = if builder_goes(call, status, handle) {
        1int
    } else {
        0int
    };
    if replies.len() == 0 || !success || following(call) is None {
        OpenTally {
            builders_created: created,
            builders_destroyed: destroyed,
            callbacks_dropped: if success {
                0
            } else {
                1
            },
            opened: success,
        }
    } else {
        let rest = opening(following(call)->0, replies.drop_first());
        OpenTally {
            builders_created: created + rest.builders_created,
            builders_destroyed: destroyed + rest.builders_destroyed,
            ..rest
        }
    }
}

proof fn lemma_open_tally(call: OpenCall, replies: Seq<(i32, bool)>)
    requires
        replies.len() >= calls_left(call),
        call != OpenCall::CreateBuilder,
    ensures
        opening(call, replies).builders_created == 0,
        opening(call, replies).builders_destroyed == 1,
        opening(call, replies).callbacks_dropped == (if opening(call, replies).opened {
            0int
        } else {
            1int
        }),
    decreases replies.len(),
{
    let (status, handle) = replies.first();
    if call_succeeded(call, status, handle) && following(call) is Some {
        lemma_open_tally(following(call)->0, replies.drop_first());
    }
}

/// However the native calls reply, every builder that was created is destroyed,
/// and the callback's user data is freed exactly where opening fails.
pub proof fn law_opening_cleans_up(replies: Seq<(i32, bool)>)
    requires
        replies.len() >= calls_left(OpenCall::CreateBuilder),
    ensures
        ({
            let tally = opening(OpenCall::CreateBuilder, replies);
            &&& tally.builders_destroyed == tally.builders_created
            &&& tally.builders_created <= 1
            &&& tally.callbacks_dropped == (if tally.opened {
                0int
            } else {
                1int
            })
            &&& tally.opened ==> tally.builders_created == 1
        }),
{
    let (status, handle) = replies.first();
    if call_succeeded(OpenCall::CreateBuilder, status, handle) {
        lemma_open_tally(OpenCall::SetRendererInfo, replies.drop_first());
    }
}

/// A queried value, or the fallback where the query failed.
pub open spec fn queried(value: Option<i32>, fallback: i32) -> i32 {
    match value {
        Some(actual) => actual,
        None => fallback,
    }
}

/// `value`, but at least one.
pub open spec fn at_least_one(value: i32) -> int {
    if value < 1 {
        1
    } else {
        value as int
    }
}

/// An audio output device backed by OHAudio (OpenHarmony).
pub struct OhosDevice {
    format: AudioFormat,
    callback_channels: usize,
    control: CallbackControl,
}

impl OhosDevice {
    pub closed spec fn spec_format(&self) -> AudioFormat {
        self.format
    }

    /// The channel count that the callback divides its buffers by.
    pub closed spec fn spec_callback_channels(&self) -> usize {
        self.callback_channels
    }

    pub closed spec fn control(&self) -> CallbackControl {
        self.control
    }

    /// A device for a renderer that was opened. The sample rate and the channel
    /// count are what the renderer reports, or `None` where a query failed.
    pub fn new(sample_rate: Option<i32>, channels: Option<i32>) -> (device: Self)
        ensures
            device.spec_format().sample_rate == at_least_one(
                queried(sample_rate, DEFAULT_SAMPLE_RATE),
            ),
            device.spec_format().channels == at_least_one(queried(channels, DEFAULT_CHANNEL_COUNT))
                % 0x1_0000,
            device.spec_callback_channels() == (if queried(channels, DEFAULT_CHANNEL_COUNT) > 0 {
                queried(channels, DEFAULT_CHANNEL_COUNT)
            } else {
                DEFAULT_CHANNEL_COUNT
            }),
            device.control() == (CallbackControl {
                opened: true,
                running: false,
                connected: false,
            }),
    {
        let rate: i32 = match sample_rate {
            Some(actual) => actual,
            None => DEFAULT_SAMPLE_RATE,
        };
        let actual: i32 = match channels {
            Some(actual) => actual,
            None => DEFAULT_CHANNEL_COUNT,
        };
        let callback_channels: usize = if actual > 0 {
            actual as usize
        } else {
            DEFAULT_CHANNEL_COUNT as usize
        };
        let rate: u32 = if rate < 1 {
            1
        } else {
            rate as u32
        };
        let width: u32 = if actual < 1 {
            1
        } else {
            actual as u32
        };
        assert(#[verifier::truncate] (width as u16) == width % 0x1_0000) by (bit_vector);
        OhosDevice {
            format: AudioFormat::new(rate, #[verifier::truncate] (width as u16)),
            callback_channels,
            control: CallbackControl::new(),
        }
    }

    /// The hardware format detected when the renderer was opened.
    pub fn format(&self) -> (format: AudioFormat)
        ensures
            format == self.spec_format(),
    {
        self.format
    }

    pub fn callback_channels(&self) -> (channels: usize)
        ensures
            channels == self.spec_callback_channels(),
    {
        self.callback_channels
    }

    /// Whether the callback can reach the manager.
    pub fn is_connected(&self) -> (connected: bool)
        ensures
            connected == self.control().connected,
    {
        self.control.connected
    }

    /// Connect the callback. `Ok(true)` asks for the native start, whose status
    /// goes to [`started`](Self::started).
    pub fn start(&mut self) -> (result: Result<bool, AudioError>)
        ensures
            !old(self).control().opened ==> result is Err && result->Err_0@
                == ErrorView::DeviceNotFound,
            old(self).control().opened ==> result is Ok && result->Ok_0 == !old(self).control().running,
            final(self).control() == old(self).control().connecting(),
            final(self).spec_format() == old(self).spec_format(),
            final(self).spec_callback_channels() == old(self).spec_callback_channels(),
    {
        self.control.start()
    }

    /// Record the status of the native start. Where it failed, the callback is
    /// disconnected again.
    pub fn started(&mut self, status: i32) -> (result: Result<(), AudioError>)
        ensures
            status == AUDIOSTREAM_SUCCESS <==> result is Ok,
            result is Err ==> result->Err_0@ == ErrorView::Backend(
                status_text("failed to start OHOS renderer"@, status as int),
            ),
            final(self).control() == old(self).control().settled(status == AUDIOSTREAM_SUCCESS),
            final(self).spec_format() == old(self).spec_format(),
            final(self).spec_callback_channels() == old(self).spec_callback_channels(),
    {
        self.control.started(status == AUDIOSTREAM_SUCCESS);
        if status == AUDIOSTREAM_SUCCESS {
            Ok(())
        } else {
            Err(backend_status("failed to start OHOS renderer", status))
        }
    }

    /// Disconnect the callback and give the renderer up. Returns whether it has
    /// to be stopped and released.
    pub fn stop(&mut self) -> (release: bool)
        ensures
            release == (old(self).control().opened && old(self).control().running),
            final(self).control() == old(self).control().stopped(true),
            final(self).spec_format() == old(self).spec_format(),
            final(self).spec_callback_channels() == old(self).spec_callback_channels(),
    {
        self.control.stop(true)
    }

    /// Whether pausing has to reach the renderer.
    pub fn pause(&self) -> (native: bool)
        ensures
            native == (self.control().opened && self.control().running),
    {
        self.control.is_active()
    }

    /// The outcome of a native pause.
    pub fn paused(&self, status: i32) -> (result: Result<(), AudioError>)
        ensures
            status == AUDIOSTREAM_SUCCESS <==> result is Ok,
            result is Err ==> result->Err_0@ == ErrorView::Backend(
                status_text("failed to pause OHOS renderer"@, status as int),
            ),
    {
        if status == AUDIOSTREAM_SUCCESS {
            Ok(())
        } else {
            Err(backend_status("failed to pause OHOS renderer", status))
        }
    }

    /// Whether resuming has to reach the renderer.
    pub fn resume(&self) -> (native: bool)
        ensures
            native == (self.control().opened && self.control().running),
    {
        self.control.is_active()
    }

    /// The outcome of a native start that resumes.
    pub fn resumed(&self, status: i32) -> (result: Result<(), AudioError>)
        ensures
            status == AUDIOSTREAM_SUCCESS <==> result is Ok,
            result is Err ==> result->Err_0@ == ErrorView::Backend(
                status_text("failed to resume OHOS renderer"@, status as int),
            ),
    {
        if status == AUDIOSTREAM_SUCCESS {
            Ok(())
        } else {
            Err(backend_status("failed to resume OHOS renderer", status))
        }
    }
}

} // verus!
