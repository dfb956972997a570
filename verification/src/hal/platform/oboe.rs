//! Oboe backend for Android.
//!
//! The stream is opened with a callback that cannot reach the manager yet; it
//! is connected in [`OboeDevice::start`].

use vstd::prelude::*;

use super::control::CallbackControl;
use crate::error::{backend_cause, AudioError, ErrorView};
use crate::types::AudioFormat;

verus! {

/// Sample rate that is asked for: 48 kHz.
pub const DEFAULT_SAMPLE_RATE: i32 = 48000;

/// Channel count that is asked for: stereo.
pub const DEFAULT_CHANNEL_COUNT: u16 = 2;

/// `"{what}: {cause}"`.
pub open spec fn cause_text(what: Seq<char>, cause: Seq<char>) -> Seq<char> {
    what + ": "@ + cause
}

/// The result of a native call that failed with the rendered error `failure`,
/// or succeeded.
pub open spec fn call_result(
    what: Seq<char>,
    failure: Option<&str>,
    result: Result<(), AudioError>,
) -> bool {
    match failure {
        Some(cause) => result is Err && result->Err_0@ == ErrorView::Backend(
            cause_text(what, cause@),
        ),
        None => result is Ok,
    }
}

fn check(what: &str, failure: Option<&str>) -> (result: Result<(), AudioError>)
    ensures
        call_result(what@, failure, result),
{
    match failure {
        Some(cause) => Err(backend_cause(what, cause)),
        None => Ok(()),
    }
}

/// An audio output device backed by Oboe (AAudio).
pub struct OboeDevice {
    format: AudioFormat,
    control: CallbackControl,
}

impl OboeDevice {
    pub closed spec fn spec_format(&self) -> AudioFormat {
        self.format
    }

    pub closed spec fn control(&self) -> CallbackControl {
        self.control
    }

    /// A device for the outcome of opening the stream: the sample rate that it
    /// got, or the rendered error. Stereo was asked for, so only the sample
    /// rate may be adjusted by the system.
    pub fn new(opened: Result<i32, &str>) -> (result: Result<Self, AudioError>)
        ensures
            match opened {
                Ok(rate) => result is Ok && result->Ok_0.spec_format().sample_rate == (if rate < 1 {
                    1
                } else {
                    rate as int
                }) && result->Ok_0.spec_format().channels == DEFAULT_CHANNEL_COUNT
                    && result->Ok_0.control() == (CallbackControl {
                    opened: true,
                    running: false,
                    connected: false,
                }),
                Err(cause) => result is Err && result->Err_0@ == ErrorView::Backend(
                    cause_text("failed to open oboe stream"@, cause@),
                ),
            },
    {
        match opened {
            Ok(rate) => {
                let sample_rate: u32 = if rate < 1 {
                    1
                } else {
                    rate as u32
                };
                Ok(
                    OboeDevice {
                        format: AudioFormat::new(sample_rate, DEFAULT_CHANNEL_COUNT),
                        control: CallbackControl::new(),
                    },
                )
            },
            Err(cause) => Err(backend_cause("failed to open oboe stream", cause)),
        }
    }

    /// The hardware format detected when the stream was opened.
    pub fn format(&self) -> (format: AudioFormat)
        ensures
            format == self.spec_format(),
    {
        self.format
    }

    /// Whether the callback can reach the manager.
    pub fn is_connected(&self) -> (connected: bool)
        ensures
            connected == self.control().connected,
    {
        self.control.connected
    }

    /// Connect the callback. `Ok(true)` asks for the native start, whose outcome
    /// goes to [`started`](Self::started).
    pub fn start(&mut self) -> (result: Result<bool, AudioError>)
        ensures
            !old(self).control().opened ==> result is Err && result->Err_0@
                == ErrorView::DeviceNotFound,
            old(self).control().opened ==> result is Ok && result->Ok_0 == !old(self).control().running,
            final(self).control() == old(self).control().connecting(),
            final(self).spec_format() == old(self).spec_format(),
    {
        self.control.start()
    }

    /// Record the outcome of the native start. Where it failed, the callback is
    /// disconnected again.
    pub fn started(&mut self, failure: Option<&str>) -> (result: Result<(), AudioError>)
        ensures
            call_result("failed to start oboe stream"@, failure, result),
            final(self).control() == old(self).control().settled(failure is None),
            final(self).spec_format() == old(self).spec_format(),
    {
        self.control.started(failure.is_none());
        check("failed to start oboe stream", failure)
    }

    /// Disconnect the callback. Returns whether the stream has to be stopped and
    /// closed.
    pub fn stop(&mut self) -> (close: bool)
        ensures
            close == (old(self).control().opened && old(self).control().running),
            final(self).control() == old(self).control().stopped(false),
            final(self).spec_format() == old(self).spec_format(),
    {
        self.control.stop(false)
    }

    /// Whether pausing has to reach the stream.
    pub fn pause(&self) -> (native: bool)
        ensures
            native == (self.control().opened && self.control().running),
    {
        self.control.is_active()
    }

    /// The outcome of a native pause.
    pub fn paused(&self, failure: Option<&str>) -> (result: Result<(), AudioError>)
        ensures
            call_result("failed to pause oboe stream"@, failure, result),
    {
        check("failed to pause oboe stream", failure)
    }

    /// Whether resuming has to reach the stream.
    pub fn resume(&self) -> (native: bool)
        ensures
            native == (self.control().opened && self.control().running),
    {
        self.control.is_active()
    }

    /// The outcome of a native start that resumes.
    pub fn resumed(&self, failure: Option<&str>) -> (result: Result<(), AudioError>)
        ensures
            call_result("failed to resume oboe stream"@, failure, result),
    {
        check("failed to resume oboe stream", failure)
    }
}

} // verus!
