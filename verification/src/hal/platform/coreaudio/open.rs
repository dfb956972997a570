//! Opening an output unit.

use vstd::prelude::*;

use super::unit::NO_ERR;
use crate::error::{backend_error, failed_text, AudioError, ErrorView};
use crate::types::AudioFormat;

verus! {

pub const DEFAULT_SAMPLE_RATE: u32 = 48_000;

pub const DEFAULT_CHANNELS: u16 = 2;

/// The platforms that share this backend.
#[derive(Clone, Copy, Debug, PartialEq, Eq, Structural)]
pub enum Platform {
    MacOs,
    Ios,
}

/// A native call on the way to an opened unit.
#[derive(Clone, Copy, Debug, PartialEq, Eq, Structural)]
pub enum OpenCall {
    FindComponent,
    NewInstance,
    /// Keep the output bus enabled.
    EnableOutput,
    /// Disable the input bus, so that no microphone path is opened.
    DisableInput,
    /// Query the hardware format. Its failure is no failure of opening.
    QueryFormat,
    SetStreamFormat,
    AddListener,
}

/// How opening goes on.
pub enum OpenNext {
    Call(OpenCall),
    Opened,
    Failed(AudioError),
}

/// What to do after the reply to a native call.
pub struct OpenStep {
    /// Dispose of the instance.
    pub dispose: bool,
    pub next: OpenNext,
}

/// Whether a reply is a success: the call's status, and for the two calls that
/// hand something out, that there is something.
pub open spec fn call_succeeded(call: OpenCall, status: i32, handle: bool) -> bool {
    match call {
        OpenCall::FindComponent => handle,
        OpenCall::NewInstance => status == NO_ERR && handle,
        OpenCall::QueryFormat => true,
        _ => status == NO_ERR,
    }
}

/// The call behind a successful one. Only iOS has buses to set up.
pub open spec fn following(platform: Platform, call: OpenCall) -> Option<OpenCall> {
    match call {
        OpenCall::FindComponent => Some(OpenCall::NewInstance),
        OpenCall::NewInstance => match platform {
            Platform::MacOs => Some(OpenCall::QueryFormat),
            Platform::Ios => Some(OpenCall::EnableOutput),
        },
        OpenCall::EnableOutput => Some(OpenCall::DisableInput),
        OpenCall::DisableInput => Some(OpenCall::QueryFormat),
        OpenCall::QueryFormat => Some(OpenCall::SetStreamFormat),
        OpenCall::SetStreamFormat => Some(OpenCall::AddListener),
        OpenCall::AddListener => None,
    }
}

/// The error that a failed call is reported as.
pub open spec fn open_error(call: OpenCall, status: i32) -> ErrorView {
    match call {
        OpenCall::FindComponent => ErrorView::DeviceNotFound,
        OpenCall::NewInstance => ErrorView::DeviceBusy,
        OpenCall::EnableOutput => ErrorView::DeviceNotFound,
        OpenCall::DisableInput => ErrorView::DeviceNotFound,
        OpenCall::QueryFormat => ErrorView::FormatNotSupported,
        OpenCall::SetStreamFormat => ErrorView::FormatNotSupported,
        OpenCall::AddListener => ErrorView::Backend(
            failed_text("AudioUnitAddPropertyListener"@, status as int),
        ),
    }
}

/// Whether a call comes after there is an instance.
pub open spec fn has_instance(call: OpenCall) -> bool {
    call != OpenCall::FindComponent && call != OpenCall::NewInstance
}

/// Decide how opening goes on after the reply to `call`. `handle` says whether
/// the call handed something out.
pub fn after_open_call(platform: Platform, call: OpenCall, status: i32, handle: bool) -> (step:
    OpenStep)
    ensures
        step.dispose == (has_instance(call) && !call_succeeded(call, status, handle)),
        match step.next {
            OpenNext::Failed(error) => !call_succeeded(call, status, handle) && error@
                == open_error(call, status),
            OpenNext::Call(next) => call_succeeded(call, status, handle) && following(
                platform,
                call,
            ) == Some(next),
            OpenNext::Opened => call_succeeded(call, status, handle) && following(platform, call)
                is None,
        },
{
    match call {
        OpenCall::FindComponent => {
            if !handle {
                return OpenStep {
                    dispose: false,
                    next: OpenNext::Failed(AudioError::DeviceNotFound),
                };
            }
            OpenStep { dispose: false, next: OpenNext::Call(OpenCall::NewInstance) }
        },
        OpenCall::NewInstance => {
            if status != NO_ERR || !handle {
                return OpenStep {
                    dispose: false,
                    next: OpenNext::Failed(AudioError::DeviceBusy),
                };
            }
            let next = match platform {
                Platform::MacOs => OpenCall::QueryFormat,
                Platform::Ios => OpenCall::EnableOutput,
            };
            OpenStep { dispose: false, next: OpenNext::Call(next) }
        },
        OpenCall::EnableOutput => {
            if status != NO_ERR {
                return OpenStep {
                    dispose: true,
                    next: OpenNext::Failed(AudioError::DeviceNotFound),
                };
            }
            OpenStep { dispose: false, next: OpenNext::Call(OpenCall::DisableInput) }
        },
        OpenCall::DisableInput => {
            if status != NO_ERR {
                return OpenStep {
                    dispose: true,
                    next: OpenNext::Failed(AudioError::DeviceNotFound),
                };
            }
            OpenStep { dispose: false, next: OpenNext::Call(OpenCall::QueryFormat) }
        },
        OpenCall::QueryFormat => OpenStep {
            dispose: false,
            next: OpenNext::Call(OpenCall::SetStreamFormat),
        },
        OpenCall::SetStreamFormat => {
            if status != NO_ERR {
                return OpenStep {
                    dispose: true,
                    next: OpenNext::Failed(AudioError::FormatNotSupported),
                };
            }
            OpenStep { dispose: false, next: OpenNext::Call(OpenCall::AddListener) }
        },
        OpenCall::AddListener => {
            if status != NO_ERR {
                return OpenStep {
                    dispose: true,
                    next: OpenNext::Failed(backend_error("AudioUnitAddPropertyListener", status)),
                };
            }
            OpenStep { dispose: false, next: OpenNext::Opened }
        },
    }
}

/// What opening has done by its end.
pub struct OpenTally {
    pub instances: int,
    pub disposed: int,
    pub opened: bool,
}

/// Calls that are left, `call` included.
pub open spec fn calls_left(platform: Platform, call: OpenCall) -> nat {
    match call {
        OpenCall::FindComponent => match platform {
            Platform::MacOs => 5,
            Platform::Ios => 7,
        },
        OpenCall::NewInstance => match platform {
            Platform::MacOs => 4,
            Platform::Ios => 6,
        },
        OpenCall::EnableOutput => 5,
        OpenCall::DisableInput => 4,
        OpenCall::QueryFormat => 3,
        OpenCall::SetStreamFormat => 2,
        OpenCall::AddListener => 1,
    }
}

/// What opening does from `call` on, where `replies` holds the status and the
/// handle that each further call comes back with.
pub open spec fn opening(platform: Platform, call: OpenCall, replies: Seq<(i32, bool)>) -> OpenTally
    decreases replies.len(),
{
    let (status, handle) = replies.first();
    let success = call_succeeded(call, status, handle);
    let instances = if call == OpenCall::NewInstance && success {
        1int
    } else {
        0int
    };
    let disposed = if has_instance(call) && !success {
        1int
    } else {
        0int
    };
    if replies.len() == 0 || !success || following(platform, call) is None {
        OpenTally { instances, disposed, opened: success }
    } else {
        let rest = opening(platform, following(platform, call)->0, replies.drop_first());
        OpenTally {
            instances: instances + rest.instances,
            disposed: disposed + rest.disposed,
            opened: rest.opened,
        }
    }
}

/// However the native calls reply, an instance is disposed of exactly where
/// opening fails after it was made.
pub proof fn law_opening_cleans_up(platform: Platform, call: OpenCall, replies: Seq<(i32, bool)>)
    requires
        replies.len() >= calls_left(platform, call),
    ensures
        ({
            let tally = opening(platform, call, replies);
            let instances = tally.instances + if has_instance(call) {
                1int
            } else {
                0int
            };
            &&& tally.instances >= 0 && tally.disposed >= 0
            &&& instances <= 1
            &&& tally.disposed == (if tally.opened {
                0
            } else {
                instances
            })
            &&& tally.opened ==> instances == 1
        }),
    decreases replies.len(),
{
    let (status, handle) = replies.first();
    if call_succeeded(call, status, handle) && following(platform, call) is Some {
        law_opening_cleans_up(platform, following(platform, call)->0, replies.drop_first());
    }
}

/// The format used where the hardware does not report one.
pub fn default_format() -> (format: AudioFormat)
    ensures
        format == (AudioFormat { sample_rate: DEFAULT_SAMPLE_RATE, channels: DEFAULT_CHANNELS }),
{
    AudioFormat::new(DEFAULT_SAMPLE_RATE, DEFAULT_CHANNELS)
}

/// The hardware format from the reply to the query. `sample_rate` is the
/// reported rate in whole Hertz, or `None` where it is not finite or not
/// positive.
pub fn hardware_format(status: i32, sample_rate: Option<u32>, channels: u32) -> (format:
    AudioFormat)
    ensures
        format == (if status == NO_ERR && sample_rate is Some && 0 < channels <= u16::MAX {
            AudioFormat { sample_rate: sample_rate->0, channels: channels as u16 }
        } else {
            AudioFormat { sample_rate: DEFAULT_SAMPLE_RATE, channels: DEFAULT_CHANNELS }
        }),
{
    match sample_rate {
        Some(rate) => {
            if status == NO_ERR && channels > 0 && channels <= u16::MAX as u32 {
                AudioFormat::new(rate, channels as u16)
            } else {
                default_format()
            }
        },
        None => default_format(),
    }
}

/// A stream description of interleaved 32-bit float samples.
#[derive(Clone, Copy, Debug, PartialEq, Eq, Structural)]
pub struct PcmFormat {
    pub sample_rate: u32,
    pub bytes_per_packet: u32,
    pub frames_per_packet: u32,
    pub bytes_per_frame: u32,
    pub channels_per_frame: u32,
    pub bits_per_channel: u32,
}

pub fn pcm_format(format: AudioFormat) -> (description: PcmFormat)
    ensures
        description == (PcmFormat {
            sample_rate: format.sample_rate,
            bytes_per_packet: (format.channels * 4) as u32,
            frames_per_packet: 1,
            bytes_per_frame: (format.channels * 4) as u32,
            channels_per_frame: format.channels as u32,
            bits_per_channel: 32,
        }),
        description.bytes_per_packet == description.bytes_per_frame
            * description.frames_per_packet,
        description.bytes_per_frame * 8 == description.bits_per_channel
            * description.channels_per_frame,
{
    let channels: u32 = format.channels as u32;
    PcmFormat {
        sample_rate: format.sample_rate,
        bytes_per_packet: channels * 4,
        frames_per_packet: 1,
        bytes_per_frame: channels * 4,
        channels_per_frame: channels,
        bits_per_channel: 32,
    }
}

} // verus!
