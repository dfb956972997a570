//! Opening a shared-mode client and filling its render buffer.

use vstd::prelude::*;

use super::format::{
    is_interleaved_float, parse_float_format, wasapi_error, wasapi_text, WaveFormat,
};
use crate::error::{backend_message, AudioError, ErrorView};
use crate::types::AudioFormat;

verus! {

/// A native call on the way to a client.
#[derive(Clone, Copy, Debug, PartialEq, Eq, Structural)]
pub enum ClientCall {
    GetDefaultEndpoint,
    Activate,
    GetMixFormat,
    /// Ask for the interface that offers engine periods. There may be none.
    QueryClient3,
    /// Ask for the engine periods. There may be none for the format.
    GetEnginePeriod,
    /// Initialize with the given period in frames.
    InitializeShared(u32),
    /// Initialize with the default period.
    Initialize,
    GetBufferSize,
    CreateEvent,
    SetEventHandle,
    GetRenderService,
}

/// What a successful call came back with. Only the fields of its call count.
#[derive(Clone, Copy, Debug, PartialEq, Eq, Structural)]
pub struct ClientReply {
    pub mix_format: Option<WaveFormat>,
    pub fundamental_period: u32,
    pub minimum_period: u32,
    pub buffer_frames: u32,
}

/// How opening goes on.
pub enum ClientNext {
    Call(ClientCall),
    Opened,
    Failed(AudioError),
}

/// What to do after the reply to a native call.
pub struct ClientStep {
    /// Close the buffer event.
    pub close_event: bool,
    pub next: ClientNext,
}

/// A client that is being opened.
#[derive(Clone, Copy, Debug, PartialEq, Eq, Structural)]
pub struct ClientOpening {
    pub call: ClientCall,
    pub format: AudioFormat,
    pub buffer_frames: u32,
}

/// The shortest period that the engine offers, in frames.
pub open spec fn engine_period(fundamental: u32, minimum: u32) -> u32 {
    let period = if fundamental < minimum {
        minimum
    } else {
        fundamental
    };
    if period < 1 {
        1
    } else {
        period
    }
}

/// Whether a mix format can be played.
pub open spec fn playable(format: Option<WaveFormat>) -> bool {
    format is Some && is_interleaved_float(format->0) && format->0.channels != 0
        && format->0.samples_per_sec != 0
}

/// Whether opening can go on after a reply. The two queries for a period may
/// fail; a format that cannot be played and an empty buffer are failures.
pub open spec fn goes_on(call: ClientCall, reply: Result<ClientReply, &str>) -> bool {
    match call {
        ClientCall::QueryClient3 => true,
        ClientCall::GetEnginePeriod => true,
        ClientCall::GetMixFormat => reply is Ok && playable(reply->Ok_0.mix_format),
        ClientCall::GetBufferSize => reply is Ok && reply->Ok_0.buffer_frames != 0,
        _ => reply is Ok,
    }
}

/// The call behind one after which opening goes on.
pub open spec fn following(call: ClientCall, reply: Result<ClientReply, &str>) -> Option<
    ClientCall,
> {
    match call {
        ClientCall::GetDefaultEndpoint => Some(ClientCall::Activate),
        ClientCall::Activate => Some(ClientCall::GetMixFormat),
        ClientCall::GetMixFormat => Some(ClientCall::QueryClient3),
        ClientCall::QueryClient3 => if reply is Ok {
            Some(ClientCall::GetEnginePeriod)
        } else {
            Some(ClientCall::Initialize)
        },
        ClientCall::GetEnginePeriod => match reply {
            Ok(periods) => Some(
                ClientCall::InitializeShared(
                    engine_period(periods.fundamental_period, periods.minimum_period),
                ),
            ),
            Err(_) => Some(ClientCall::Initialize),
        },
        ClientCall::InitializeShared(_) => Some(ClientCall::GetBufferSize),
        ClientCall::Initialize => Some(ClientCall::GetBufferSize),
        ClientCall::GetBufferSize => Some(ClientCall::CreateEvent),
        ClientCall::CreateEvent => Some(ClientCall::SetEventHandle),
        ClientCall::SetEventHandle => Some(ClientCall::GetRenderService),
        ClientCall::GetRenderService => None,
    }
}

/// The native operation that an error names.
pub open spec fn operation_name(call: ClientCall) -> Seq<char> {
    match call {
        ClientCall::GetMixFormat => "GetMixFormat"@,
        ClientCall::InitializeShared(_) => "InitializeSharedAudioStream"@,
        ClientCall::Initialize => "IAudioClient::Initialize"@,
        ClientCall::GetBufferSize => "GetBufferSize"@,
        ClientCall::CreateEvent => "CreateEventW"@,
        ClientCall::SetEventHandle => "SetEventHandle"@,
        _ => "GetService(IAudioRenderClient)"@,
    }
}

/// The error that a reply after which opening cannot go on is reported as.
pub open spec fn open_error(call: ClientCall, reply: Result<ClientReply, &str>) -> ErrorView {
    match reply {
        Ok(_) => match call {
            ClientCall::GetBufferSize => ErrorView::Backend(
                "WASAPI returned a zero-sized render buffer"@,
            ),
            _ => ErrorView::FormatNotSupported,
        },
        Err(error) => match call {
            ClientCall::GetDefaultEndpoint => ErrorView::DeviceNotFound,
            ClientCall::Activate => ErrorView::DeviceBusy,
            _ => ErrorView::Backend(wasapi_text(operation_name(call), error@)),
        },
    }
}

/// Whether a call comes after there is a buffer event.
pub open spec fn has_event(call: ClientCall) -> bool {
    call == ClientCall::SetEventHandle || call == ClientCall::GetRenderService
}

fn operation(call: ClientCall) -> (name: &'static str)
    ensures
        name@ == operation_name(call),
{
    match call {
        ClientCall::GetMixFormat => "GetMixFormat",
        ClientCall::InitializeShared(_) => "InitializeSharedAudioStream",
        ClientCall::Initialize => "IAudioClient::Initialize",
        ClientCall::GetBufferSize => "GetBufferSize",
        ClientCall::CreateEvent => "CreateEventW",
        ClientCall::SetEventHandle => "SetEventHandle",
        _ => "GetService(IAudioRenderClient)",
    }
}

impl ClientOpening {
    /// A client of which nothing exists yet.
    pub fn new() -> (opening: Self)
        ensures
            opening == (ClientOpening {
                call: ClientCall::GetDefaultEndpoint,
                format: AudioFormat { sample_rate: 0, channels: 0 },
                buffer_frames: 0,
            }),
    {
        ClientOpening {
            call: ClientCall::GetDefaultEndpoint,
            format: AudioFormat::new(0, 0),
            buffer_frames: 0,
        }
    }

    /// Decide how opening goes on after the reply to the current call, where a
    /// failure is a rendered error.
    pub fn after_call(&mut self, reply: Result<ClientReply, &str>) -> (step: ClientStep)
        ensures
            step.close_event == (has_event(old(self).call) && reply is Err),
            match step.next {
                ClientNext::Failed(error) => !goes_on(old(self).call, reply) && error@
                    == open_error(old(self).call, reply) && *final(self) == *old(self),
                ClientNext::Call(next) => goes_on(old(self).call, reply) && following(
                    old(self).call,
                    reply,
                ) == Some(next) && final(self).call == next,
                ClientNext::Opened => goes_on(old(self).call, reply) && following(
                    old(self).call,
                    reply,
                ) is None && *final(self) == *old(self),
            },
            final(self).format == (if old(self).call == ClientCall::GetMixFormat && goes_on(
                old(self).call,
                reply,
            ) {
                AudioFormat {
                    sample_rate: reply->Ok_0.mix_format->0.samples_per_sec,
                    channels: reply->Ok_0.mix_format->0.channels,
                }
            } else {
                old(self).format
            }),
            final(self).buffer_frames == (if old(self).call == ClientCall::GetBufferSize && goes_on(
                old(self).call,
                reply,
            ) {
                reply->Ok_0.buffer_frames
            } else {
                old(self).buffer_frames
            }),
    {
        let call = self.call;
        let next = match call {
            ClientCall::QueryClient3 => match reply {
                Ok(_) => ClientCall::GetEnginePeriod,
                Err(_) => ClientCall::Initialize,
            },
            ClientCall::GetEnginePeriod => match reply {
                Ok(periods) => {
                    let mut period: u32 = periods.fundamental_period;
                    if period < periods.minimum_period {
                        period = periods.minimum_period;
                    }
                    if period < 1 {
                        period = 1;
                    }
                    ClientCall::InitializeShared(period)
                },
                Err(_) => ClientCall::Initialize,
            },
            _ => {
                let value = match reply {
                    Ok(value) => value,
                    Err(error) => {
                        let failure = match call {
                            ClientCall::GetDefaultEndpoint => AudioError::DeviceNotFound,
                            ClientCall::Activate => AudioError::DeviceBusy,
                            _ => wasapi_error(operation(call), error),
                        };
                        let close_event = match call {
                            ClientCall::SetEventHandle | ClientCall::GetRenderService => true,
                            _ => false,
                        };
                        return ClientStep { close_event, next: ClientNext::Failed(failure) };
                    },
                };
                match call {
                    ClientCall::GetDefaultEndpoint => ClientCall::Activate,
                    ClientCall::Activate => ClientCall::GetMixFormat,
                    ClientCall::GetMixFormat => match parse_float_format(value.mix_format) {
                        Ok(format) => {
                            self.format = format;
                            ClientCall::QueryClient3
                        },
                        Err(error) => {
                            return ClientStep {
                                close_event: false,
                                next: ClientNext::Failed(error),
                            };
                        },
                    },
                    ClientCall::GetBufferSize => {
                        if value.buffer_frames == 0 {
                            return ClientStep {
                                close_event: false,
                                next: ClientNext::Failed(
                                    backend_message("WASAPI returned a zero-sized render buffer"),
                                ),
                            };
                        }
                        self.buffer_frames = value.buffer_frames;
                        ClientCall::CreateEvent
                    },
                    ClientCall::CreateEvent => ClientCall::SetEventHandle,
                    ClientCall::SetEventHandle => ClientCall::GetRenderService,
                    ClientCall::GetRenderService => {
                        return ClientStep { close_event: false, next: ClientNext::Opened };
                    },
                    _ => ClientCall::GetBufferSize,
                }
            },
        };
        self.call = next;
        ClientStep { close_event: false, next: ClientNext::Call(next) }
    }
}

/// What opening has done by its end.
pub struct OpenTally {
    pub events_created: int,
    pub events_closed: int,
    pub opened: bool,
}

/// Calls that are left at most, `call` included.
pub open spec fn calls_left(call: ClientCall) -> nat {
    match call {
        ClientCall::GetDefaultEndpoint => 10,
        ClientCall::Activate => 9,
        ClientCall::GetMixFormat => 8,
        ClientCall::QueryClient3 => 7,
        ClientCall::GetEnginePeriod => 6,
        ClientCall::InitializeShared(_) => 5,
        ClientCall::Initialize => 5,
        ClientCall::GetBufferSize => 4,
        ClientCall::CreateEvent => 3,
        ClientCall::SetEventHandle => 2,
        ClientCall::GetRenderService => 1,
    }
}

/// What opening does from `call` on, where `replies` holds what each further
/// call comes back with.
pub open spec fn opening(call: ClientCall, replies: Seq<Result<ClientReply, &str>>) -> OpenTally
    decreases replies.len(),
{
    let reply = replies.first();
    let created = if call == ClientCall::CreateEvent && goes_on(call, reply) {
        1int
    } else {
        0int
    };
    let closed = if has_event(call) && reply is Err {
        1int
    } else {
        0int
    };
    if replies.len() == 0 || !goes_on(call, reply) || following(call, reply) is None {
        OpenTally {
            events_created: created,
            events_closed: closed,
            opened: goes_on(call, reply),
        }
    } else {
        let rest = opening(following(call, reply)->0, replies.drop_first());
        OpenTally {
            events_created: created + rest.events_created,
            events_closed: closed + rest.events_closed,
            opened: rest.opened,
        }
    }
}

/// However the native calls reply, the buffer event is closed exactly where
/// opening fails after it was made.
pub proof fn law_opening_cleans_up(call: ClientCall, replies: Seq<Result<ClientReply, &str>>)
    requires
        replies.len() >= calls_left(call),
    ensures
        ({
            let tally = opening(call, replies);
            let events = tally.events_created + if has_event(call) {
                1int
            } else {
                0int
            };
            &&& tally.events_created >= 0 && tally.events_closed >= 0
            &&& events <= 1
            &&& tally.events_closed == (if tally.opened {
                0
            } else {
                events
            })
            &&& tally.opened ==> events == 1
        }),
    decreases replies.len(),
{
    let reply = replies.first();
    if goes_on(call, reply) && following(call, reply) is Some {
        law_opening_cleans_up(following(call, reply)->0, replies.drop_first());
    }
}

/// A client that was opened.
#[derive(Clone, Copy, Debug, PartialEq, Eq, Structural)]
pub struct WasapiClient {
    pub buffer_frames: u32,
    pub channels: u16,
}

/// The endpoint cannot be rendered to any more.
#[derive(Clone, Copy, Debug, PartialEq, Eq, Structural)]
pub enum RenderError {
    Device,
}

/// How much to render.
#[derive(Clone, Copy, Debug, PartialEq, Eq, Structural)]
pub struct FillPlan {
    pub frames: u32,
    pub samples: usize,
}

impl WasapiClient {
    /// Samples of the whole render buffer.
    pub open spec fn capacity(self) -> int {
        self.buffer_frames * self.channels
    }

    /// The client of an opening that has ended, with its format.
    pub fn opened(opening: ClientOpening) -> (client: (Self, AudioFormat))
        ensures
            client.0 == (WasapiClient {
                buffer_frames: opening.buffer_frames,
                channels: opening.format.channels,
            }),
            client.1 == opening.format,
    {
        (
            WasapiClient {
                buffer_frames: opening.buffer_frames,
                channels: opening.format.channels,
            },
            opening.format,
        )
    }

    /// Plan a fill of the render buffer, of which `padding` frames are still to
    /// be played, through a scratch buffer of `scratch` samples. `Ok(None)`
    /// where the render buffer is full.
    pub fn fill(&self, padding: u32, scratch: usize) -> (result: Result<
        Option<FillPlan>,
        RenderError,
    >)
        ensures
            result is Err <==> padding > self.buffer_frames || (self.buffer_frames - padding)
                * self.channels > usize::MAX || (self.buffer_frames - padding) * self.channels
                > scratch && padding != self.buffer_frames,
            result is Ok && result->Ok_0 is None <==> padding == self.buffer_frames,
            result is Ok && result->Ok_0 is Some ==> {
                &&& result->Ok_0->0.frames == self.buffer_frames - padding
                &&& result->Ok_0->0.samples == (self.buffer_frames - padding) * self.channels
            },
            padding <= self.buffer_frames && self.capacity() <= scratch ==> result is Ok,
    {
        if padding > self.buffer_frames {
            return Err(RenderError::Device);
        }
        let available: u32 = self.buffer_frames - padding;
        if available == 0 {
            assert(0 * self.channels == 0);
            return Ok(None);
        }
        assert(available * self.channels <= self.buffer_frames * self.channels) by (nonlinear_arith)
            requires
                available <= self.buffer_frames,
        ;
        let samples: usize = match (available as usize).checked_mul(self.channels as usize) {
            Some(samples) => samples,
            None => {
                return Err(RenderError::Device);
            },
        };
        if scratch < samples {
            return Err(RenderError::Device);
        }
        Ok(Some(FillPlan { frames: available, samples }))
    }
}

} // verus!
