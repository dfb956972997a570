//! What the pieces of the WASAPI backend give, in terms of what they are given.

use vstd::prelude::*;

use super::client::{
    ClientCall, ClientNext, ClientOpening, ClientReply, ClientStep, FillPlan, RenderError,
    WasapiClient,
};
use super::format::{parse_float_format, wasapi_error, WaveFormat};
use super::notification::{DeviceChangeSignal, Notification};
use super::worker::{
    after_startup_call, backoff, request_result, startup_result, Command, CommandStep, PlaybackState, RecoveryStep, StartupCall,
    StartupNext, WaitOutcome, WaitStep, Worker,
};
use crate::error::{AudioError, ErrorView};
use crate::types::AudioFormat;

verus! {

/// A native format is played exactly where it is one of 32-bit floats, one behind
/// another, of at least one channel at a rate; it is played as what it says.
pub proof fn law_float_formats_are_played(wave: WaveFormat, result: Result<AudioFormat, AudioError>)
    requires
        call_ensures(parse_float_format, (Some(wave),), result),
    ensures
        result is Ok <==> {
            &&& wave.format_tag == 3 || (wave.format_tag == 0xfffe && wave.extra_bytes >= 22
                && wave.sub_format == 0x00000003_0000_0010_8000_00aa00389b71u128)
            &&& wave.bits_per_sample == 32
            &&& wave.block_align == 4 * wave.channels
            &&& wave.channels > 0
            &&& wave.samples_per_sec > 0
        },
        result is Ok ==> result->Ok_0.sample_rate == wave.samples_per_sec && result->Ok_0.channels
            == wave.channels,
        result is Err ==> result->Err_0@ == ErrorView::FormatNotSupported,
{
}

/// The place of a call on the way to a client.
pub open spec fn place(call: ClientCall) -> int {
    match call {
        ClientCall::GetDefaultEndpoint => 0,
        ClientCall::Activate => 1,
        ClientCall::GetMixFormat => 2,
        ClientCall::QueryClient3 => 3,
        ClientCall::GetEnginePeriod => 4,
        ClientCall::InitializeShared(_) => 5,
        ClientCall::Initialize => 5,
        ClientCall::GetBufferSize => 6,
        ClientCall::CreateEvent => 7,
        ClientCall::SetEventHandle => 8,
        ClientCall::GetRenderService => 9,
    }
}

/// A client is opened one call after another, and the event that exists from its
/// creation on is closed where a later call fails. Only the two queries for a
/// period may fail, and then the default one is used. Any other failure ends
/// opening, and so do a format that is not played and a buffer without frames.
pub proof fn law_clients_open_step_by_step(
    opening: &mut ClientOpening,
    reply: Result<ClientReply, &str>,
    step: ClientStep,
)
    requires
        call_ensures(ClientOpening::after_call, (opening, reply), step),
    ensures
        step.close_event <==> place(old(opening).call) >= 8 && reply is Err,
        match step.next {
            ClientNext::Call(next) => {
                &&& final(opening).call == next
                &&& place(next) == place(old(opening).call) + 1 || (reply is Err
                    && old(opening).call == ClientCall::QueryClient3 && next
                    == ClientCall::Initialize)
                &&& reply is Err ==> next == ClientCall::Initialize && 3 <= place(
                    old(opening).call,
                ) <= 4
                &&& old(opening).call == ClientCall::GetEnginePeriod && reply is Ok ==> next
                    is InitializeShared
            },
            ClientNext::Opened => place(old(opening).call) == 9 && reply is Ok && *final(opening) == *old(opening),
            ClientNext::Failed(error) => {
                &&& *final(opening) == *old(opening)
                &&& reply is Ok ==> 2 == place(old(opening).call) || 6 == place(old(opening).call)
                &&& reply is Ok && place(old(opening).call) == 6 ==> reply->Ok_0.buffer_frames == 0
                &&& reply is Err && place(old(opening).call) == 0 ==> error@
                    == ErrorView::DeviceNotFound
                &&& reply is Err && place(old(opening).call) == 1 ==> error@
                    == ErrorView::DeviceBusy
                &&& reply is Err && place(old(opening).call) > 1 ==> error@ is Backend
            },
        },
        place(old(opening).call) == 6 && reply is Ok && reply->Ok_0.buffer_frames > 0
            ==> step.next is Call && final(opening).buffer_frames == reply->Ok_0.buffer_frames,
        place(old(opening).call) != 6 ==> final(opening).buffer_frames == old(opening).buffer_frames,
        place(old(opening).call) != 2 ==> final(opening).format == old(opening).format,
{
}

/// The mix format that is played is the format of the client.
pub proof fn law_clients_have_the_mix_format(
    opening: &mut ClientOpening,
    reply: ClientReply,
    step: ClientStep,
    parsed: Result<AudioFormat, AudioError>,
    client: (WasapiClient, AudioFormat),
)
    requires
        old(opening).call == ClientCall::GetMixFormat,
        call_ensures(
            ClientOpening::after_call,
            (opening, Ok::<ClientReply, &str>(reply)),
            step,
        ),
        call_ensures(parse_float_format, (reply.mix_format,), parsed),
        call_ensures(WasapiClient::opened, (*final(opening),), client),
    ensures
        step.next is Call <==> parsed is Ok,
        parsed is Ok ==> client.1 == parsed->Ok_0 && client.0.channels == parsed->Ok_0.channels,
        client.0.buffer_frames == final(opening).buffer_frames,
{
}

/// The period that is asked for is the shortest that the engine allows: neither
/// below its minimum nor below its fundamental one nor none, and one of these.
pub proof fn law_period_is_the_shortest_allowed(
    opening: &mut ClientOpening,
    reply: ClientReply,
    step: ClientStep,
)
    requires
        old(opening).call == ClientCall::GetEnginePeriod,
        call_ensures(
            ClientOpening::after_call,
            (opening, Ok::<ClientReply, &str>(reply)),
            step,
        ),
    ensures
        final(opening).call is InitializeShared,
        ({
            let period = final(opening).call->InitializeShared_0;
            &&& period >= reply.minimum_period && period >= reply.fundamental_period && period >= 1
            &&& period == reply.minimum_period || period == reply.fundamental_period || period == 1
        }),
{
}

/// A fill renders exactly the frames that are not waiting to be played, where the
/// scratch buffer has room for them.
pub proof fn law_fills_take_the_free_frames(
    client: WasapiClient,
    padding: u32,
    scratch: usize,
    result: Result<Option<FillPlan>, RenderError>,
)
    requires
        call_ensures(WasapiClient::fill, (&client, padding, scratch), result),
        client.buffer_frames * client.channels <= scratch,
    ensures
        result is Ok <==> padding <= client.buffer_frames,
        result is Ok ==> (result->Ok_0 is None <==> padding == client.buffer_frames),
        result is Ok && result->Ok_0 is Some ==> {
            &&& result->Ok_0->0.frames + padding == client.buffer_frames
            &&& result->Ok_0->0.samples == result->Ok_0->0.frames * client.channels
        },
{
    let free = client.buffer_frames - padding;
    if padding <= client.buffer_frames {
        assert(free * client.channels <= client.buffer_frames * client.channels)
            by (nonlinear_arith)
            requires
                0 <= free <= client.buffer_frames,
        ;
    }
}

/// A client is taken over with a scratch buffer for all its frames.
pub proof fn law_scratch_fits_the_client(
    worker: &mut Worker,
    client: WasapiClient,
    format: AudioFormat,
    result: Result<(), AudioError>,
)
    requires
        client.channels == format.channels,
        call_ensures(Worker::install_client, (worker, client, format), result),
    ensures
        result is Ok <==> client.buffer_frames * client.channels <= usize::MAX,
        result is Ok ==> {
            &&& final(worker)@.scratch == client.buffer_frames * client.channels
            &&& final(worker)@.client == Some(client)
            &&& final(worker)@.format == format
            &&& final(worker)@.state == old(worker)@.state
        },
        result is Err ==> final(worker)@ == old(worker)@,
{
}

/// What a command leaves behind, whatever came before: a start plays, a stop gives
/// everything up, a pause and a resume turn playing into paused and back and do
/// nothing else.
pub proof fn law_commands_set_the_state(
    worker: &mut Worker,
    command: Command,
    now: u64,
    step: CommandStep,
)
    requires
        old(worker).wf(),
        call_ensures(Worker::handle_command, (worker, command, now), step),
    ensures
        final(worker)@.state == (match command {
            Command::Start => PlaybackState::Running,
            Command::Stop => PlaybackState::Stopped,
            Command::Shutdown => PlaybackState::Stopped,
            Command::Pause => if old(worker)@.state == PlaybackState::Running {
                PlaybackState::Paused
            } else {
                old(worker)@.state
            },
            Command::Resume => if old(worker)@.state == PlaybackState::Paused {
                PlaybackState::Running
            } else {
                old(worker)@.state
            },
        }),
        command == Command::Stop || command == Command::Shutdown ==> final(worker)@.client is None
            && !final(worker)@.recovery_pending,
        command != Command::Stop && command != Command::Shutdown ==> final(worker)@.client
            == old(worker)@.client,
        final(worker)@.state == PlaybackState::Running && old(worker)@.state
            != PlaybackState::Running ==> final(worker)@.client is Some
            || final(worker)@.recovery_pending,
        (command == Command::Start && old(worker)@.state != PlaybackState::Running) || (command
            == Command::Resume && old(worker)@.state == PlaybackState::Paused) ==> (
        old(worker)@.client is None ==> final(worker)@.recovery_pending
            && !final(worker)@.notify_recovery && final(worker)@.retry_at == now),
        command == Command::Stop ==> final(worker)@.scratch == 0 && !final(worker)@.notify_recovery
            && !final(worker)@.recovery_notified,
        final(worker)@.format == old(worker)@.format,
        command == Command::Pause || (command == Command::Start && old(worker)@.state
            == PlaybackState::Running) || (command == Command::Resume && old(worker)@.state
            != PlaybackState::Paused) ==> final(worker)@.recovery_pending
            == old(worker)@.recovery_pending && final(worker)@.notify_recovery
            == old(worker)@.notify_recovery && final(worker)@.retry_at == old(worker)@.retry_at,
        command == Command::Start && old(worker)@.state != PlaybackState::Running ==> (if old(worker)@.client
            is Some && !old(worker)@.recovery_pending {
            step == CommandStep::StartClient
        } else {
            step == CommandStep::Recover
        }),
        step is Exit <==> command == Command::Shutdown,
        step == CommandStep::StartClient ==> old(worker)@.client is Some && old(worker)@.state
            != PlaybackState::Running && final(worker)@.state == PlaybackState::Running,
        step == CommandStep::StopClient <==> command == Command::Pause && old(worker)@.client
            is Some && old(worker)@.state == PlaybackState::Running,
        step == CommandStep::CloseClient <==> command == Command::Stop && old(worker)@.client
            is Some,
        command == Command::Shutdown ==> (step->close_client <==> old(worker)@.client is Some),
        command == Command::Resume && old(worker)@.client is Some && old(worker)@.state
            == PlaybackState::Paused ==> step == CommandStep::StartClient,
{
}

/// A lost endpoint is given up and an attempt to recover it is due at once; a
/// stopped device has nothing to lose.
pub proof fn law_losses_start_a_recovery(
    worker: &mut Worker,
    now: u64,
    close: bool,
    tried: &mut Worker,
    step: RecoveryStep,
)
    requires
        old(worker).wf(),
        call_ensures(Worker::begin_recovery, (worker, now), close),
        *old(tried) == *final(worker),
        call_ensures(Worker::try_recover, (tried, now), step),
    ensures
        old(worker)@.state == PlaybackState::Stopped ==> !close && final(worker)@ == old(worker)@
            && step == RecoveryStep::Wait,
        old(worker)@.state != PlaybackState::Stopped ==> {
            &&& close <==> old(worker)@.client is Some
            &&& final(worker)@.client is None
            &&& step == (RecoveryStep::Open { notify_invalidated: !old(worker)@.recovery_notified })
            &&& final(worker)@.retry_delay == 50_000_000
            &&& final(tried)@.recovery_notified
        },
        final(worker)@.state == old(worker)@.state,
{
}

/// An attempt that fails puts the next one off by the delay, and doubles the delay
/// up to a second.
pub proof fn law_failed_attempts_double_the_delay(
    worker: &mut Worker,
    now: u64,
    step: RecoveryStep,
    early: u64,
    waiting: &mut Worker,
    wait: RecoveryStep,
)
    requires
        old(worker).wf(),
        now + old(worker)@.retry_delay <= u64::MAX,
        call_ensures(
            Worker::recovery_opened,
            (worker, None::<(WasapiClient, AudioFormat)>, now),
            step,
        ),
        *old(waiting) == *final(worker),
        early < now + old(worker)@.retry_delay,
        call_ensures(Worker::try_recover, (waiting, early), wait),
    ensures
        step == RecoveryStep::Retry,
        final(worker)@.retry_at == now + old(worker)@.retry_delay,
        final(worker)@.retry_delay == (if 2 * old(worker)@.retry_delay < 1_000_000_000 {
            2 * old(worker)@.retry_delay
        } else {
            1_000_000_000
        }),
        wait == RecoveryStep::Wait,
        final(worker)@.state == old(worker)@.state,
{
}

/// Delays double from 50 ms until they reach a second.
pub proof fn law_backoff_doubles(attempts: nat)
    ensures
        attempts == 0 ==> backoff(attempts) == 50_000_000,
        attempts > 0 && backoff((attempts - 1) as nat) * 2 < 1_000_000_000 ==> backoff(attempts)
            == backoff((attempts - 1) as nat) * 2,
        attempts > 0 && backoff((attempts - 1) as nat) * 2 >= 1_000_000_000 ==> backoff(attempts)
            == 1_000_000_000,
{
}

/// A recovery that opens a client starts it where the device plays, and is over
/// without that where it is paused. One whose client does not start is tried again.
pub proof fn law_recoveries_start_what_plays(
    worker: &mut Worker,
    client: WasapiClient,
    format: AudioFormat,
    now: u64,
    step: RecoveryStep,
    started: &mut Worker,
    success: bool,
    outcome: RecoveryStep,
)
    requires
        old(worker).wf(),
        client.channels == format.channels,
        client.buffer_frames * client.channels <= usize::MAX,
        call_ensures(Worker::recovery_opened, (worker, Some((client, format)), now), step),
        *old(started) == *final(worker),
        call_ensures(Worker::recovery_started, (started, success, now), outcome),
    ensures
        final(worker)@.client == Some(client),
        final(worker)@.format == format,
        old(worker)@.state == PlaybackState::Running <==> step == RecoveryStep::Start,
        old(worker)@.state != PlaybackState::Running ==> step == (RecoveryStep::Recovered {
            notify_recovered: old(worker)@.notify_recovery,
        }) && !final(worker)@.recovery_pending,
        step == RecoveryStep::Start && success ==> outcome == (RecoveryStep::Recovered {
            notify_recovered: old(worker)@.notify_recovery,
        }) && final(started)@.client == Some(client) && !final(started)@.recovery_pending
            && !final(started)@.notify_recovery && final(started)@.retry_delay == 50_000_000,
        step == RecoveryStep::Start && !success ==> outcome == RecoveryStep::Retry
            && final(started)@.client is None && final(started)@.recovery_pending
            == old(worker)@.recovery_pending,
{
}

/// The worker waits for the buffer exactly while it plays, until it is woken while
/// it does not, and while it recovers until the next attempt: no longer than that,
/// and not a millisecond less, as far as the time can be given.
pub proof fn law_waits_end_in_time(worker: &mut Worker, now: u64, step: WaitStep)
    requires
        old(worker).wf(),
        call_ensures(Worker::next_wait, (worker, now), step),
    ensures
        step == WaitStep::Buffer <==> !old(worker)@.recovery_pending && old(worker)@.state
            == PlaybackState::Running && old(worker)@.client is Some,
        step is Wake && step->timeout is None <==> !old(worker)@.recovery_pending
            && old(worker)@.state != PlaybackState::Running,
        step is Wake && step->timeout is Some <==> old(worker)@.recovery_pending,
        old(worker)@.recovery_pending && old(worker)@.retry_at <= now ==> step->timeout == Some(0u32),
        old(worker)@.recovery_pending && old(worker)@.retry_at > now ==> now + step->timeout->0
            * 1_000_000 <= old(worker)@.retry_at && (step->timeout->0 == u32::MAX
            || old(worker)@.retry_at < now + (step->timeout->0 + 1) * 1_000_000),
        step == WaitStep::Nothing ==> final(worker)@.recovery_pending && final(worker)@.retry_at
            == now,
        step != WaitStep::Nothing ==> final(worker)@ == old(worker)@,
{
}

/// A wait that fails, or a fill that does, loses the endpoint; nothing else does.
pub proof fn law_failed_waits_lose_the_endpoint(
    worker: &mut Worker,
    outcome: WaitOutcome,
    filled: bool,
    now: u64,
    close: bool,
)
    requires
        old(worker).wf(),
        old(worker)@.state != PlaybackState::Stopped,
        call_ensures(Worker::waited, (worker, outcome, filled, now), close),
    ensures
        outcome == WaitOutcome::Failed || (outcome == WaitOutcome::BufferReady && !filled)
            ==> final(worker)@.client is None && final(worker)@.recovery_pending
            && final(worker)@.retry_at == now && (close <==> old(worker)@.client is Some),
        outcome == WaitOutcome::Woken || outcome == WaitOutcome::TimedOut || (outcome
            == WaitOutcome::BufferReady && filled) ==> final(worker)@ == old(worker)@ && !close,
{
}

/// A client that does not start for a command is given up, and recovered.
pub proof fn law_clients_that_do_not_start_are_given_up(
    worker: &mut Worker,
    success: bool,
    now: u64,
    close: bool,
)
    requires
        old(worker).wf(),
        old(worker)@.state != PlaybackState::Stopped,
        call_ensures(Worker::start_replied, (worker, success, now), close),
    ensures
        success ==> final(worker)@ == old(worker)@ && !close,
        !success ==> final(worker)@.client is None && final(worker)@.recovery_pending && (close
            <==> old(worker)@.client is Some),
{
}

/// The worker is brought up in order: the apartment, the enumerator, the callback,
/// and then the client. The first failure ends it.
pub proof fn law_startup_goes_in_order(
    call: StartupCall,
    failure: Option<&str>,
    next: StartupNext,
)
    requires
        call != StartupCall::OpenClient,
        call_ensures(after_startup_call, (call, failure), next),
    ensures
        failure is Some <==> next is Failed,
        failure is None && call == StartupCall::InitializeCom ==> next->Call_0
            == StartupCall::CreateEnumerator,
        failure is None && call == StartupCall::CreateEnumerator ==> next->Call_0
            == StartupCall::RegisterCallback,
        failure is None && call == StartupCall::RegisterCallback ==> next->Call_0
            == StartupCall::OpenClient,
{
}

/// Notifications that may concern the output ask for a recovery, and are asked for
/// once however many there are; others change nothing.
pub proof fn law_notifications_ask_once(
    signal: &mut DeviceChangeSignal,
    notification: Notification,
    wake: bool,
    taken: &mut DeviceChangeSignal,
    requested: bool,
    again: &mut DeviceChangeSignal,
    repeated: bool,
)
    requires
        call_ensures(DeviceChangeSignal::notify, (signal, notification), wake),
        *old(taken) == *final(signal),
        call_ensures(DeviceChangeSignal::take, (taken,), requested),
        *old(again) == *final(taken),
        call_ensures(DeviceChangeSignal::take, (again,), repeated),
    ensures
        wake <==> notification != Notification::PropertyValueChanged && (
        notification is DefaultDeviceChanged ==> notification->render && notification->console),
        requested <==> wake || old(signal).requested,
        !repeated,
{
}

/// The error of a native operation names the operation and says what it failed
/// with.
pub proof fn law_errors_name_the_operation(operation: &str, error: &str, failure: AudioError)
    requires
        call_ensures(wasapi_error, (operation, error), failure),
    ensures
        failure@ is Backend,
        ({
            let text = failure@->Backend_0;
            &&& text.len() == 9 + operation@.len() + error@.len()
            &&& text.subrange(7, 7 + operation@.len() as int) == operation@
            &&& text.skip(9 + operation@.len() as int) == error@
        }),
{
    reveal_strlit("WASAPI ");
    reveal_strlit(": ");
    let text = failure@->Backend_0;
    assert(text.subrange(7, 7 + operation@.len() as int) =~= operation@);
    assert(text.skip(9 + operation@.len() as int) =~= error@);
}

/// What the worker reports is what the caller hears, and where it cannot report, the
/// caller hears an error of the backend.
pub proof fn law_replies_are_handed_on(
    sent: bool,
    wake_failure: Option<&str>,
    reply: Option<Result<(), AudioError>>,
    result: Result<(), AudioError>,
    started: Result<(), AudioError>,
)
    requires
        call_ensures(request_result, (sent, wake_failure, reply), result),
        call_ensures(startup_result, (reply,), started),
    ensures
        result is Ok <==> sent && wake_failure is None && reply is Some && reply->0 is Ok,
        sent && wake_failure is None && reply is Some && reply->0 is Err ==> result->Err_0@
            == reply->0->Err_0@,
        !sent || wake_failure is Some || reply is None ==> result is Err && result->Err_0@
            is Backend,
        started is Ok <==> reply is Some && reply->0 is Ok,
        reply is Some && reply->0 is Err ==> started->Err_0@ == reply->0->Err_0@,
        reply is None ==> started->Err_0@ is Backend,
{
}

} // verus!
