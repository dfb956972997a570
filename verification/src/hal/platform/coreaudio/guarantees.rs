//! What the pieces of the CoreAudio backend give, in terms of what they are given.

use vstd::prelude::*;

use super::open::{
    after_open_call, hardware_format, pcm_format, OpenCall, OpenStep, PcmFormat, Platform,
};
use super::session::{
    after_session_call, SessionCall, SessionGuard, SessionNext, SessionRestore,
};
use super::signal::{RebuildSignal, WorkerAction};
use super::state::{CoreAudioState, Rebuild, RebuildBegin, RebuildCall, RebuildNext};
use super::unit::{Teardown, UnitCall, UnitStep};
use crate::error::{AudioError, ErrorView};
use crate::types::AudioFormat;

verus! {

/// The place of a call on the way to a unit.
pub open spec fn place(call: OpenCall) -> int {
    match call {
        OpenCall::FindComponent => 0,
        OpenCall::NewInstance => 1,
        OpenCall::EnableOutput => 2,
        OpenCall::DisableInput => 3,
        OpenCall::QueryFormat => 4,
        OpenCall::SetStreamFormat => 5,
        OpenCall::AddListener => 6,
    }
}

/// A unit is opened one call after another; only iOS has buses to set up. From its
/// creation on, an instance is disposed of where a call fails, and a failure ends
/// opening. A format that cannot be queried is none.
pub proof fn law_units_open_step_by_step(
    platform: Platform,
    call: OpenCall,
    status: i32,
    handle: bool,
    step: OpenStep,
)
    requires
        call_ensures(after_open_call, (platform, call, status, handle), step),
    ensures
        ({
            let failed = match call {
                OpenCall::FindComponent => !handle,
                OpenCall::NewInstance => status != 0 || !handle,
                OpenCall::QueryFormat => false,
                _ => status != 0,
            };
            &&& step.next is Failed <==> failed
            &&& step.dispose <==> failed && place(call) >= 2
            &&& step.next is Opened <==> !failed && place(call) == 6
            &&& step.next is Call ==> place(step.next->Call_0) == (if platform == Platform::MacOs
                && call == OpenCall::NewInstance {
                4
            } else {
                place(call) + 1
            })
            &&& failed && call == OpenCall::FindComponent ==> step.next->Failed_0@
                == ErrorView::DeviceNotFound
            &&& failed && call == OpenCall::NewInstance ==> step.next->Failed_0@
                == ErrorView::DeviceBusy
            &&& failed && call == OpenCall::SetStreamFormat ==> step.next->Failed_0@
                == ErrorView::FormatNotSupported
        }),
{
}

/// The hardware format is the one that is reported, where a rate and a number of
/// channels are, and stereo at 48 kHz otherwise.
pub proof fn law_hardware_format_is_reported(
    status: i32,
    sample_rate: Option<u32>,
    channels: u32,
    format: AudioFormat,
    description: PcmFormat,
)
    requires
        call_ensures(hardware_format, (status, sample_rate, channels), format),
        call_ensures(pcm_format, (format,), description),
    ensures
        status == 0 && sample_rate is Some && 0 < channels <= 65535 ==> format.sample_rate
            == sample_rate->0 && format.channels == channels,
        status != 0 || sample_rate is None || channels == 0 || channels > 65535
            ==> format.sample_rate == 48_000 && format.channels == 2,
        description.sample_rate == format.sample_rate,
        description.channels_per_frame == format.channels,
        description.bits_per_channel == 32,
        description.bytes_per_frame == 4 * format.channels,
        description.frames_per_packet == 1,
        description.bytes_per_packet == description.bytes_per_frame,
{
}

/// A start that nothing stops goes through its three calls in order, and the device
/// runs afterwards and only then.
pub proof fn law_starts_go_through_three_calls(
    state: &mut CoreAudioState,
    call: UnitCall,
    status: i32,
    step: UnitStep,
)
    requires
        old(state).wf(),
        old(state)@.unit is Some,
        !old(state)@.running,
        call_ensures(CoreAudioState::after_start_call, (state, call, status), step),
    ensures
        step.next is Failed <==> status != 0,
        status == 0 && call == UnitCall::Initialize ==> step.next is Call && step.next->Call_0
            == UnitCall::SetRenderCallback,
        status == 0 && call == UnitCall::SetRenderCallback ==> step.next is Call
            && step.next->Call_0 == UnitCall::Start,
        step.next is Started <==> status == 0 && call == UnitCall::Start,
        final(state)@.running <==> step.next is Started,
        !final(state)@.paused,
        final(state)@.unit is Some,
        status == 0 && call == UnitCall::Initialize ==> final(state)@.unit->0.initialized,
        status == 0 && call == UnitCall::SetRenderCallback ==> final(state)@.unit->0.callback,
        status == 0 && call == UnitCall::Start ==> final(state)@.unit->0.started,
        status == 0 && call != UnitCall::Start ==> !final(state)@.unit->0.started,
        status != 0 ==> !final(state)@.unit->0.started,
        status != 0 && call != UnitCall::Initialize ==> !final(state)@.unit->0.initialized && (
        step.teardown.uninitialize <==> old(state)@.unit->0.initialized),
        status == 0 ==> !step.teardown.stop && !step.teardown.uninitialize,
        final(state)@.format == old(state)@.format,
{
}

/// A device that was asked to start does so from the beginning, unless it runs or
/// has no unit.
pub proof fn law_starts_begin_with_the_unit(
    state: CoreAudioState,
    result: Result<Option<UnitCall>, AudioError>,
)
    requires
        state.wf(),
        call_ensures(CoreAudioState::start, (&state,), result),
    ensures
        state@.unit is None <==> result is Err,
        result is Err ==> result->Err_0@ == ErrorView::DeviceNotFound,
        result is Ok ==> (result->Ok_0 is None <==> state@.running),
        result is Ok && result->Ok_0 is Some ==> result->Ok_0->0 == UnitCall::Initialize,
{
}

/// A stop brings down what is up and leaves nothing running.
pub proof fn law_stops_bring_everything_down(state: &mut CoreAudioState, teardown: Teardown)
    requires
        old(state).wf(),
        call_ensures(CoreAudioState::stop, (state,), teardown),
    ensures
        !final(state)@.running && !final(state)@.paused,
        final(state)@.unit is Some <==> old(state)@.unit is Some,
        old(state)@.unit is Some ==> {
            &&& teardown.stop <==> old(state)@.running && !old(state)@.paused
            &&& teardown.uninitialize <==> old(state)@.unit->0.initialized
            &&& !final(state)@.unit->0.initialized && !final(state)@.unit->0.started
        },
        final(state)@.format == old(state)@.format,
        final(state)@.rebuilding == old(state)@.rebuilding,
{
}

/// Pausing a device that runs stops its unit, and resuming starts it again; the
/// device is then as it was. A call that fails changes nothing.
pub proof fn law_pauses_are_undone(
    state: &mut CoreAudioState,
    native: bool,
    paused: &mut CoreAudioState,
    stop: i32,
    stopped: Result<(), AudioError>,
    resume: &mut CoreAudioState,
    asked: bool,
    resumed: &mut CoreAudioState,
    start: i32,
    started: Result<(), AudioError>,
)
    requires
        old(state).wf(),
        old(state)@.running && !old(state)@.paused,
        old(state)@.unit is Some,
        call_ensures(CoreAudioState::pause, (state,), native),
        *old(paused) == *final(state),
        call_ensures(CoreAudioState::paused, (paused, stop), stopped),
        *old(resume) == *final(paused),
        call_ensures(CoreAudioState::resume, (resume,), asked),
        *old(resumed) == *final(resume),
        call_ensures(CoreAudioState::resumed, (resumed, start), started),
    ensures
        native,
        stopped is Ok <==> stop == 0,
        stop == 0 ==> final(paused)@.paused && final(paused)@.running
            && !final(paused)@.unit->0.started,
        stop != 0 ==> final(paused)@ == old(state)@,
        asked <==> stop == 0,
        stop == 0 ==> (started is Ok <==> start == 0),
        stop == 0 && start == 0 ==> final(resumed)@ == old(state)@,
        stop == 0 && start != 0 ==> final(resumed)@ == final(paused)@,
{
}

/// A rebuild begins by giving up the old unit, tells of the loss once, and restores
/// what the device was doing, however often it is begun.
pub proof fn law_rebuilds_remember(
    state: &mut CoreAudioState,
    first: RebuildBegin,
    retried: &mut CoreAudioState,
    second: RebuildBegin,
)
    requires
        old(state).wf(),
        !old(state)@.rebuilding,
        call_ensures(CoreAudioState::begin_rebuild, (state,), first),
        *old(retried) == *final(state),
        call_ensures(CoreAudioState::begin_rebuild, (retried,), second),
    ensures
        first.notify_invalidated,
        first.closed == old(state)@.unit,
        first.rebuild.was_running == old(state)@.running,
        first.rebuild.was_paused == old(state)@.paused,
        final(state)@.unit is None && final(state)@.rebuilding,
        !second.notify_invalidated,
        second.closed is None,
        second.rebuild.was_running == old(state)@.running,
        second.rebuild.was_paused == old(state)@.paused,
        !first.rebuild.unit.started && !first.rebuild.unit.initialized,
{
}

/// A replacement that was opened is started where the device was running, and the
/// rebuild is over at once where it was not; one that was not opened is tried again.
pub proof fn law_replacements_are_started(
    state: &mut CoreAudioState,
    rebuild: &mut Rebuild,
    opened: Option<AudioFormat>,
    next: RebuildNext,
)
    requires
        call_ensures(CoreAudioState::endpoint_opened, (state, rebuild, opened), next),
    ensures
        opened is None <==> next is Retry,
        opened is None ==> final(state)@ == old(state)@ && *final(rebuild) == *old(rebuild),
        opened is Some ==> final(rebuild).format == opened->0,
        opened is Some && old(rebuild).was_running ==> next == RebuildNext::Call(
            RebuildCall::Start(UnitCall::Initialize),
        ) && final(state)@ == old(state)@,
        opened is Some && !old(rebuild).was_running ==> next == RebuildNext::Recovered
            && final(state)@.format == opened->0 && !final(state)@.running
            && !final(state)@.rebuilding && final(state)@.unit == Some(old(rebuild).unit),
        final(rebuild).was_running == old(rebuild).was_running,
        final(rebuild).was_paused == old(rebuild).was_paused,
{
}

/// The last call on a replacement ends the rebuild: a start where the device was not
/// paused, and a pause behind it where it was. The device is then as before the
/// loss, with the new format. A call that fails is tried again from the beginning,
/// with the device as it was.
pub proof fn law_rebuilds_end_as_they_began(
    state: &mut CoreAudioState,
    rebuild: &mut Rebuild,
    call: RebuildCall,
    status: i32,
    next: RebuildNext,
)
    requires
        old(rebuild).was_running,
        call_ensures(CoreAudioState::after_rebuild_call, (state, rebuild, call, status), next),
    ensures
        status != 0 <==> next is Retry,
        next is Retry ==> final(state)@ == old(state)@,
        next is Call ==> final(state)@ == old(state)@,
        status == 0 && call == RebuildCall::Start(UnitCall::Initialize) ==> next
            == RebuildNext::Call(RebuildCall::Start(UnitCall::SetRenderCallback)),
        status == 0 && call == RebuildCall::Start(UnitCall::SetRenderCallback) ==> next
            == RebuildNext::Call(RebuildCall::Start(UnitCall::Start)),
        status == 0 && call == RebuildCall::Start(UnitCall::Start) && old(rebuild).was_paused
            ==> next == RebuildNext::Call(RebuildCall::Pause),
        next == RebuildNext::Recovered <==> status == 0 && (call == RebuildCall::Pause || (call
            == RebuildCall::Start(UnitCall::Start) && !old(rebuild).was_paused)),
        next == RebuildNext::Recovered ==> {
            &&& final(state)@.running
            &&& final(state)@.paused == old(rebuild).was_paused
            &&& final(state)@.format == old(rebuild).format
            &&& !final(state)@.rebuilding
            &&& final(state)@.unit == Some(final(rebuild).unit)
            &&& final(rebuild).unit.started == !old(rebuild).was_paused || call
                == RebuildCall::Pause
            &&& call == RebuildCall::Pause ==> !final(rebuild).unit.started
        },
{
}

/// The recovery worker leaves where it is to, rebuilds where that was asked for or a
/// failed rebuild was slept over, and sleeps otherwise: a quarter of a second at most
/// behind a failure, and else until it is woken. A request is taken once.
pub proof fn law_requests_are_taken_once(
    signal: &mut RebuildSignal,
    retry: bool,
    slept: bool,
    action: WorkerAction,
)
    requires
        call_ensures(RebuildSignal::next_action, (signal, retry, slept), action),
    ensures
        action == WorkerAction::Exit <==> old(signal).shutdown,
        action == WorkerAction::Rebuild <==> !old(signal).shutdown && (old(signal).requested || (
        retry && slept)),
        action == WorkerAction::Sleep <==> !old(signal).shutdown && !old(signal).requested
            && !retry,
        action is SleepAtMost ==> action->SleepAtMost_0 == 250 && retry && !slept,
        action == WorkerAction::Rebuild ==> !final(signal).requested,
        action != WorkerAction::Rebuild ==> *final(signal) == *old(signal),
        final(signal).shutdown == old(signal).shutdown,
{
}

/// A session that is changed is prepared in two calls and put back as it was,
/// once; one that is not changed is left alone.
pub proof fn law_sessions_are_put_back<N>(
    category: N,
    mode: N,
    options: usize,
    changed: SessionGuard<N>,
    first: Option<SessionCall>,
    guard: &mut SessionGuard<N>,
    restore: Option<SessionRestore<N>>,
    again: &mut SessionGuard<N>,
    repeated: Option<SessionRestore<N>>,
    untouched: SessionGuard<N>,
    none: Option<SessionCall>,
)
    requires
        call_ensures(SessionGuard::<N>::changing, (category, mode, options), changed),
        call_ensures(SessionGuard::<N>::prepare, (&changed,), first),
        *old(guard) == changed,
        call_ensures(SessionGuard::<N>::restore, (guard,), restore),
        *old(again) == *final(guard),
        call_ensures(SessionGuard::<N>::restore, (again,), repeated),
        call_ensures(SessionGuard::<N>::untouched, (), untouched),
        call_ensures(SessionGuard::<N>::prepare, (&untouched,), none),
    ensures
        first == Some(SessionCall::SetCategory),
        restore is Some,
        restore->0.category == category && restore->0.mode == mode && restore->0.options
            == options,
        repeated is None,
        none is None,
{
}

/// The category comes before the activation, and a failure of either ends it.
pub proof fn law_sessions_are_prepared_in_order(
    call: SessionCall,
    success: bool,
    next: SessionNext,
)
    requires
        call_ensures(after_session_call, (call, success), next),
    ensures
        next is Failed <==> !success,
        success && call == SessionCall::SetCategory ==> next is Call && next->Call_0
            == SessionCall::SetActive,
        success && call == SessionCall::SetActive ==> next is Prepared,
{
}

} // verus!
