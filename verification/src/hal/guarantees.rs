//! What the pieces of the backends give, in terms of what they are given.

use std::sync::Arc;

use vstd::arithmetic::div_mod::{
    lemma_fundamental_div_mod, lemma_mod_bound, lemma_mod_multiples_basic,
};
use vstd::prelude::*;

use super::callback::{buffer_samples, render, render_samples, settle_output};
use super::manager::AudioManager;
use super::platform::dummy::{next_pull, DummyDevice, NextPull, PullPlan};
use super::platform::oboe::OboeDevice;
use super::platform::ohos::{after_open_call, OhosDevice, OpenCall, OpenStep};
use crate::error::{AudioError, ErrorView};
use crate::types::AudioFormat;

verus! {

/// A buffer keeps exactly the whole frames that the manager reported, as far as it
/// has them, and everything else of it is silenced.
pub proof fn law_reported_frames_are_kept<T: Copy + Default>(
    output: &mut [T],
    channels: usize,
    pulled: Option<usize>,
    index: int,
)
    requires
        channels > 0,
        call_ensures(settle_output::<T>, (output, channels, pulled), ()),
        0 <= index < old(output)@.len(),
    ensures
        final(output)@.len() == old(output)@.len(),
        pulled is Some && index / (channels as int) < pulled->0 && (index / (channels as int) + 1)
            * channels <= old(output)@.len() ==> final(output)@[index] == old(output)@[index],
        pulled is None || index / (channels as int) >= pulled->0 || (index / (channels as int) + 1)
            * channels > old(output)@.len() ==> call_ensures(
            T::default,
            (),
            final(output)@[index],
        ),
{
    let len = old(output)@.len() as int;
    let width = channels as int;
    let frame = index / width;
    let whole = len / width;
    lemma_fundamental_div_mod(len, width);
    lemma_mod_bound(len, width);
    lemma_fundamental_div_mod(index, width);
    lemma_mod_bound(index, width);
    assert(((frame + 1) * width <= len <==> frame < whole) && frame * width <= index < (frame + 1)
        * width && frame >= 0) by (nonlinear_arith)
        requires
            width > 0,
            0 <= index < len,
            frame == index / width,
            index == width * frame + index % width,
            0 <= index % width < width,
            len == width * whole + len % width,
            0 <= len % width < width,
    ;
    if pulled is Some {
        let frames = if pulled->0 < whole {
            pulled->0 as int
        } else {
            whole
        };
        assert(index < frames * width <==> frame < frames) by (nonlinear_arith)
            requires
                width > 0,
                frame * width <= index < (frame + 1) * width,
        ;
    }
}

/// A render pulls into the buffer once, and settles it for the frames that the
/// manager reported.
pub proof fn law_renders_settle_what_was_pulled<T: Copy + Default, M: AudioManager<T>>(
    manager: M,
    output: &mut [T],
    channels: usize,
    frames: usize,
)
    requires
        channels > 0,
        call_ensures(render::<T, M>, (&manager, output, channels), frames),
    ensures
        final(output)@.len() == old(output)@.len(),
        exists|filled: Seq<T>|
            #[trigger] manager.pulls(old(output)@, filled, frames) && forall|i: int|
                0 <= i < final(output)@.len() && i < frames * channels && i < (
                old(output)@.len() as int / channels as int) * channels
                    ==> #[trigger] final(output)@[i] == filled[i],
        forall|i: int|
            frames * channels <= i < final(output)@.len() ==> call_ensures(
                T::default,
                (),
                #[trigger] final(output)@[i],
            ),
{
    let len = old(output)@.len() as int;
    let width = channels as int;
    let whole = len / width;
    let filled = choose|filled: Seq<T>| #[trigger]
        manager.pulls(old(output)@, filled, frames) && super::callback::silenced_behind(
            filled,
            super::callback::kept_samples(len, width, Some(frames)),
            final(output)@,
        );
    assert(whole <= frames ==> whole * width <= frames * width) by (nonlinear_arith)
        requires
            width > 0,
    ;
    assert(frames <= whole ==> frames * width <= whole * width) by (nonlinear_arith)
        requires
            width > 0,
    ;
    let kept = super::callback::kept_samples(len, width, Some(frames));
    assert(kept <= frames * width);
    assert(manager.pulls(old(output)@, filled, frames));
}

/// What is rendered into a native buffer is as many whole frames as fit and were
/// asked for: never more than either, and not one frame less.
pub proof fn law_renders_fill_whole_frames(
    frame_count: u32,
    channels: u32,
    bytes: u32,
    samples: Option<usize>,
)
    requires
        call_ensures(render_samples, (frame_count, channels, bytes), samples),
        channels > 0,
        frame_count * channels <= usize::MAX,
    ensures
        samples is None ==> frame_count == 0 || channels * 4 > bytes,
        samples is Some ==> exists|frames: int|
            {
                &&& #[trigger] (frames * channels) == samples->0
                &&& 0 < frames <= frame_count
                &&& frames * channels * 4 <= bytes
                &&& frames == frame_count || (frames + 1) * channels * 4 > bytes
            },
{
    let available = bytes as int / 4;
    let width = channels as int;
    let asked = frame_count * width;
    let wanted = if asked < available {
        asked
    } else {
        available
    };
    let frames = wanted / width;
    lemma_fundamental_div_mod(wanted, width);
    lemma_mod_bound(wanted, width);
    lemma_mod_multiples_basic(frame_count as int, width);
    assert(0 <= frames && frames * width <= wanted < (frames + 1) * width) by (nonlinear_arith)
        requires
            width > 0,
            wanted >= 0,
            wanted == width * frames + wanted % width,
            0 <= wanted % width < width,
            frames == wanted / width,
    ;
    assert(frames <= frame_count) by (nonlinear_arith)
        requires
            frames * width <= wanted,
            wanted <= frame_count * width,
            width > 0,
    ;
    if wanted == asked {
        assert(frames == frame_count) by (nonlinear_arith)
            requires
                frame_count * width < (frames + 1) * width,
                frames <= frame_count,
                width > 0,
        ;
    }
    assert((frames + 1) * width * 4 == (frames * width + width) * 4) by (nonlinear_arith);
    if samples is Some {
        assert(frames * channels == samples->0);
        assert(frames > 0) by (nonlinear_arith)
            requires
                frames * width > 0,
                width > 0,
        ;
    } else {
        assert(frames == 0) by (nonlinear_arith)
            requires
                frames * width <= 0,
                width > 0,
                frames >= 0,
        ;
    }
}

/// A native buffer of a size in bytes has a sample for every four of them, and is
/// used where it has a whole frame.
pub proof fn law_buffers_have_four_bytes_a_sample(
    buffer_len: i32,
    channels: usize,
    samples: Option<usize>,
)
    requires
        channels > 0,
        call_ensures(buffer_samples, (buffer_len, channels), samples),
    ensures
        samples is Some <==> buffer_len >= 4 * channels,
        samples is Some ==> 4 * samples->0 <= buffer_len < 4 * samples->0 + 4,
{
}

/// A dummy device pulls as many samples per tick as a hundredth of a second has at
/// its rate, in whole frames, from the manager that it was made with.
pub proof fn law_dummy_ticks_are_hundredths<M>(
    manager: M,
    device: DummyDevice<M>,
    format: AudioFormat,
    plan: Option<PullPlan<M>>,
)
    requires
        call_ensures(DummyDevice::<M>::new, (manager,), device),
        call_ensures(DummyDevice::<M>::format, (&device,), format),
        call_ensures(DummyDevice::<M>::start, (&device,), plan),
    ensures
        format == (AudioFormat { sample_rate: 48_000, channels: 2 }),
        plan is Some,
        *plan->0.manager == manager,
        100 * plan->0.samples_per_tick == format.sample_rate * format.channels,
{
    assert(super::platform::dummy::samples_per_interval(format) == 960) by (nonlinear_arith)
        requires
            format.sample_rate == 48_000,
            format.channels == 2,
    ;
}

/// A dummy device that was started does not start again before it was stopped, and
/// one that was stopped, or whose thread could not be spawned, does.
pub proof fn law_dummy_runs_once<M>(
    device: &mut DummyDevice<M>,
    failure: Option<&str>,
    result: Result<(), AudioError>,
    running: Option<PullPlan<M>>,
    stopped: &mut DummyDevice<M>,
    again: Option<PullPlan<M>>,
)
    requires
        old(device).wf(),
        !old(device).running(),
        call_ensures(DummyDevice::<M>::started, (device, failure), result),
        call_ensures(DummyDevice::<M>::start, (&*final(device),), running),
        *old(stopped) == *final(device),
        call_ensures(DummyDevice::<M>::stop, (stopped,), ()),
        call_ensures(DummyDevice::<M>::start, (&*final(stopped),), again),
    ensures
        result is Ok <==> failure is None,
        running is None <==> failure is None,
        again is Some,
        *again->0.manager == old(device).manager(),
{
}

/// Ticks come an interval of ten milliseconds apart as long as the thread keeps up,
/// and the thread sleeps until the next one; one that fell behind goes on at once.
pub proof fn law_ticks_are_an_interval_apart(tick: u64, now: u64, next: NextPull)
    requires
        tick + 10_000_000 <= u64::MAX,
        now + 10_000_000 <= u64::MAX,
        call_ensures(next_pull, (tick, now), next),
    ensures
        now < tick + 10_000_000 ==> next.tick == tick + 10_000_000 && now + next.sleep
            == next.tick,
        now >= tick + 10_000_000 ==> next.tick == now + 10_000_000 && next.sleep == 0,
{
}

/// A renderer's format is the one that it reports, where it reports one that makes
/// sense, and stereo at 48 kHz where it reports none.
pub proof fn law_ohos_format_is_reported(
    sample_rate: Option<i32>,
    channels: Option<i32>,
    device: OhosDevice,
    format: AudioFormat,
    width: usize,
)
    requires
        call_ensures(OhosDevice::new, (sample_rate, channels), device),
        call_ensures(OhosDevice::format, (&device,), format),
        call_ensures(OhosDevice::callback_channels, (&device,), width),
    ensures
        sample_rate is Some && sample_rate->0 > 0 ==> format.sample_rate == sample_rate->0,
        sample_rate is Some && sample_rate->0 <= 0 ==> format.sample_rate == 1,
        sample_rate is None ==> format.sample_rate == 48_000,
        channels is Some && 0 < channels->0 <= u16::MAX ==> format.channels == channels->0
            && width == channels->0,
        channels is Some && channels->0 <= 0 ==> format.channels == 1 && width == 2,
        channels is Some && channels->0 > 0 ==> width == channels->0,
        channels is None ==> format.channels == 2 && width == 2,
{
}

/// An OHOS device reaches its manager exactly from a successful start to the next
/// stop, pauses and resumes natively in between, and is not used after a stop.
pub proof fn law_ohos_plays_between_start_and_stop(
    device: &mut OhosDevice,
    asked: Result<bool, AudioError>,
    settled: &mut OhosDevice,
    status: i32,
    result: Result<(), AudioError>,
    connected: bool,
    pauses: bool,
    resumes: bool,
    stopped: &mut OhosDevice,
    release: bool,
    heard: bool,
    again: &mut OhosDevice,
    refused: Result<bool, AudioError>,
)
    requires
        old(device).control().opened,
        !old(device).control().running,
        call_ensures(OhosDevice::start, (device,), asked),
        *old(settled) == *final(device),
        call_ensures(OhosDevice::started, (settled, status), result),
        call_ensures(OhosDevice::is_connected, (&*final(settled),), connected),
        call_ensures(OhosDevice::pause, (&*final(settled),), pauses),
        call_ensures(OhosDevice::resume, (&*final(settled),), resumes),
        *old(stopped) == *final(settled),
        call_ensures(OhosDevice::stop, (stopped,), release),
        call_ensures(OhosDevice::is_connected, (&*final(stopped),), heard),
        *old(again) == *final(stopped),
        call_ensures(OhosDevice::start, (again,), refused),
    ensures
        asked is Ok && asked->Ok_0,
        result is Ok <==> status == 0,
        connected <==> status == 0,
        pauses <==> status == 0,
        resumes <==> status == 0,
        release <==> status == 0,
        !heard,
        refused is Err && refused->Err_0@ == ErrorView::DeviceNotFound,
{
}

/// An Oboe device has the rate that it got, in stereo. It reaches its manager
/// exactly from a successful start to the next stop, pauses and resumes natively in
/// between, and can be started again.
pub proof fn law_oboe_plays_between_start_and_stop(
    rate: i32,
    opened: Result<OboeDevice, AudioError>,
    format: AudioFormat,
    device: &mut OboeDevice,
    asked: Result<bool, AudioError>,
    settled: &mut OboeDevice,
    failure: Option<&str>,
    result: Result<(), AudioError>,
    connected: bool,
    pauses: bool,
    resumes: bool,
    stopped: &mut OboeDevice,
    close: bool,
    heard: bool,
    again: &mut OboeDevice,
    restarted: Result<bool, AudioError>,
)
    requires
        rate > 0,
        call_ensures(OboeDevice::new, (Ok::<i32, &str>(rate),), opened),
        opened is Ok ==> *old(device) == opened->Ok_0,
        call_ensures(OboeDevice::format, (&*old(device),), format),
        call_ensures(OboeDevice::start, (device,), asked),
        *old(settled) == *final(device),
        call_ensures(OboeDevice::started, (settled, failure), result),
        call_ensures(OboeDevice::is_connected, (&*final(settled),), connected),
        call_ensures(OboeDevice::pause, (&*final(settled),), pauses),
        call_ensures(OboeDevice::resume, (&*final(settled),), resumes),
        *old(stopped) == *final(settled),
        call_ensures(OboeDevice::stop, (stopped,), close),
        call_ensures(OboeDevice::is_connected, (&*final(stopped),), heard),
        *old(again) == *final(stopped),
        call_ensures(OboeDevice::start, (again,), restarted),
    ensures
        opened is Ok,
        format == (AudioFormat { sample_rate: rate as u32, channels: 2 }),
        asked is Ok && asked->Ok_0,
        result is Ok <==> failure is None,
        connected <==> failure is None,
        pauses <==> failure is None,
        resumes <==> failure is None,
        close <==> failure is None,
        !heard,
        restarted is Ok && restarted->Ok_0,
{
}

/// The place of a call on the way to an OHOS renderer.
pub open spec fn place(call: OpenCall) -> int {
    match call {
        OpenCall::CreateBuilder => 0,
        OpenCall::SetRendererInfo => 1,
        OpenCall::SetLatencyMode => 2,
        OpenCall::SetSamplingRate => 3,
        OpenCall::SetChannelCount => 4,
        OpenCall::SetSampleFormat => 5,
        OpenCall::SetEncodingType => 6,
        OpenCall::SetWriteDataCallback => 7,
        OpenCall::GenerateRenderer => 8,
    }
}

/// A renderer is opened one call after another. A failure ends opening and frees
/// the callback's data, and the builder goes with the first failure behind its
/// creation or with the renderer.
pub proof fn law_renderers_open_step_by_step(
    call: OpenCall,
    status: i32,
    handle: bool,
    step: OpenStep,
)
    requires
        call_ensures(after_open_call, (call, status, handle), step),
    ensures
        ({
            let failed = status != 0 || ((place(call) == 0 || place(call) == 8) && !handle);
            &&& step.next is Failed <==> failed
            &&& step.drop_callback <==> failed
            &&& step.destroy_builder <==> place(call) == 8 || (failed && place(call) > 0)
            &&& step.next is Opened <==> !failed && place(call) == 8
            &&& step.next is Call ==> place(step.next->Call_0) == place(call) + 1
            &&& failed && place(call) == 0 ==> step.next->Failed_0@ == ErrorView::DeviceNotFound
            &&& failed && place(call) == 8 ==> step.next->Failed_0@ == ErrorView::DeviceBusy
            &&& failed && 0 < place(call) < 8 ==> step.next->Failed_0@ is Backend
        }),
{
}

/// A shared manager is the manager that is shared.
pub proof fn law_shared_managers_are_their_managers<T, M: AudioManager<T>>(
    manager: Arc<M>,
    before: Seq<T>,
    after: Seq<T>,
    frames: usize,
    format: AudioFormat,
)
    ensures
        manager.pulls(before, after, frames) <==> (*manager).pulls(before, after, frames),
        call_ensures(<Arc<M> as AudioManager<T>>::on_device_invalidated, (&manager,), ())
            ==> call_ensures(M::on_device_invalidated, (&*manager,), ()),
        call_ensures(
            <Arc<M> as AudioManager<T>>::on_device_format_changed,
            (&manager, format),
            (),
        ) ==> call_ensures(M::on_device_format_changed, (&*manager, format), ()),
        call_ensures(<Arc<M> as AudioManager<T>>::on_device_recovered, (&manager,), ())
            ==> call_ensures(M::on_device_recovered, (&*manager,), ()),
{
}

} // verus!
