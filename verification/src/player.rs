//! High-level audio player that wires an output device and a mixer together.

use vstd::prelude::*;

use crate::error::AudioError;
use crate::hal::{AudioDevice, DeviceOperation};
use crate::mixer::entry::{added, law_cleanup_keeps_the_live, not_ended, snapshot_of};
use crate::mixer::{AudioStream, MixMath, Mixer, PlayHandle, StreamModifier};
use crate::types::AudioFormat;

verus! {

/// Milliseconds between two ticks of the cleanup timer.
pub const TICK_MS: u64 = 10;

/// Ticks between two cleanups: every 500 ms.
pub const TICKS_PER_CLEANUP: u32 = 50;

/// Sample rate of the mixer until the device's is known.
pub const INITIAL_SAMPLE_RATE: u32 = 48_000;

/// Channels of the mixer until the device's are known.
pub const INITIAL_CHANNELS: u16 = 2;

/// Decides on which ticks finished streams are removed.
#[derive(Clone, Copy, Debug, PartialEq, Eq, Structural)]
pub struct CleanupTimer {
    ticks: u32,
}

impl CleanupTimer {
    /// Ticks since the last cleanup.
    pub closed spec fn ticks(&self) -> int {
        self.ticks as int
    }

    pub closed spec fn wf(&self) -> bool {
        self.ticks < TICKS_PER_CLEANUP
    }

    pub fn new() -> (timer: Self)
        ensures
            timer.wf(),
            timer.ticks() == 0,
    {
        CleanupTimer { ticks: 0 }
    }

    /// Count a tick. Returns whether a cleanup is due.
    pub fn tick(&mut self) -> (due: bool)
        requires
            old(self).wf(),
        ensures
            final(self).wf(),
            due == (old(self).ticks() + 1 == TICKS_PER_CLEANUP),
            final(self).ticks() == (if due {
                0
            } else {
                old(self).ticks() + 1
            }),
    {
        self.ticks = self.ticks + 1;
        if self.ticks == TICKS_PER_CLEANUP {
            self.ticks = 0;
            true
        } else {
            false
        }
    }
}

/// Ticks since the last cleanup, `ticks` ticks after the timer was made.
pub open spec fn ticks_after(ticks: nat) -> int
    decreases ticks,
{
    if ticks == 0 {
        0
    } else {
        let before = ticks_after((ticks - 1) as nat);
        if before + 1 == TICKS_PER_CLEANUP {
            0
        } else {
            before + 1
        }
    }
}

/// A cleanup is due exactly on every fiftieth tick.
pub proof fn law_cleanup_is_periodic(ticks: nat)
    ensures
        ticks_after(ticks) == ticks as int % TICKS_PER_CLEANUP as int,
        ticks > 0 ==> (ticks_after((ticks - 1) as nat) + 1 == TICKS_PER_CLEANUP <==> ticks as int
            % TICKS_PER_CLEANUP as int == 0),
    decreases ticks,
{
    if ticks > 0 {
        law_cleanup_is_periodic((ticks - 1) as nat);
    }
}

/// A high-level audio player that combines an output device with a mixer.
///
/// Streams can be added at any time through [`add_stream`](Self::add_stream),
/// which returns a [`PlayHandle`] for per-stream control.
pub struct AudioPlayer<T, S, M, K, D> {
    mixer: Mixer<T, S, M, K>,
    device: D,
    timer: CleanupTimer,
}

impl<T, S, M, K, D> AudioPlayer<T, S, M, K, D> {
    pub closed spec fn spec_mixer(&self) -> Mixer<T, S, M, K> {
        self.mixer
    }

    pub closed spec fn device(&self) -> D {
        self.device
    }

    pub closed spec fn timer(&self) -> CleanupTimer {
        self.timer
    }

    pub closed spec fn wf(&self) -> bool {
        self.mixer.wf() && self.timer.wf()
    }
}

impl<
    T: Copy + Default,
    S: AudioStream<T>,
    M: StreamModifier<T>,
    K: MixMath<T>,
    D: AudioDevice,
> AudioPlayer<T, S, M, K, D> {
    /// Configure a mixer for a device that was opened, and start playback.
    ///
    /// Returns the error with which no device could be opened, or with which it
    /// could not be started.
    pub fn new(opened: Result<D, AudioError>) -> (result: Result<Self, AudioError>)
        ensures
            match opened {
                Err(error) => result is Err && result->Err_0 == error,
                Ok(device) => exists|format: AudioFormat, started: D, outcome: Result<(), AudioError>|
                    {
                        &&& #[trigger] started_with(device, format, started, outcome)
                        &&& match outcome {
                            Err(error) => result is Err && result->Err_0 == error,
                            Ok(()) => {
                                &&& result is Ok
                                &&& result->Ok_0.wf()
                                &&& result->Ok_0.device() == started
                                &&& result->Ok_0.timer().ticks() == 0
                                &&& result->Ok_0.spec_mixer().output_format() == format
                                &&& result->Ok_0.spec_mixer().entries().len() == 0
                                &&& result->Ok_0.spec_mixer().next_id() == 0
                                &&& result->Ok_0.spec_mixer().epoch() == 1
                            },
                        }
                    },
            },
    {
        let mut device = match opened {
            Ok(device) => device,
            Err(error) => {
                return Err(error);
            },
        };
        let ghost before = device;
        let mut mixer = Mixer::<T, S, M, K>::new(INITIAL_SAMPLE_RATE, INITIAL_CHANNELS);
        let format = device.format();
        mixer.on_device_format_changed(format);
        let outcome = device.start();
        assert(started_with(before, format, device, outcome));
        match outcome {
            Err(error) => Err(error),
            Ok(()) => Ok(AudioPlayer { mixer, device, timer: CleanupTimer::new() }),
        }
    }

    /// Return the hardware audio format (sample rate + channels).
    ///
    /// This is the mixer's target format. Streams with different rates are
    /// resampled.
    pub fn format(&self) -> (format: AudioFormat)
        ensures
            format == self.spec_mixer().output_format(),
    {
        self.mixer.format()
    }

    /// Add an audio stream to the player. It plays at once where `play_immediate`
    /// is set, and is added paused otherwise.
    pub fn add_stream(&mut self, stream: S, play_immediate: bool) -> (handle: PlayHandle)
        requires
            old(self).wf(),
            old(self).spec_mixer().next_id() < u64::MAX,
        ensures
            final(self).wf(),
            final(self).device() == old(self).device(),
            final(self).timer() == old(self).timer(),
            handle.id == old(self).spec_mixer().next_id(),
            final(self).spec_mixer().next_id() == old(self).spec_mixer().next_id() + 1,
            final(self).spec_mixer().output_format() == old(self).spec_mixer().output_format(),
            final(self).spec_mixer().epoch() == old(self).spec_mixer().epoch(),
            final(self).spec_mixer().entries() == old(self).spec_mixer().entries().push(
                final(self).spec_mixer().entries().last(),
            ),
            added(final(self).spec_mixer().entries().last(), handle.id, stream, play_immediate),
            snapshot_of::<T, S, M>(
                final(self).spec_mixer().entries(),
                old(self).spec_mixer().output_format(),
                old(self).spec_mixer().snapshot(),
                final(self).spec_mixer().snapshot(),
            ),
    {
        self.mixer.add_stream(stream, play_immediate)
    }

    /// Number of streams currently in the mixer.
    pub fn stream_count(&self) -> (count: usize)
        ensures
            count == self.spec_mixer().entries().len(),
    {
        self.mixer.stream_count()
    }

    /// Pause playback (device-level, not per-stream).
    pub fn pause(&mut self) -> (result: Result<(), AudioError>)
        requires
            old(self).wf(),
        ensures
            final(self).wf(),
            final(self).spec_mixer() == old(self).spec_mixer(),
            final(self).timer() == old(self).timer(),
            old(self).device().performs(DeviceOperation::Pause, &final(self).device(), result),
    {
        self.device.pause()
    }

    /// Resume playback after a [`pause`](Self::pause).
    pub fn resume(&mut self) -> (result: Result<(), AudioError>)
        requires
            old(self).wf(),
        ensures
            final(self).wf(),
            final(self).spec_mixer() == old(self).spec_mixer(),
            final(self).timer() == old(self).timer(),
            old(self).device().performs(DeviceOperation::Resume, &final(self).device(), result),
    {
        self.device.resume()
    }

    /// Count a tick of the cleanup timer, and remove finished streams where that
    /// is due. Returns whether it was.
    pub fn tick(&mut self) -> (cleaned: bool)
        requires
            old(self).wf(),
        ensures
            final(self).wf(),
            final(self).device() == old(self).device(),
            cleaned == (old(self).timer().ticks() + 1 == TICKS_PER_CLEANUP),
            final(self).timer().ticks() == (if cleaned {
                0
            } else {
                old(self).timer().ticks() + 1
            }),
            final(self).spec_mixer().output_format() == old(self).spec_mixer().output_format(),
            final(self).spec_mixer().epoch() == old(self).spec_mixer().epoch(),
            final(self).spec_mixer().next_id() == old(self).spec_mixer().next_id(),
            cleaned ==> final(self).spec_mixer().entries() == not_ended(
                old(self).spec_mixer().entries(),
            ),
            cleaned ==> if not_ended(old(self).spec_mixer().entries()).len() == old(self).spec_mixer().entries().len() {
                final(self).spec_mixer().snapshot() == old(self).spec_mixer().snapshot()
            } else {
                snapshot_of::<T, S, M>(
                    final(self).spec_mixer().entries(),
                    old(self).spec_mixer().output_format(),
                    old(self).spec_mixer().snapshot(),
                    final(self).spec_mixer().snapshot(),
                )
            },
            !cleaned ==> final(self).spec_mixer() == old(self).spec_mixer(),
    {
        let due = self.timer.tick();
        if due {
            self.mixer.cleanup_eof();
        }
        due
    }

    /// The mixer that the device pulls from.
    pub fn mixer_mut(&mut self) -> (mixer: &mut Mixer<T, S, M, K>)
        ensures
            *mixer == old(self).spec_mixer(),
            final(self).spec_mixer() == *final(mixer),
            final(self).device() == old(self).device(),
            final(self).timer() == old(self).timer(),
    {
        &mut self.mixer
    }

    /// Stop the device, as good as that goes, and give it back.
    pub fn shutdown(self) -> (device: D)
        ensures
            exists|result: Result<(), AudioError>| #[trigger]
                self.device().performs(DeviceOperation::Stop, &device, result),
    {
        let mut device = self.device;
        let result = device.stop();
        assert(self.device().performs(DeviceOperation::Stop, &device, result));
        device
    }
}

/// Whether a device says that it has the given format, and starting it may then
/// turn it into `after` and answer `outcome`.
pub open spec fn started_with<D: AudioDevice>(
    device: D,
    format: AudioFormat,
    after: D,
    outcome: Result<(), AudioError>,
) -> bool {
    &&& call_ensures(D::format, (&device,), format)
    &&& device.performs(DeviceOperation::Start, &after, outcome)
}

/// The timer is due once in fifty ticks, counted from when it was made or was due
/// last.
pub proof fn law_timer_is_due_every_fifty_ticks(timer: &mut CleanupTimer, due: bool)
    requires
        old(timer).wf(),
        call_ensures(CleanupTimer::tick, (timer,), due),
    ensures
        0 <= old(timer).ticks() < 50,
        due <==> old(timer).ticks() == 49,
        due ==> final(timer).ticks() == 0,
        !due ==> final(timer).ticks() == old(timer).ticks() + 1,
{
}

/// A player plays in the format of its device, without a stream, and only where the
/// device was opened and started; otherwise it says why it does not.
pub proof fn law_players_take_the_format_of_the_device<
    T: Copy + Default,
    S: AudioStream<T>,
    M: StreamModifier<T>,
    K: MixMath<T>,
    D: AudioDevice,
>(
    opened: Result<D, AudioError>,
    result: Result<AudioPlayer<T, S, M, K, D>, AudioError>,
    format: AudioFormat,
    count: usize,
)
    requires
        call_ensures(AudioPlayer::<T, S, M, K, D>::new, (opened,), result),
        result is Ok ==> call_ensures(
            AudioPlayer::<T, S, M, K, D>::format,
            (&result->Ok_0,),
            format,
        ),
        result is Ok ==> call_ensures(
            AudioPlayer::<T, S, M, K, D>::stream_count,
            (&result->Ok_0,),
            count,
        ),
    ensures
        opened is Err ==> result is Err && result->Err_0 == opened->Err_0,
        result is Ok ==> {
            &&& opened is Ok
            &&& result->Ok_0.wf()
            &&& call_ensures(D::format, (&opened->Ok_0,), format)
            &&& exists|outcome: Result<(), AudioError>| #[trigger]
                opened->Ok_0.performs(
                    DeviceOperation::Start,
                    &result->Ok_0.device(),
                    outcome,
                ) && outcome is Ok
            &&& count == 0
        },
        result is Err && opened is Ok ==> exists|started: D| #[trigger]
            opened->Ok_0.performs(
                DeviceOperation::Start,
                &started,
                Err::<(), AudioError>(result->Err_0),
            ),
{
    if opened is Ok {
        let device = opened->Ok_0;
        let (told, started, outcome) = choose|
            told: AudioFormat,
            started: D,
            outcome: Result<(), AudioError>,
        |
            {
                &&& #[trigger] started_with(device, told, started, outcome)
                &&& match outcome {
                    Err(error) => result is Err && result->Err_0 == error,
                    Ok(()) => {
                        &&& result is Ok
                        &&& result->Ok_0.wf()
                        &&& result->Ok_0.device() == started
                        &&& result->Ok_0.timer().ticks() == 0
                        &&& result->Ok_0.spec_mixer().output_format() == told
                        &&& result->Ok_0.spec_mixer().entries().len() == 0
                        &&& result->Ok_0.spec_mixer().next_id() == 0
                        &&& result->Ok_0.spec_mixer().epoch() == 1
                    },
                }
            };
        assert(device.performs(DeviceOperation::Start, &started, outcome));
    }
}

/// Finished streams go with the fiftieth tick and with no other; the others and the
/// device are not touched by any.
pub proof fn law_ticks_remove_finished_streams<
    T: Copy + Default,
    S: AudioStream<T>,
    M: StreamModifier<T>,
    K: MixMath<T>,
    D: AudioDevice,
>(player: &mut AudioPlayer<T, S, M, K, D>, cleaned: bool, index: int)
    requires
        old(player).wf(),
        call_ensures(AudioPlayer::<T, S, M, K, D>::tick, (player,), cleaned),
        0 <= index < old(player).spec_mixer().entries().len(),
    ensures
        cleaned <==> old(player).timer().ticks() == 49,
        !cleaned ==> final(player).spec_mixer() == old(player).spec_mixer(),
        cleaned && !old(player).spec_mixer().entries()[index].state.eof
            ==> final(player).spec_mixer().entries().contains(
            old(player).spec_mixer().entries()[index],
        ),
        cleaned ==> forall|i: int|
            0 <= i < final(player).spec_mixer().entries().len() ==> !(
            #[trigger] final(player).spec_mixer().entries()[i]).state.eof,
        final(player).device() == old(player).device(),
        final(player).spec_mixer().output_format() == old(player).spec_mixer().output_format(),
{
    law_cleanup_keeps_the_live(old(player).spec_mixer().entries());
}

/// Pausing, resuming and shutting a player down reach its device and nothing else.
pub proof fn law_players_drive_their_device<
    T: Copy + Default,
    S: AudioStream<T>,
    M: StreamModifier<T>,
    K: MixMath<T>,
    D: AudioDevice,
>(
    player: &mut AudioPlayer<T, S, M, K, D>,
    paused: Result<(), AudioError>,
    resumer: &mut AudioPlayer<T, S, M, K, D>,
    resumed: Result<(), AudioError>,
    device: D,
)
    requires
        old(player).wf(),
        call_ensures(AudioPlayer::<T, S, M, K, D>::pause, (player,), paused),
        *old(resumer) == *final(player),
        call_ensures(AudioPlayer::<T, S, M, K, D>::resume, (resumer,), resumed),
        call_ensures(AudioPlayer::<T, S, M, K, D>::shutdown, (*final(resumer),), device),
    ensures
        old(player).device().performs(DeviceOperation::Pause, &final(player).device(), paused),
        final(player).device().performs(DeviceOperation::Resume, &final(resumer).device(), resumed),
        exists|stopped: Result<(), AudioError>| #[trigger]
            final(resumer).device().performs(DeviceOperation::Stop, &device, stopped),
        final(resumer).spec_mixer() == old(player).spec_mixer(),
{
}

/// A stream that is added to a player is counted, and plays at full volume exactly
/// where that was asked for.
pub proof fn law_added_streams_are_counted<
    T: Copy + Default,
    S: AudioStream<T>,
    M: StreamModifier<T>,
    K: MixMath<T>,
    D: AudioDevice,
>(
    player: &mut AudioPlayer<T, S, M, K, D>,
    stream: S,
    play_immediate: bool,
    handle: PlayHandle,
    counts: (usize, usize),
)
    requires
        old(player).wf(),
        old(player).spec_mixer().next_id() < u64::MAX,
        call_ensures(AudioPlayer::<T, S, M, K, D>::stream_count, (&*old(player),), counts.0),
        call_ensures(
            AudioPlayer::<T, S, M, K, D>::add_stream,
            (player, stream, play_immediate),
            handle,
        ),
        call_ensures(AudioPlayer::<T, S, M, K, D>::stream_count, (&*final(player),), counts.1),
    ensures
        counts.1 == counts.0 + 1,
        ({
            let entry = final(player).spec_mixer().entries().last();
            &&& entry.id == handle.id
            &&& entry.stream == stream
            &&& entry.state.paused == !play_immediate
            &&& entry.state.alive && !entry.state.eof
            &&& entry.state.volume == 0x3f80_0000
            &&& entry.modifier is None
        }),
        forall|i: int|
            0 <= i < old(player).spec_mixer().entries().len()
                ==> #[trigger] final(player).spec_mixer().entries()[i]
                == old(player).spec_mixer().entries()[i],
        final(player).device() == old(player).device(),
{
}

} // verus!
