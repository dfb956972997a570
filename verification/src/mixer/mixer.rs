//! The mixer: a list of live streams, the snapshot that the audio callback
//! works on, and the callback itself.

use std::marker::PhantomData;

use vstd::prelude::*;

use super::callback::{callback_done, fit, mix_stream, silent, stream_step, StreamReading};
use super::control::{PlayHandle, StreamState};
use super::entry::{
    added, derived, distinct, distinct_entries, find_position, holds, lemma_carried_absent,
    lemma_carried_present, lemma_nothing_ended, not_ended, snapshot_of, sought, MixerEntry, SnapshotEntry,
};
use super::kernel::{origin, MixMath, Position, ResampleRatio};
use super::published::MixerSnapshot;
use super::source::{AudioStream, StreamModifier};
use crate::error::AudioError;
use crate::types::AudioFormat;

verus! {

/// Combines multiple [`AudioStream`]s into a single output.
///
/// The control side adds and removes streams and republishes the snapshot; the
/// audio callback only works on the snapshot, holds what it has read ahead, and
/// sets end-of-stream flags.
pub struct Mixer<T, S, M, K> {
    format: AudioFormat,
    snapshot: Vec<SnapshotEntry>,
    entries: Vec<MixerEntry<T, S, M>>,
    next_id: u64,
    /// Scratch for reading from one stream.
    stream_buf: Vec<T>,
    /// Accumulation of all streams.
    mix_buf: Vec<T>,
    /// Counts endpoint invalidations, format changes and recoveries. Hosts
    /// poll this to react to device switches.
    device_change_epoch: u64,
    math: PhantomData<K>,
}

impl<T, S, M, K> Mixer<T, S, M, K> {
    /// The output format of the current snapshot.
    pub closed spec fn output_format(&self) -> AudioFormat {
        self.format
    }

    /// The live streams, in the order they were added.
    pub closed spec fn entries(&self) -> Seq<MixerEntry<T, S, M>> {
        self.entries@
    }

    /// The current snapshot.
    pub closed spec fn snapshot(&self) -> Seq<SnapshotEntry> {
        self.snapshot@
    }

    pub closed spec fn epoch(&self) -> u64 {
        self.device_change_epoch
    }

    /// The id of the next stream.
    pub closed spec fn next_id(&self) -> u64 {
        self.next_id
    }

    /// No two streams share an id, and every id was given out.
    pub closed spec fn entries_wf(&self) -> bool {
        &&& distinct_entries(self.entries@)
        &&& forall|i: int|
            0 <= i < self.entries@.len() ==> (#[trigger] self.entries@[i]).id < self.next_id
    }

    /// The snapshot is that of the live streams, and its ratios are those of its
    /// format.
    pub closed spec fn snapshot_wf(&self) -> bool {
        &&& self.snapshot@.len() == self.entries@.len()
        &&& forall|i: int|
            0 <= i < self.entries@.len() ==> (#[trigger] self.entries@[i]).id
                == self.snapshot@[i].id
        &&& forall|i: int|
            0 <= i < self.snapshot@.len() ==> (#[trigger] self.snapshot@[i]).ratio.mixer_rate
                == self.format.sample_rate
        &&& distinct(self.snapshot@)
    }

    pub open spec fn wf(&self) -> bool {
        self.entries_wf() && self.snapshot_wf()
    }
}

/// The device-change epoch behind `epoch`.
pub open spec fn next_epoch(epoch: u64) -> u64 {
    if epoch == u64::MAX {
        0
    } else {
        (epoch + 1) as u64
    }
}

/// A call of a mixer, as far as the device-change epoch is concerned.
#[derive(Clone, Copy, Debug, PartialEq, Eq, Structural)]
pub enum MixerCall {
    DeviceInvalidated,
    DeviceFormatChanged,
    DeviceRecovered,
    /// Any other.
    Other,
}

/// The device-change epoch after a call.
pub open spec fn epoch_after(epoch: u64, call: MixerCall) -> u64 {
    match call {
        MixerCall::Other => epoch,
        _ => next_epoch(epoch),
    }
}

/// How many of `calls` tell of a device change.
pub open spec fn device_changes(calls: Seq<MixerCall>) -> nat
    decreases calls.len(),
{
    if calls.len() == 0 {
        0
    } else {
        device_changes(calls.drop_last()) + if calls.last() == MixerCall::Other {
            0nat
        } else {
            1nat
        }
    }
}

/// The device-change epoch counts the device changes over any sequence of calls,
/// modulo the range of the counter: `epochs` are those before the first call and
/// after each.
pub proof fn law_epoch_counts_device_changes(epochs: Seq<u64>, calls: Seq<MixerCall>)
    requires
        epochs.len() == calls.len() + 1,
        forall|k: int|
            0 <= k < calls.len() ==> epochs[k + 1] == epoch_after(epochs[k], #[trigger] calls[k]),
    ensures
        epochs.last() == (epochs.first() + device_changes(calls)) % 0x1_0000_0000_0000_0000,
    decreases calls.len(),
{
    if calls.len() > 0 {
        let last = calls.len() - 1;
        let earlier = epochs.drop_last();
        let rest = calls.drop_last();
        assert forall|k: int| 0 <= k < rest.len() implies earlier[k + 1] == epoch_after(
            earlier[k],
            #[trigger] rest[k],
        ) by {
            assert(calls[k] == rest[k]);
        }
        law_epoch_counts_device_changes(earlier, rest);
        assert(epochs[last + 1] == epoch_after(epochs[last], calls[last]));
    }
}

impl<T: Copy + Default, S: AudioStream<T>, M: StreamModifier<T>, K: MixMath<T>> Mixer<T, S, M, K> {
    /// Create a new mixer with the given target format.
    ///
    /// `sample_rate` and `channels` should match the hardware format.
    pub fn new(sample_rate: u32, channels: u16) -> (mixer: Self)
        ensures
            mixer.wf(),
            mixer.output_format() == (AudioFormat { sample_rate, channels }),
            mixer.entries() == Seq::<MixerEntry<T, S, M>>::empty(),
            mixer.snapshot() == Seq::<SnapshotEntry>::empty(),
            mixer.epoch() == 0,
            mixer.next_id() == 0,
    {
        Mixer {
            format: AudioFormat::new(sample_rate, channels),
            snapshot: Vec::new(),
            entries: Vec::new(),
            next_id: 0,
            stream_buf: Vec::with_capacity(8192),
            mix_buf: Vec::with_capacity(4096),
            device_change_epoch: 0,
            math: PhantomData,
        }
    }

    /// Current device-change epoch. Increments on every endpoint invalidation,
    /// format change or recovery.
    pub fn device_change_epoch(&self) -> (epoch: u64)
        ensures
            epoch == self.epoch(),
    {
        self.device_change_epoch
    }

    /// Return the target audio format.
    pub fn format(&self) -> (format: AudioFormat)
        ensures
            format == self.output_format(),
    {
        self.format
    }

    /// Number of streams currently in the mixer.
    pub fn stream_count(&self) -> (count: usize)
        ensures
            count == self.entries().len(),
    {
        self.entries.len()
    }

    /// Whether there is an id left for another stream.
    pub fn has_free_id(&self) -> (free: bool)
        ensures
            free == (self.next_id() < u64::MAX),
    {
        self.next_id < u64::MAX
    }

    /// Build and publish a complete format + stream snapshot.
    ///
    /// Positions are carried forward from the snapshot being replaced, so
    /// existing streams do not start over.
    pub fn publish_snapshot(&mut self, format: AudioFormat)
        requires
            old(self).entries_wf(),
        ensures
            final(self).wf(),
            final(self).output_format() == format,
            final(self).entries() == old(self).entries(),
            snapshot_of::<T, S, M>(
                old(self).entries(),
                format,
                old(self).snapshot(),
                final(self).snapshot(),
            ),
            final(self).epoch() == old(self).epoch(),
            final(self).next_id() == old(self).next_id(),
    {
        let mut cells: Vec<SnapshotEntry> = Vec::new();
        let mut i: usize = 0;
        while i < self.entries.len()
            invariant
                i <= self.entries@.len(),
                *self == *old(self),
                cells@.len() == i,
                forall|j: int|
                    0 <= j < i ==> derived::<T, S, M>(
                        #[trigger] self.entries@[j],
                        format,
                        self.snapshot@,
                        cells@[j],
                    ),
            decreases self.entries@.len() - i,
        {
            let entry = &self.entries[i];
            let stream_rate = entry.stream.sample_rate();
            let position = find_position(&self.snapshot, entry.id);
            let stream_channels = entry.stream.channels();
            cells.push(
                SnapshotEntry {
                    id: entry.id,
                    stream_channels,
                    ratio: ResampleRatio { stream_rate, mixer_rate: format.sample_rate },
                    position,
                },
            );
            i = i + 1;
        }
        proof {
            assert forall|a: int, b: int| 0 <= a < b < cells@.len() implies (
            #[trigger] cells@[a]).id != (#[trigger] cells@[b]).id by {
                assert(derived::<T, S, M>(self.entries@[a], format, self.snapshot@, cells@[a]));
                assert(derived::<T, S, M>(self.entries@[b], format, self.snapshot@, cells@[b]));
            }
            assert forall|a: int| 0 <= a < cells@.len() implies (
            #[trigger] cells@[a]).ratio.mixer_rate == format.sample_rate by {
                assert(derived::<T, S, M>(self.entries@[a], format, self.snapshot@, cells@[a]));
            }
        }
        self.snapshot = cells;
        self.format = format;
    }

    /// Add an audio stream to the mixer.
    ///
    /// It plays at once where `play_immediate` is set, and is added paused
    /// otherwise. Returns a [`PlayHandle`] that can be used to control playback.
    pub fn add_stream(&mut self, stream: S, play_immediate: bool) -> (handle: PlayHandle)
        requires
            old(self).wf(),
            old(self).next_id() < u64::MAX,
        ensures
            final(self).wf(),
            handle.id == old(self).next_id(),
            final(self).next_id() == old(self).next_id() + 1,
            final(self).output_format() == old(self).output_format(),
            final(self).epoch() == old(self).epoch(),
            final(self).entries() == old(self).entries().push(final(self).entries().last()),
            added(final(self).entries().last(), handle.id, stream, play_immediate),
            snapshot_of::<T, S, M>(
                final(self).entries(),
                old(self).output_format(),
                old(self).snapshot(),
                final(self).snapshot(),
            ),
            forall|i: int|
                0 <= i < old(self).snapshot().len() ==> (#[trigger] final(self).snapshot()[i]).position == old(self).snapshot()[i].position,
            final(self).snapshot().last().position == origin(),
    {
        let id = self.next_id;
        let ghost cells = self.snapshot@;
        self.entries.push(
            MixerEntry {
                id,
                stream,
                state: StreamState::new(!play_immediate),
                modifier: None,
                held: Vec::new(),
            },
        );
        self.next_id = id + 1;
        proof {
            assert forall|a: int, b: int| 0 <= a < b < self.entries@.len() implies (
            #[trigger] self.entries@[a]).id != (#[trigger] self.entries@[b]).id by {
                assert(old(self).entries@[a].id == cells[a].id);
                if b < cells.len() {
                    assert(old(self).entries@[b].id == cells[b].id);
                }
            }
        }
        let format = self.format;
        self.publish_snapshot(format);
        proof {
            self.lemma_positions_carried(cells);
            assert forall|i: int| 0 <= i < cells.len() implies (#[trigger] cells[i]).id != id by {
                assert(old(self).entries@[i].id == cells[i].id);
            }
            lemma_carried_absent(cells, id);
            assert(derived::<T, S, M>(
                self.entries@[cells.len() as int],
                format,
                cells,
                self.snapshot@[cells.len() as int],
            ));
        }
        PlayHandle { id }
    }

    /// Remove streams that have reached their end.
    ///
    /// Call this periodically from the control thread. The audio callback only
    /// sets the end-of-stream flag; it never deallocates.
    pub fn cleanup_eof(&mut self)
        requires
            old(self).wf(),
        ensures
            final(self).wf(),
            final(self).entries() == not_ended(old(self).entries()),
            final(self).output_format() == old(self).output_format(),
            final(self).epoch() == old(self).epoch(),
            final(self).next_id() == old(self).next_id(),
            if not_ended(old(self).entries()).len() == old(self).entries().len() {
                final(self).snapshot() == old(self).snapshot()
            } else {
                snapshot_of::<T, S, M>(
                    final(self).entries(),
                    old(self).output_format(),
                    old(self).snapshot(),
                    final(self).snapshot(),
                )
            },
    {
        let previous = self.entries.len();
        let ghost live = self.entries@;
        let ghost mut seen: int = 0;
        let mut i: usize = 0;
        proof {
            assert(live.take(0) =~= Seq::empty());
            assert(self.entries@.take(0) =~= not_ended(live.take(0)));
            assert(self.entries@.skip(0) =~= live.skip(0));
        }
        while i < self.entries.len()
            invariant
                i <= self.entries@.len(),
                self.entries@.len() - i == live.len() - seen,
                i <= seen <= live.len(),
                self.entries@.take(i as int) == not_ended(live.take(seen)),
                self.entries@.skip(i as int) == live.skip(seen),
                distinct_entries(self.entries@),
                forall|j: int|
                    0 <= j < self.entries@.len() ==> (#[trigger] self.entries@[j]).id
                        < self.next_id,
                self.snapshot == old(self).snapshot,
                self.format == old(self).format,
                self.next_id == old(self).next_id,
                self.device_change_epoch == old(self).device_change_epoch,
            decreases self.entries@.len() - i,
        {
            proof {
                assert(self.entries@[i as int] == self.entries@.skip(i as int)[0]);
                assert(live[seen] == live.skip(seen)[0]);
                assert(live.take(seen + 1).drop_last() =~= live.take(seen));
                assert(live.take(seen + 1).last() == live[seen]);
                assert(live.skip(seen + 1) =~= live.skip(seen).skip(1));
            }
            let ghost before = self.entries@;
            if self.entries[i].state.eof {
                self.entries.remove(i);
                proof {
                    assert(self.entries@.take(i as int) =~= before.take(i as int));
                    assert(self.entries@.skip(i as int) =~= before.skip(i as int).skip(1));
                    assert forall|a: int, b: int| 0 <= a < b < self.entries@.len() implies (
                    #[trigger] self.entries@[a]).id != (#[trigger] self.entries@[b]).id by {
                        let x = if a < i {
                            a
                        } else {
                            a + 1
                        };
                        let y = if b < i {
                            b
                        } else {
                            b + 1
                        };
                        assert(before[x].id != before[y].id);
                    }
                }
            } else {
                proof {
                    assert(before.take(i + 1) =~= before.take(i as int).push(before[i as int]));
                    assert(before.skip(i + 1) =~= before.skip(i as int).skip(1));
                }
                i = i + 1;
            }
            proof {
                seen = seen + 1;
            }
        }
        proof {
            assert(self.entries@.take(i as int) =~= self.entries@);
            assert(live.take(seen) =~= live);
            if self.entries@.len() == live.len() {
                lemma_nothing_ended(live);
            }
        }
        if self.entries.len() != previous {
            let format = self.format;
            self.publish_snapshot(format);
        }
    }

    /// Update the target format after the old endpoint was stopped.
    ///
    /// Rebuilding the snapshot updates each stream's resampling ratio before
    /// playback resumes on the replacement endpoint.
    fn reconfigure_format(&mut self, format: AudioFormat)
        requires
            old(self).wf(),
        ensures
            final(self).wf(),
            final(self).output_format() == format,
            final(self).entries() == old(self).entries(),
            final(self).epoch() == old(self).epoch(),
            final(self).next_id() == old(self).next_id(),
            if format == old(self).output_format() {
                final(self).snapshot() == old(self).snapshot()
            } else {
                snapshot_of::<T, S, M>(
                    old(self).entries(),
                    format,
                    old(self).snapshot(),
                    final(self).snapshot(),
                )
            },
    {
        if self.format == format {
            return ;
        }
        self.publish_snapshot(format);
    }

    fn bump_device_change_epoch(&mut self)
        requires
            old(self).wf(),
        ensures
            final(self).wf(),
            final(self).output_format() == old(self).output_format(),
            final(self).entries() == old(self).entries(),
            final(self).snapshot() == old(self).snapshot(),
            final(self).next_id() == old(self).next_id(),
            final(self).epoch() == next_epoch(old(self).epoch()),
    {
        self.device_change_epoch = self.device_change_epoch.wrapping_add(1);
    }

    /// The endpoint was lost: hosts may pause while it is being rebuilt.
    pub fn on_device_invalidated(&mut self)
        requires
            old(self).wf(),
        ensures
            final(self).wf(),
            final(self).output_format() == old(self).output_format(),
            final(self).entries() == old(self).entries(),
            final(self).snapshot() == old(self).snapshot(),
            final(self).next_id() == old(self).next_id(),
            final(self).epoch() == epoch_after(old(self).epoch(), MixerCall::DeviceInvalidated),
    {
        self.bump_device_change_epoch();
    }

    /// The replacement endpoint has another format. A device switch typically
    /// comes with a format change, so this counts as one.
    pub fn on_device_format_changed(&mut self, format: AudioFormat)
        requires
            old(self).wf(),
        ensures
            final(self).wf(),
            final(self).output_format() == format,
            final(self).entries() == old(self).entries(),
            final(self).next_id() == old(self).next_id(),
            final(self).epoch() == epoch_after(old(self).epoch(), MixerCall::DeviceFormatChanged),
            if format == old(self).output_format() {
                final(self).snapshot() == old(self).snapshot()
            } else {
                snapshot_of::<T, S, M>(
                    old(self).entries(),
                    format,
                    old(self).snapshot(),
                    final(self).snapshot(),
                )
            },
    {
        self.reconfigure_format(format);
        self.bump_device_change_epoch();
    }

    /// The replacement endpoint is up: hosts that paused may resume.
    pub fn on_device_recovered(&mut self)
        requires
            old(self).wf(),
        ensures
            final(self).wf(),
            final(self).output_format() == old(self).output_format(),
            final(self).entries() == old(self).entries(),
            final(self).snapshot() == old(self).snapshot(),
            final(self).next_id() == old(self).next_id(),
            final(self).epoch() == epoch_after(old(self).epoch(), MixerCall::DeviceRecovered),
    {
        self.bump_device_change_epoch();
    }

    /// Fill `buffer` with the mix of all streams. Returns the number of frames.
    pub fn pull(&mut self, buffer: &mut [T]) -> (frames: usize)
        requires
            old(self).wf(),
            old(self).output_format().channels > 0,
        ensures
            final(self).wf(),
            final(self).output_format() == old(self).output_format(),
            final(self).epoch() == old(self).epoch(),
            final(self).next_id() == old(self).next_id(),
            frames == old(buffer)@.len() as int / old(self).output_format().channels as int,
            final(buffer)@.len() == old(buffer)@.len(),
            exists|readings: Seq<StreamReading<T>>, sums: Seq<Seq<T>>|
                #[trigger] callback_done::<T, S, M, K>(
                    old(self).output_format().channels,
                    frames,
                    old(self).entries(),
                    old(self).snapshot(),
                    final(self).entries(),
                    final(self).snapshot(),
                    readings,
                    sums,
                ) && silent(sums.first()) && sums.first().len() == old(buffer)@.len()
                    && final(buffer)@ == sums.last(),
    {
        let channels = self.format.channels;
        let room: usize = buffer.len();
        let frame_count: usize = room / (channels as usize);
        assert(frame_count * channels <= room) by (nonlinear_arith)
            requires
                frame_count == room as int / channels as int,
                channels > 0,
        ;
        self.mix_buf.truncate(0);
        fit(&mut self.mix_buf, room);
        let ghost mut readings: Seq<StreamReading<T>> = Seq::empty();
        let ghost mut sums: Seq<Seq<T>> = seq![self.mix_buf@];
        let ghost entries = self.entries@;
        let ghost cells = self.snapshot@;
        let mut i: usize = 0;
        while i < self.entries.len()
            invariant
                i <= self.entries@.len() == entries.len(),
                self.snapshot@.len() == cells.len() == entries.len(),
                self.format == old(self).format,
                self.next_id == old(self).next_id,
                self.device_change_epoch == old(self).device_change_epoch,
                channels == old(self).format.channels,
                frame_count * channels <= room,
                self.mix_buf@.len() == room,
                readings.len() == i,
                sums.len() == i + 1,
                sums.last() == self.mix_buf@,
                silent(sums.first()),
                sums.first().len() == room,
                forall|j: int|
                    0 <= j < i ==> stream_step::<T, S, M, K>(
                        channels,
                        frame_count,
                        #[trigger] entries[j],
                        cells[j],
                        readings[j],
                        sums[j],
                        self.entries@[j],
                        self.snapshot@[j],
                        sums[j + 1],
                    ),
                forall|j: int|
                    i <= j < entries.len() ==> #[trigger] self.entries@[j] == entries[j],
                forall|j: int|
                    i <= j < entries.len() ==> #[trigger] self.snapshot@[j] == cells[j],
            decreases entries.len() - i,
        {
            let ghost before = self.mix_buf@;
            let Ghost(reading) = mix_stream::<T, S, M, K>(
                &mut self.entries[i],
                &mut self.snapshot[i],
                channels,
                frame_count,
                &mut self.stream_buf,
                &mut self.mix_buf,
            );
            proof {
                readings = readings.push(reading);
                sums = sums.push(self.mix_buf@);
                assert(sums[i as int] == before);
            }
            i = i + 1;
        }
        let mut k: usize = 0;
        while k < room
            invariant
                k <= room == buffer@.len() == self.mix_buf@.len(),
                forall|j: int| 0 <= j < k ==> #[trigger] buffer@[j] == self.mix_buf@[j],
            decreases room - k,
        {
            buffer[k] = self.mix_buf[k];
            k = k + 1;
        }
        proof {
            assert(callback_done::<T, S, M, K>(
                old(self).output_format().channels,
                frame_count,
                old(self).entries(),
                old(self).snapshot(),
                self.entries(),
                self.snapshot(),
                readings,
                sums,
            ));
            assert(buffer@ =~= sums.last());
            assert forall|j: int| 0 <= j < entries.len() implies (
            #[trigger] self.entries@[j]).id == self.snapshot@[j].id && self.entries@[j].id
                == entries[j].id && self.snapshot@[j].ratio == cells[j].ratio by {
                assert(stream_step::<T, S, M, K>(
                    channels,
                    frame_count,
                    entries[j],
                    cells[j],
                    readings[j],
                    sums[j],
                    self.entries@[j],
                    self.snapshot@[j],
                    sums[j + 1],
                ));
            }
            assert forall|a: int, b: int| 0 <= a < b < self.snapshot@.len() implies (
            #[trigger] self.snapshot@[a]).id != (#[trigger] self.snapshot@[b]).id by {
                assert(self.entries@[a].id == entries[a].id && self.entries@[b].id
                    == entries[b].id);
                assert(cells[a].id != cells[b].id);
            }
            assert forall|j: int| 0 <= j < self.snapshot@.len() implies (
            #[trigger] self.snapshot@[j]).ratio.mixer_rate == self.format.sample_rate by {
                assert(self.entries@[j].id == entries[j].id);
                assert(cells[j].ratio.mixer_rate == self.format.sample_rate);
            }
        }
        frame_count
    }

    /// Where a stream stands in the live list.
    fn find(&self, id: u64) -> (index: Option<usize>)
        ensures
            index is Some <==> holds(self.entries@, id),
            index is Some ==> index->0 < self.entries@.len() && self.entries@[index->0 as int].id
                == id,
    {
        let mut i: usize = 0;
        while i < self.entries.len()
            invariant
                i <= self.entries@.len(),
                forall|j: int| 0 <= j < i ==> (#[trigger] self.entries@[j]).id != id,
            decreases self.entries@.len() - i,
        {
            if self.entries[i].id == id {
                return Some(i);
            }
            i = i + 1;
        }
        None
    }

    /// Playback state of a stream, or `None` once it was removed.
    pub fn state(&self, handle: PlayHandle) -> (state: Option<StreamState>)
        requires
            self.wf(),
        ensures
            state is Some <==> holds(self.entries(), handle.id),
            forall|i: int|
                0 <= i < self.entries().len() && (#[trigger] self.entries()[i]).id == handle.id
                    ==> state == Some(self.entries()[i].state),
    {
        match self.find(handle.id) {
            Some(i) => Some(self.entries[i].state),
            None => None,
        }
    }

    /// Pause or resume a stream. Returns whether the stream is still there.
    pub fn set_paused(&mut self, handle: PlayHandle, paused: bool) -> (found: bool)
        requires
            old(self).wf(),
        ensures
            final(self).wf(),
            found <==> holds(old(self).entries(), handle.id),
            final(self).output_format() == old(self).output_format(),
            final(self).snapshot() == old(self).snapshot(),
            final(self).epoch() == old(self).epoch(),
            final(self).next_id() == old(self).next_id(),
            final(self).entries().len() == old(self).entries().len(),
            forall|i: int|
                0 <= i < old(self).entries().len() ==> #[trigger] final(self).entries()[i] == (
                if old(self).entries()[i].id == handle.id {
                    MixerEntry {
                        state: StreamState { paused, ..old(self).entries()[i].state },
                        ..old(self).entries()[i]
                    }
                } else {
                    old(self).entries()[i]
                }),
    {
        match self.find(handle.id) {
            Some(i) => {
                self.entries[i].state.paused = paused;
                true
            },
            None => false,
        }
    }

    /// Set the volume of a stream, as a single-precision bit pattern. Returns whether the stream is still there.
    pub fn set_volume(&mut self, handle: PlayHandle, volume: u32) -> (found: bool)
        requires
            old(self).wf(),
        ensures
            final(self).wf(),
            found <==> holds(old(self).entries(), handle.id),
            final(self).output_format() == old(self).output_format(),
            final(self).snapshot() == old(self).snapshot(),
            final(self).epoch() == old(self).epoch(),
            final(self).next_id() == old(self).next_id(),
            final(self).entries().len() == old(self).entries().len(),
            forall|i: int|
                0 <= i < old(self).entries().len() ==> #[trigger] final(self).entries()[i] == (
                if old(self).entries()[i].id == handle.id {
                    MixerEntry {
                        state: StreamState { volume, ..old(self).entries()[i].state },
                        ..old(self).entries()[i]
                    }
                } else {
                    old(self).entries()[i]
                }),
    {
        match self.find(handle.id) {
            Some(i) => {
                self.entries[i].state.volume = volume;
                true
            },
            None => false,
        }
    }

    /// Set or clear the effect that is applied to a stream before it is mixed. Returns whether the stream is still there.
    pub fn set_modifier(&mut self, handle: PlayHandle, modifier: Option<M>) -> (found: bool)
        requires
            old(self).wf(),
        ensures
            final(self).wf(),
            found <==> holds(old(self).entries(), handle.id),
            final(self).output_format() == old(self).output_format(),
            final(self).snapshot() == old(self).snapshot(),
            final(self).epoch() == old(self).epoch(),
            final(self).next_id() == old(self).next_id(),
            final(self).entries().len() == old(self).entries().len(),
            forall|i: int|
                0 <= i < old(self).entries().len() ==> #[trigger] final(self).entries()[i] == (
                if old(self).entries()[i].id == handle.id {
                    MixerEntry { modifier, ..old(self).entries()[i] }
                } else {
                    old(self).entries()[i]
                }),
    {
        match self.find(handle.id) {
            Some(i) => {
                self.entries[i].modifier = modifier;
                true
            },
            None => false,
        }
    }

    /// Continue a stream from the given frame. Returns what the stream answers,
    /// or `None` once it was removed.
    ///
    /// Samples that were read before a successful seek are not played after it.
    pub fn seek(
        &mut self,
        handle: PlayHandle,
        frame: u64,
    ) -> (result: Option<Result<(), AudioError>>)
        requires
            old(self).wf(),
        ensures
            final(self).wf(),
            result is Some <==> holds(old(self).entries(), handle.id),
            final(self).output_format() == old(self).output_format(),
            final(self).snapshot() == old(self).snapshot(),
            final(self).epoch() == old(self).epoch(),
            final(self).next_id() == old(self).next_id(),
            final(self).entries().len() == old(self).entries().len(),
            forall|i: int|
                0 <= i < old(self).entries().len() ==> sought::<T, S, M>(
                    old(self).entries()[i],
                    handle.id,
                    frame,
                    result,
                    #[trigger] final(self).entries()[i],
                ),
    {
        match self.find(handle.id) {
            Some(i) => {
                let result = self.entries[i].stream.seek(frame);
                if result.is_ok() {
                    self.entries[i].held.truncate(0);
                }
                Some(result)
            },
            None => None,
        }
    }

    /// Take in that a stream was sought by someone else: samples that were read
    /// before are not played after it. Returns whether the stream is still there.
    pub fn stream_sought(&mut self, handle: PlayHandle) -> (found: bool)
        requires
            old(self).wf(),
        ensures
            final(self).wf(),
            found <==> holds(old(self).entries(), handle.id),
            final(self).output_format() == old(self).output_format(),
            final(self).snapshot() == old(self).snapshot(),
            final(self).epoch() == old(self).epoch(),
            final(self).next_id() == old(self).next_id(),
            final(self).entries().len() == old(self).entries().len(),
            forall|i: int|
                0 <= i < old(self).entries().len() ==> if old(self).entries()[i].id == handle.id {
                    &&& #[trigger] final(self).entries()[i] == (MixerEntry {
                        held: final(self).entries()[i].held,
                        ..old(self).entries()[i]
                    })
                    &&& final(self).entries()[i].held@.len() == 0
                } else {
                    final(self).entries()[i] == old(self).entries()[i]
                },
    {
        match self.find(handle.id) {
            Some(i) => {
                self.entries[i].held.truncate(0);
                true
            },
            None => false,
        }
    }

    /// The current snapshot.
    pub fn snapshot_entries(&self) -> (cells: &Vec<SnapshotEntry>)
        ensures
            cells@ == self.snapshot(),
    {
        &self.snapshot
    }

    /// A frozen copy of the snapshot, to be published.
    pub fn freeze(&self) -> (frozen: MixerSnapshot)
        requires
            self.wf(),
        ensures
            frozen.wf(),
            frozen.format == self.output_format(),
            frozen.entries@ == self.snapshot(),
    {
        let mut entries: Vec<SnapshotEntry> = Vec::new();
        let mut i: usize = 0;
        while i < self.snapshot.len()
            invariant
                i <= self.snapshot@.len(),
                entries@ == self.snapshot@.take(i as int),
            decreases self.snapshot@.len() - i,
        {
            entries.push(self.snapshot[i]);
            i = i + 1;
            assert(entries@ =~= self.snapshot@.take(i as int));
        }
        assert(entries@ =~= self.snapshot@);
        MixerSnapshot { format: self.format, entries }
    }

    /// Store the resample position of one stream of the snapshot. What was held
    /// for it belonged to the position that it had.
    pub fn store_position(&mut self, index: usize, position: Position)
        requires
            old(self).wf(),
            index < old(self).snapshot().len(),
        ensures
            final(self).wf(),
            final(self).output_format() == old(self).output_format(),
            final(self).entries().len() == old(self).entries().len(),
            final(self).entries()[index as int].held@.len() == 0,
            forall|i: int|
                0 <= i < old(self).entries().len() ==> #[trigger] final(self).entries()[i] == (
                if i == index {
                    MixerEntry {
                        held: final(self).entries()[i].held,
                        ..old(self).entries()[i]
                    }
                } else {
                    old(self).entries()[i]
                }),
            final(self).epoch() == old(self).epoch(),
            final(self).next_id() == old(self).next_id(),
            final(self).snapshot() == old(self).snapshot().update(
                index as int,
                (SnapshotEntry { position, ..old(self).snapshot()[index as int] }),
            ),
    {
        let ghost cells = self.snapshot@;
        self.snapshot[index].position = position;
        self.entries[index].held.truncate(0);
        proof {
            assert(self.snapshot@ =~= cells.update(
                index as int,
                SnapshotEntry { position, ..cells[index as int] },
            ));
            assert forall|a: int, b: int| 0 <= a < b < self.snapshot@.len() implies (
            #[trigger] self.snapshot@[a]).id != (#[trigger] self.snapshot@[b]).id by {
                assert(cells[a].id != cells[b].id);
            }
            assert forall|a: int| 0 <= a < self.snapshot@.len() implies (
            #[trigger] self.snapshot@[a]).ratio.mixer_rate == self.format.sample_rate by {
                assert(cells[a].ratio.mixer_rate == self.format.sample_rate);
            }
        }
    }

    /// The format and the resampling ratios of a snapshot belong together, and
    /// its streams are the live ones, in their order: a snapshot is empty exactly
    /// where there is no stream.
    pub proof fn law_format_and_ratios_publish_together(&self)
        requires
            self.wf(),
        ensures
            self.snapshot().len() == self.entries().len(),
            forall|i: int|
                0 <= i < self.snapshot().len() ==> (#[trigger] self.snapshot()[i]).id
                    == self.entries()[i].id && self.snapshot()[i].ratio.mixer_rate
                    == self.output_format().sample_rate,
    {
        assert forall|i: int| 0 <= i < self.snapshot().len() implies (
        #[trigger] self.snapshot()[i]).id == self.entries()[i].id
            && self.snapshot()[i].ratio.mixer_rate == self.output_format().sample_rate by {
            assert(self.entries@[i].id == self.snapshot@[i].id);
        }
    }

    /// No two streams of a mixer share an id, and a removed stream's id is never
    /// given out again.
    pub proof fn law_ids_are_unique(&self, i: int, j: int)
        requires
            self.wf(),
            0 <= i < j < self.entries().len(),
        ensures
            self.entries()[i].id != self.entries()[j].id,
            self.entries()[i].id < self.next_id(),
    {
    }

    /// A published snapshot holds exactly one cell for each stream, in their
    /// order. A stream that was in the one it replaces keeps its position, any
    /// other starts at the beginning, and every ratio is that of the stream's rate
    /// to the rate of the format.
    pub proof fn law_publishing_keeps_positions(
        &self,
        entries: Seq<MixerEntry<T, S, M>>,
        format: AudioFormat,
        cells: Seq<SnapshotEntry>,
    )
        requires
            self.wf(),
            snapshot_of::<T, S, M>(entries, format, self.snapshot(), cells),
        ensures
            cells.len() == entries.len(),
            forall|i: int|
                0 <= i < entries.len() ==> {
                    &&& (#[trigger] cells[i]).id == entries[i].id
                    &&& call_ensures(S::channels, (&entries[i].stream,), cells[i].stream_channels)
                    &&& call_ensures(
                        S::sample_rate,
                        (&entries[i].stream,),
                        cells[i].ratio.stream_rate,
                    )
                    &&& cells[i].ratio.mixer_rate == format.sample_rate
                },
            forall|i: int, j: int|
                0 <= i < entries.len() && 0 <= j < self.snapshot().len() && (
                #[trigger] self.snapshot()[j]).id == entries[i].id ==> (
                #[trigger] cells[i]).position == self.snapshot()[j].position,
            forall|i: int|
                0 <= i < entries.len() && (forall|j: int|
                    0 <= j < self.snapshot().len() ==> (#[trigger] self.snapshot()[j]).id
                        != entries[i].id) ==> (#[trigger] cells[i]).position == origin(),
    {
        assert forall|i: int| 0 <= i < entries.len() implies derived::<T, S, M>(
            entries[i],
            format,
            self.snapshot(),
            #[trigger] cells[i],
        ) by {
            assert(derived::<T, S, M>(entries[i], format, self.snapshot(), cells[i]));
        }
        assert forall|i: int, j: int|
            0 <= i < entries.len() && 0 <= j < self.snapshot().len() && (
            #[trigger] self.snapshot()[j]).id == entries[i].id implies (
        #[trigger] cells[i]).position == self.snapshot()[j].position by {
            lemma_carried_present(self.snapshot@, j);
        }
        assert forall|i: int|
            0 <= i < entries.len() && (forall|j: int|
                0 <= j < self.snapshot().len() ==> (#[trigger] self.snapshot()[j]).id
                    != entries[i].id) implies (#[trigger] cells[i]).position == origin() by {
            assert forall|j: int| 0 <= j < self.snapshot@.len() implies (
            #[trigger] self.snapshot@[j]).id != entries[i].id by {
                assert(self.snapshot()[j].id != entries[i].id);
            }
            lemma_carried_absent(self.snapshot@, entries[i].id);
        }
    }

    /// A snapshot of streams that were in the one it replaces has their
    /// positions.
    proof fn lemma_positions_carried(&self, previous: Seq<SnapshotEntry>)
        requires
            distinct(previous),
            snapshot_of::<T, S, M>(self.entries@, self.format, previous, self.snapshot@),
            previous.len() <= self.entries@.len(),
            forall|i: int|
                0 <= i < previous.len() ==> (#[trigger] self.entries@[i]).id == previous[i].id,
        ensures
            forall|i: int|
                0 <= i < previous.len() ==> (#[trigger] self.snapshot@[i]).position
                    == previous[i].position,
    {
        assert forall|i: int| 0 <= i < previous.len() implies (
        #[trigger] self.snapshot@[i]).position == previous[i].position by {
            assert(derived::<T, S, M>(
                self.entries@[i],
                self.format,
                previous,
                self.snapshot@[i],
            ));
            lemma_carried_present(previous, i);
        }
    }
}

} // verus!
