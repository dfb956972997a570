//! What control calls do to a mixer, as later calls tell.

use vstd::prelude::*;

use super::callback::StreamReading;
use super::control::{PlayHandle, StreamState};
use super::entry::{holds, law_cleanup_keeps_the_live, lemma_nothing_ended, not_ended};
use super::guarantees::{adds_up, law_pull_adds_streams_up};
use super::kernel::{MixMath, Position};
use super::mixer::Mixer;
use super::published::MixerSnapshot;
use super::source::{AudioStream, StreamModifier};
use crate::error::AudioError;
use crate::types::AudioFormat;

verus! {

/// The volume that is set is the volume that is read back, for that stream and no
/// other, and nothing else of any stream changes.
pub proof fn law_volume_is_read_back<
    T: Copy + Default,
    S: AudioStream<T>,
    M: StreamModifier<T>,
    K: MixMath<T>,
>(
    mixer: &mut Mixer<T, S, M, K>,
    handle: PlayHandle,
    volume: u32,
    found: bool,
    other: PlayHandle,
    before: Option<StreamState>,
    after: Option<StreamState>,
)
    requires
        old(mixer).wf(),
        call_ensures(Mixer::<T, S, M, K>::state, (&*old(mixer), other), before),
        call_ensures(Mixer::<T, S, M, K>::set_volume, (mixer, handle, volume), found),
        call_ensures(Mixer::<T, S, M, K>::state, (&*final(mixer), other), after),
    ensures
        before is Some <==> after is Some,
        other.id == handle.id ==> (found <==> after is Some),
        before is Some && other.id == handle.id ==> after->0 == (StreamState {
            volume,
            ..before->0
        }),
        before is Some && other.id != handle.id ==> after == before,
{
    lemma_same_ids(*old(mixer), *final(mixer), other);
}

/// Whether a stream is paused is read back as it was set, for that stream and no
/// other, and nothing else of any stream changes.
pub proof fn law_pausing_is_read_back<
    T: Copy + Default,
    S: AudioStream<T>,
    M: StreamModifier<T>,
    K: MixMath<T>,
>(
    mixer: &mut Mixer<T, S, M, K>,
    handle: PlayHandle,
    paused: bool,
    found: bool,
    other: PlayHandle,
    before: Option<StreamState>,
    after: Option<StreamState>,
)
    requires
        old(mixer).wf(),
        call_ensures(Mixer::<T, S, M, K>::state, (&*old(mixer), other), before),
        call_ensures(Mixer::<T, S, M, K>::set_paused, (mixer, handle, paused), found),
        call_ensures(Mixer::<T, S, M, K>::state, (&*final(mixer), other), after),
    ensures
        before is Some <==> after is Some,
        other.id == handle.id ==> (found <==> after is Some),
        before is Some && other.id == handle.id ==> after->0 == (StreamState {
            paused,
            ..before->0
        }),
        before is Some && other.id != handle.id ==> after == before,
{
    lemma_same_ids(*old(mixer), *final(mixer), other);
}

/// The effect that is set is the one that the stream has, and no other stream
/// gets it. No state changes.
pub proof fn law_modifier_is_set<
    T: Copy + Default,
    S: AudioStream<T>,
    M: StreamModifier<T>,
    K: MixMath<T>,
>(
    mixer: &mut Mixer<T, S, M, K>,
    handle: PlayHandle,
    modifier: Option<M>,
    found: bool,
    index: int,
)
    requires
        old(mixer).wf(),
        call_ensures(Mixer::<T, S, M, K>::set_modifier, (mixer, handle, modifier), found),
        0 <= index < old(mixer).entries().len(),
    ensures
        final(mixer).entries().len() == old(mixer).entries().len(),
        final(mixer).entries()[index].modifier == (if old(mixer).entries()[index].id == handle.id {
            modifier
        } else {
            old(mixer).entries()[index].modifier
        }),
        final(mixer).entries()[index].state == old(mixer).entries()[index].state,
        final(mixer).entries()[index].stream == old(mixer).entries()[index].stream,
        old(mixer).entries()[index].id == handle.id ==> found,
{
    assert(final(mixer).entries()[index] == final(mixer).entries()[index]);
}

proof fn lemma_same_ids<T, S, M, K>(
    before: Mixer<T, S, M, K>,
    after: Mixer<T, S, M, K>,
    handle: PlayHandle,
)
    requires
        after.entries().len() == before.entries().len(),
        forall|i: int|
            0 <= i < before.entries().len() ==> (#[trigger] after.entries()[i]).id
                == before.entries()[i].id,
    ensures
        holds(before.entries(), handle.id) <==> holds(after.entries(), handle.id),
        holds(before.entries(), handle.id) ==> exists|i: int|
            0 <= i < before.entries().len() && (#[trigger] before.entries()[i]).id == handle.id
                && after.entries()[i].id == handle.id,
{
    if holds(before.entries(), handle.id) {
        let i = choose|i: int|
            0 <= i < before.entries().len() && (#[trigger] before.entries()[i]).id == handle.id;
        assert(after.entries()[i].id == handle.id);
    }
    if holds(after.entries(), handle.id) {
        let i = choose|i: int|
            0 <= i < after.entries().len() && (#[trigger] after.entries()[i]).id == handle.id;
        assert(before.entries()[i].id == handle.id);
    }
}

/// A stream that is added is there: it is counted, it plays at full volume exactly
/// where that was asked for, and no stream that was there before is touched.
pub proof fn law_added_streams_are_there<
    T: Copy + Default,
    S: AudioStream<T>,
    M: StreamModifier<T>,
    K: MixMath<T>,
>(
    mixer: &mut Mixer<T, S, M, K>,
    stream: S,
    play_immediate: bool,
    handle: PlayHandle,
    counts: (usize, usize),
    state: Option<StreamState>,
    other: PlayHandle,
    before: Option<StreamState>,
    after: Option<StreamState>,
)
    requires
        old(mixer).wf(),
        old(mixer).next_id() < u64::MAX,
        call_ensures(Mixer::<T, S, M, K>::stream_count, (&*old(mixer),), counts.0),
        call_ensures(Mixer::<T, S, M, K>::state, (&*old(mixer), other), before),
        call_ensures(Mixer::<T, S, M, K>::add_stream, (mixer, stream, play_immediate), handle),
        call_ensures(Mixer::<T, S, M, K>::stream_count, (&*final(mixer),), counts.1),
        call_ensures(Mixer::<T, S, M, K>::state, (&*final(mixer), handle), state),
        call_ensures(Mixer::<T, S, M, K>::state, (&*final(mixer), other), after),
    ensures
        counts.1 == counts.0 + 1,
        state == Some(
            StreamState { paused: !play_immediate, alive: true, eof: false, volume: 0x3f80_0000 },
        ),
        final(mixer).entries().last().stream == stream,
        before is Some ==> after == before,
        before is None && other.id != handle.id ==> after is None,
        final(mixer).snapshot().len() == old(mixer).snapshot().len() + 1,
        forall|i: int|
            0 <= i < old(mixer).snapshot().len() ==> (#[trigger] final(mixer).snapshot()[i]).position
                == old(mixer).snapshot()[i].position,
        ({
            let cell = final(mixer).snapshot().last();
            &&& cell.id == handle.id
            &&& cell.position.frame == 0 && cell.position.fraction == 0
            &&& call_ensures(S::sample_rate, (&stream,), cell.ratio.stream_rate)
            &&& cell.ratio.mixer_rate == old(mixer).output_format().sample_rate
            &&& call_ensures(S::channels, (&stream,), cell.stream_channels)
        }),
        final(mixer).entries().last().held@.len() == 0,
        final(mixer).entries().last().modifier is None,
{
    old(mixer).law_format_and_ratios_publish_together();
    final(mixer).law_format_and_ratios_publish_together();
    old(mixer).law_publishing_keeps_positions(
        final(mixer).entries(),
        old(mixer).output_format(),
        final(mixer).snapshot(),
    );
    let added = final(mixer).entries();
    let count = old(mixer).entries().len() as int;
    assert(added[count].id == handle.id);
    if before is Some {
        let i = choose|i: int|
            0 <= i < count && (#[trigger] old(mixer).entries()[i]).id == other.id;
        assert(added[i].id == other.id);
    }
    if after is Some && other.id != handle.id {
        let i = choose|i: int| 0 <= i < added.len() && (#[trigger] added[i]).id == other.id;
        assert(old(mixer).entries()[i].id == other.id);
    }
}

/// Cleaning up removes exactly the streams that have ended: a stream is there
/// afterwards where it was there and had not ended, with the state that it had.
pub proof fn law_cleanup_removes_the_ended<
    T: Copy + Default,
    S: AudioStream<T>,
    M: StreamModifier<T>,
    K: MixMath<T>,
>(
    mixer: &mut Mixer<T, S, M, K>,
    handle: PlayHandle,
    before: Option<StreamState>,
    after: Option<StreamState>,
)
    requires
        old(mixer).wf(),
        call_ensures(Mixer::<T, S, M, K>::state, (&*old(mixer), handle), before),
        call_ensures(Mixer::<T, S, M, K>::cleanup_eof, (mixer,), ()),
        call_ensures(Mixer::<T, S, M, K>::state, (&*final(mixer), handle), after),
    ensures
        after is Some <==> before is Some && !before->0.eof,
        after is Some ==> after == before,
        final(mixer).output_format() == old(mixer).output_format(),
        final(mixer).entries().len() <= old(mixer).entries().len(),
        forall|i: int, j: int|
            0 <= i < final(mixer).snapshot().len() && 0 <= j < old(mixer).snapshot().len() && (
            #[trigger] final(mixer).snapshot()[i]).id == (#[trigger] old(mixer).snapshot()[j]).id
                ==> final(mixer).snapshot()[i].position == old(mixer).snapshot()[j].position,
{
    let entries = old(mixer).entries();
    old(mixer).law_format_and_ratios_publish_together();
    final(mixer).law_format_and_ratios_publish_together();
    if not_ended(entries).len() != entries.len() {
        old(mixer).law_publishing_keeps_positions(
            final(mixer).entries(),
            old(mixer).output_format(),
            final(mixer).snapshot(),
        );
        assert forall|i: int, j: int|
            0 <= i < final(mixer).snapshot().len() && 0 <= j < old(mixer).snapshot().len() && (
            #[trigger] final(mixer).snapshot()[i]).id == (
            #[trigger] old(mixer).snapshot()[j]).id implies final(mixer).snapshot()[i].position
            == old(mixer).snapshot()[j].position by {
            assert(final(mixer).snapshot()[i].id == final(mixer).entries()[i].id);
        }
    } else {
        assert forall|i: int, j: int|
            0 <= i < final(mixer).snapshot().len() && 0 <= j < old(mixer).snapshot().len() && (
            #[trigger] final(mixer).snapshot()[i]).id == (
            #[trigger] old(mixer).snapshot()[j]).id implies final(mixer).snapshot()[i].position
            == old(mixer).snapshot()[j].position by {
            if i < j {
                old(mixer).law_ids_are_unique(i, j);
            }
            if j < i {
                old(mixer).law_ids_are_unique(j, i);
            }
        }
    }
    let kept = final(mixer).entries();
    law_cleanup_keeps_the_live(entries);
    lemma_nothing_ended(entries);
    if before is Some && !before->0.eof {
        let i = choose|i: int| 0 <= i < entries.len() && (#[trigger] entries[i]).id == handle.id;
        assert(!entries[i].state.eof);
        assert(not_ended(entries).contains(entries[i]));
        let j = choose|j: int| 0 <= j < kept.len() && kept[j] == entries[i];
        assert(kept[j].id == handle.id);
    }
    if after is Some {
        let j = choose|j: int| 0 <= j < kept.len() && (#[trigger] kept[j]).id == handle.id;
        assert(!not_ended(entries)[j].state.eof);
        assert(entries.contains(not_ended(entries)[j]));
        let i = choose|i: int| 0 <= i < entries.len() && entries[i] == kept[j];
        assert(entries[i].id == handle.id);
    }
}

/// A device change reconfigures the mixer and is counted, and no stream is touched
/// by it.
pub proof fn law_device_changes_reach_the_mixer<
    T: Copy + Default,
    S: AudioStream<T>,
    M: StreamModifier<T>,
    K: MixMath<T>,
>(
    mixer: &mut Mixer<T, S, M, K>,
    format: AudioFormat,
    told: AudioFormat,
    epochs: (u64, u64),
    frozen: MixerSnapshot,
)
    requires
        old(mixer).wf(),
        call_ensures(Mixer::<T, S, M, K>::device_change_epoch, (&*old(mixer),), epochs.0),
        call_ensures(Mixer::<T, S, M, K>::on_device_format_changed, (mixer, format), ()),
        call_ensures(Mixer::<T, S, M, K>::format, (&*final(mixer),), told),
        call_ensures(Mixer::<T, S, M, K>::device_change_epoch, (&*final(mixer),), epochs.1),
        call_ensures(Mixer::<T, S, M, K>::freeze, (&*final(mixer),), frozen),
    ensures
        told == format,
        epochs.1 == (if epochs.0 == u64::MAX {
            0
        } else {
            epochs.0 + 1
        }),
        final(mixer).entries() == old(mixer).entries(),
        frozen.format == format,
        frozen.entries@.len() == old(mixer).entries().len(),
        forall|i: int|
            0 <= i < frozen.entries@.len() ==> (#[trigger] frozen.entries@[i]).id
                == old(mixer).entries()[i].id && frozen.entries@[i].ratio.mixer_rate
                == format.sample_rate,
        forall|i: int|
            0 <= i < frozen.entries@.len() ==> (#[trigger] frozen.entries@[i]).position == old(mixer).snapshot()[i].position,
        format != old(mixer).output_format() ==> forall|i: int|
            0 <= i < frozen.entries@.len() ==> call_ensures(
                S::sample_rate,
                (&old(mixer).entries()[i].stream,),
                (#[trigger] frozen.entries@[i]).ratio.stream_rate,
            ) && call_ensures(
                S::channels,
                (&old(mixer).entries()[i].stream,),
                frozen.entries@[i].stream_channels,
            ),
{
    old(mixer).law_format_and_ratios_publish_together();
    if format != old(mixer).output_format() {
        old(mixer).law_publishing_keeps_positions(
            old(mixer).entries(),
            format,
            final(mixer).snapshot(),
        );
        assert forall|i: int| 0 <= i < frozen.entries@.len() implies (
        #[trigger] frozen.entries@[i]).position == old(mixer).snapshot()[i].position by {
            assert(old(mixer).snapshot()[i].id == old(mixer).entries()[i].id);
            assert(final(mixer).snapshot()[i].position == old(mixer).snapshot()[i].position);
        }
    }
    final(mixer).law_format_and_ratios_publish_together();
    assert forall|i: int| 0 <= i < frozen.entries@.len() implies (
    #[trigger] frozen.entries@[i]).id == old(mixer).entries()[i].id
        && frozen.entries@[i].ratio.mixer_rate == format.sample_rate by {
        assert(final(mixer).snapshot()[i].id == final(mixer).entries()[i].id);
    }
}

/// A pull keeps what the controls have set: no stream comes or goes, and none is
/// paused, resumed or made louder. One that has ended stays so.
pub proof fn law_pulling_keeps_the_controls<
    T: Copy + Default,
    S: AudioStream<T>,
    M: StreamModifier<T>,
    K: MixMath<T>,
>(
    mixer: &mut Mixer<T, S, M, K>,
    buffer: &mut [T],
    frames: usize,
    handle: PlayHandle,
    before: Option<StreamState>,
    after: Option<StreamState>,
)
    requires
        old(mixer).wf(),
        old(mixer).output_format().channels > 0,
        call_ensures(Mixer::<T, S, M, K>::state, (&*old(mixer), handle), before),
        call_ensures(Mixer::<T, S, M, K>::pull, (mixer, buffer), frames),
        call_ensures(Mixer::<T, S, M, K>::state, (&*final(mixer), handle), after),
    ensures
        before is Some <==> after is Some,
        before is Some ==> after->0 == (StreamState { eof: after->0.eof, ..before->0 }),
        before is Some && before->0.eof ==> after->0.eof,
        before is Some && before->0.paused ==> after == before,
{
    law_pull_adds_streams_up(mixer, buffer, frames);
    let entries = old(mixer).entries();
    let (readings, sums) = choose|readings: Seq<StreamReading<T>>, sums: Seq<Seq<T>>| #[trigger]
        adds_up::<T, S, M, K>(
            old(mixer).output_format().channels,
            frames,
            (entries, final(mixer).entries()),
            (old(mixer).snapshot(), final(mixer).snapshot()),
            readings,
            sums,
        ) && sums.first().len() == old(buffer)@.len() && final(buffer)@ == sums.last();
    assert forall|i: int| 0 <= i < entries.len() implies (
    #[trigger] final(mixer).entries()[i]).id == entries[i].id by {
        let entry = entries[i];
    }
    lemma_same_ids(*old(mixer), *final(mixer), handle);
}

/// Losses and recoveries of the device are counted, each once, and change nothing
/// else.
pub proof fn law_device_events_are_counted<
    T: Copy + Default,
    S: AudioStream<T>,
    M: StreamModifier<T>,
    K: MixMath<T>,
>(
    mixer: &mut Mixer<T, S, M, K>,
    recovered: &mut Mixer<T, S, M, K>,
    epochs: (u64, u64),
)
    requires
        old(mixer).wf(),
        old(mixer).epoch() < u64::MAX - 1,
        call_ensures(Mixer::<T, S, M, K>::device_change_epoch, (&*old(mixer),), epochs.0),
        call_ensures(Mixer::<T, S, M, K>::on_device_invalidated, (mixer,), ()),
        *old(recovered) == *final(mixer),
        call_ensures(Mixer::<T, S, M, K>::on_device_recovered, (recovered,), ()),
        call_ensures(Mixer::<T, S, M, K>::device_change_epoch, (&*final(recovered),), epochs.1),
    ensures
        epochs.1 == epochs.0 + 2,
        final(mixer).epoch() == epochs.0 + 1,
        final(recovered).entries() == old(mixer).entries(),
        final(recovered).snapshot() == old(mixer).snapshot(),
        final(recovered).output_format() == old(mixer).output_format(),
{
}

/// A seek leaves every other stream alone, and so does the news of one that was made
/// elsewhere, after which nothing is held for the stream that was named.
pub proof fn law_seeks_leave_other_streams_alone<
    T: Copy + Default,
    S: AudioStream<T>,
    M: StreamModifier<T>,
    K: MixMath<T>,
>(
    mixer: &mut Mixer<T, S, M, K>,
    handle: PlayHandle,
    frame: u64,
    result: Option<Result<(), AudioError>>,
    told: &mut Mixer<T, S, M, K>,
    found: bool,
    index: int,
)
    requires
        old(mixer).wf(),
        call_ensures(Mixer::<T, S, M, K>::seek, (mixer, handle, frame), result),
        *old(told) == *final(mixer),
        call_ensures(Mixer::<T, S, M, K>::stream_sought, (told, handle), found),
        0 <= index < old(mixer).entries().len(),
    ensures
        old(mixer).entries()[index].id != handle.id ==> final(mixer).entries()[index]
            == old(mixer).entries()[index] && final(told).entries()[index]
            == old(mixer).entries()[index],
        old(mixer).entries()[index].id == handle.id ==> found
            && final(told).entries()[index].held@.len() == 0
            && final(told).entries()[index].state == old(mixer).entries()[index].state
            && final(told).entries()[index].stream == old(mixer).entries()[index].stream,
        final(told).snapshot() == old(mixer).snapshot(),
{
    assert(final(mixer).entries()[index] == final(mixer).entries()[index]);
    assert(final(told).entries()[index] == final(told).entries()[index]);
}

/// A position that is stored is the position of that stream, and nothing that was
/// held for another position is played at it.
pub proof fn law_stored_positions_are_kept<
    T: Copy + Default,
    S: AudioStream<T>,
    M: StreamModifier<T>,
    K: MixMath<T>,
>(mixer: &mut Mixer<T, S, M, K>, index: usize, position: Position, other: int)
    requires
        old(mixer).wf(),
        index < old(mixer).snapshot().len(),
        call_ensures(Mixer::<T, S, M, K>::store_position, (mixer, index, position), ()),
        0 <= other < old(mixer).snapshot().len(),
        other != index,
    ensures
        final(mixer).snapshot()[index as int].position == position,
        final(mixer).snapshot()[index as int].id == old(mixer).snapshot()[index as int].id,
        final(mixer).snapshot()[other] == old(mixer).snapshot()[other],
        final(mixer).entries()[index as int].held@.len() == 0,
        final(mixer).entries()[other] == old(mixer).entries()[other],
{
    old(mixer).law_format_and_ratios_publish_together();
    assert(final(mixer).entries()[other] == final(mixer).entries()[other]);
}

/// A seek asks the stream that was named, once, for the frame that was named, and
/// gives its answer back.
pub proof fn law_seeks_reach_the_stream<
    T: Copy + Default,
    S: AudioStream<T>,
    M: StreamModifier<T>,
    K: MixMath<T>,
>(
    mixer: &mut Mixer<T, S, M, K>,
    handle: PlayHandle,
    frame: u64,
    result: Option<Result<(), AudioError>>,
    index: int,
)
    requires
        old(mixer).wf(),
        call_ensures(Mixer::<T, S, M, K>::seek, (mixer, handle, frame), result),
        0 <= index < old(mixer).entries().len(),
        old(mixer).entries()[index].id == handle.id,
    ensures
        result is Some,
        call_ensures(S::seek, (&old(mixer).entries()[index].stream, frame), result->0),
        final(mixer).entries()[index].state == old(mixer).entries()[index].state,
        result->0 is Ok ==> final(mixer).entries()[index].held@.len() == 0,
        final(mixer).snapshot() == old(mixer).snapshot(),
{
    assert(final(mixer).entries()[index] == final(mixer).entries()[index]);
}

} // verus!
