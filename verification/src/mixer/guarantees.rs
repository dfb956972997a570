//! What a callback makes of the samples of a stream, in terms of the samples
//! themselves.

use std::sync::Arc;

use vstd::prelude::*;

use super::callback::{
    callback_done, frames_in, frames_missing, mixable, silent, source_of, starved, stream_mixed,
    stream_step, StreamReading,
};
use super::control::StreamState;
use super::entry::{MixerEntry, SnapshotEntry};
use super::kernel::{
    clamped, frames_covered, mixed_resampled, readable, samples_passed, source_channel, tapped,
    taps_at, Advance, MixMath, ResampleRatio, Tap,
};
use super::mixer::Mixer;
use super::source::{AudioStream, StreamModifier};
use crate::error::AudioError;

verus! {

/// The number of the source frame behind the last one of a run.
pub open spec fn run_end(run: Advance) -> int {
    if run.end_frame >= 1 {
        run.end_frame as int
    } else {
        1
    }
}

/// Samples that a callback asks a stream for: all frames of its run but those
/// that are held.
pub open spec fn samples_asked<T, S, M>(
    entry: MixerEntry<T, S, M>,
    cell: SnapshotEntry,
    run: Advance,
) -> int {
    let width = cell.stream_channels as int;
    let frames = run_end(run) - run.start_frame - entry.held@.len() as int / width;
    if frames > 0 {
        frames * width
    } else {
        0
    }
}

/// Whether a callback has samples of a stream to mix: the stream plays, its run
/// covers no more samples than a buffer can have, and it provided some of what it
/// was asked for or was asked for nothing because enough is held.
pub open spec fn gives_samples<T, S, M>(
    entry: MixerEntry<T, S, M>,
    cell: SnapshotEntry,
    reading: StreamReading<T>,
) -> bool {
    let width = cell.stream_channels as int;
    let covered = run_end(reading.run) - reading.run.start_frame;
    let asked = samples_asked(entry, cell, reading.run);
    &&& entry.state.alive && !entry.state.paused
    &&& width > 0
    &&& 0 <= covered <= usize::MAX
    &&& covered * width <= usize::MAX
    &&& entry.held@.len() + asked <= usize::MAX
    &&& reading.count <= asked
    &&& reading.count > 0 || (asked == 0 && entry.held@.len() >= width)
}

proof fn lemma_gives_samples<T, S, M>(
    entry: MixerEntry<T, S, M>,
    cell: SnapshotEntry,
    reading: StreamReading<T>,
)
    requires
        gives_samples(entry, cell, reading),
    ensures
        readable(reading.run, cell.stream_channels),
        !starved(entry, cell, reading),
        mixable(entry, cell, reading),
        frames_missing(entry, cell, reading.run) * cell.stream_channels == samples_asked(
            entry,
            cell,
            reading.run,
        ),
        frames_missing(entry, cell, reading.run) >= 0,
        frames_in(reading.count as int, cell.stream_channels) <= frames_missing(
            entry,
            cell,
            reading.run,
        ),
        frames_in(reading.count as int, cell.stream_channels) == reading.count as int
            / cell.stream_channels as int,
        0 <= (reading.count as int / cell.stream_channels as int) * cell.stream_channels
            <= reading.count,
{
    let width = cell.stream_channels as int;
    let missing = frames_missing(entry, cell, reading.run);
    let count = reading.count as int;
    assert(frames_covered(reading.run) == run_end(reading.run) - reading.run.start_frame);
    assert(count / width <= missing && 0 <= (count / width) * width <= count) by (nonlinear_arith)
        requires
            width > 0,
            missing >= 0,
            0 <= count <= missing * width,
    ;
    assert(missing == 0 ==> missing * width == 0);
    assert(missing > 0 ==> missing * width > 0) by (nonlinear_arith)
        requires
            width > 0,
    ;
}

/// What a callback does with an active stream that gives samples, but for mixing
/// them.
///
/// The stream is asked for the frames of the run that are not held, and then
/// whether it has ended. What it provided, in whole frames, goes through the
/// effect once, with silence behind it where it is short. The position moves to
/// the end of the run, and all samples from there on are held.
pub proof fn law_active_streams_move_on<
    T: Default,
    S: AudioStream<T>,
    M: StreamModifier<T>,
    K: MixMath<T>,
>(
    channels: u16,
    frame_count: usize,
    entry: MixerEntry<T, S, M>,
    cell: SnapshotEntry,
    reading: StreamReading<T>,
    before: Seq<T>,
    next_entry: MixerEntry<T, S, M>,
    next_cell: SnapshotEntry,
    after: Seq<T>,
)
    requires
        stream_step::<T, S, M, K>(
            channels,
            frame_count,
            entry,
            cell,
            reading,
            before,
            next_entry,
            next_cell,
            after,
        ),
        gives_samples(entry, cell, reading),
    ensures
        ({
            let width = cell.stream_channels as int;
            let asked = samples_asked(entry, cell, reading.run);
            let whole = (reading.count as int / width) * width;
            let source = entry.held@ + reading.modified;
            let passed = (reading.run.next_position.frame - reading.run.start_frame) * width;
            &&& reading.offered.len() == asked && reading.provided.len() == asked
            &&& entry.stream.provides(
                (asked / width) as u64,
                reading.offered,
                reading.provided,
                reading.count,
            )
            &&& call_ensures(S::is_eof, (&entry.stream,), reading.ended)
            &&& reading.padded.len() == asked && reading.modified.len() == asked
            &&& forall|i: int| 0 <= i < whole ==> #[trigger] reading.padded[i] == reading.provided[i]
            &&& forall|i: int|
                whole <= i < asked ==> call_ensures(T::default, (), #[trigger] reading.padded[i])
            &&& forall|i: int|
                whole <= i < asked ==> #[trigger] reading.modified[i] == reading.padded[i]
            &&& entry.modifier is None ==> reading.modified == reading.padded
            &&& entry.modifier is Some ==> entry.modifier->0.modifies(
                reading.provided.take(whole),
                reading.modified.take(whole),
            )
            &&& next_cell == (SnapshotEntry { position: reading.run.next_position, ..cell })
            &&& next_entry == (MixerEntry {
                state: StreamState { eof: entry.state.eof || reading.ended, ..entry.state },
                held: next_entry.held,
                ..entry
            })
            &&& 0 <= passed <= source.len() ==> next_entry.held@ == source.skip(passed)
        }),
{
    lemma_gives_samples(entry, cell, reading);
    let width = cell.stream_channels as int;
    let asked = samples_asked(entry, cell, reading.run);
    let whole = (reading.count as int / width) * width;
    let missing = frames_missing(entry, cell, reading.run);
    assert(asked / width == missing) by (nonlinear_arith)
        requires
            asked == missing * width,
            width > 0,
    ;
    assert(stream_mixed::<T, S, M, K>(
        entry,
        cell,
        channels,
        frame_count,
        reading,
        before,
        after,
    ));
    if entry.modifier is Some {
        assert(reading.padded.take(whole) =~= reading.provided.take(whole));
        assert forall|i: int| whole <= i < asked implies #[trigger] reading.modified[i]
            == reading.padded[i] by {
            assert(reading.modified.skip(whole)[i - whole] == reading.padded.skip(whole)[i - whole]);
        }
    }
    let source = entry.held@ + reading.modified;
    let passed = (reading.run.next_position.frame - reading.run.start_frame) * width;
    if 0 <= passed <= source.len() {
        assert(samples_passed(reading.run, width, source.len() as int) == passed);
    }
}

/// A run starts where the one before ended. At the mixer's rate it moves by as
/// many source frames as there are output frames, and whatever fraction of a frame
/// it starts behind one is kept; at any other rate the host says where it ends.
pub proof fn law_runs_move_the_position<
    T: Default,
    S: AudioStream<T>,
    M: StreamModifier<T>,
    K: MixMath<T>,
>(
    channels: u16,
    frame_count: usize,
    entry: MixerEntry<T, S, M>,
    cell: SnapshotEntry,
    reading: StreamReading<T>,
    before: Seq<T>,
    next_entry: MixerEntry<T, S, M>,
    next_cell: SnapshotEntry,
    after: Seq<T>,
)
    requires
        stream_step::<T, S, M, K>(
            channels,
            frame_count,
            entry,
            cell,
            reading,
            before,
            next_entry,
            next_cell,
            after,
        ),
        gives_samples(entry, cell, reading),
        cell.position.frame + frame_count < u64::MAX,
    ensures
        cell.ratio.stream_rate == cell.ratio.mixer_rate && cell.ratio.mixer_rate > 0 ==> {
            &&& reading.run.start_frame == cell.position.frame
            &&& reading.run.fraction == cell.position.fraction
            &&& run_end(reading.run) == cell.position.frame + frame_count
                || cell.position.fraction != 0 || cell.position.frame + frame_count == 0
            &&& cell.position.fraction != 0 ==> run_end(reading.run) == cell.position.frame
                + frame_count + 1
            &&& next_cell.position.frame == cell.position.frame + frame_count
            &&& next_cell.position.fraction == cell.position.fraction
        },
        !(cell.ratio.stream_rate == cell.ratio.mixer_rate && cell.ratio.mixer_rate > 0) ==> {
            &&& call_ensures(K::advance, (cell.position, cell.ratio, frame_count), reading.run)
            &&& next_cell.position == reading.run.next_position
        },
{
    lemma_gives_samples(entry, cell, reading);
}

/// What one output sample of an active stream is made of: `first` and `second`
/// are the source samples that it lies between, `weight` how far behind the first.
///
/// Output channels take the source channel of their number, or the last one where
/// there are fewer. Without weight the sample is the first of the two, otherwise
/// what the host says lies between them, and it is added at the volume of the
/// stream.
pub open spec fn sample_added<T, K: MixMath<T>>(
    first: T,
    second: T,
    weight: u64,
    volume: u32,
    before: T,
    after: T,
) -> bool {
    exists|sample: T|
        (if weight == 0 {
            sample == first
        } else {
            call_ensures(K::interpolate, (first, second, weight), sample)
        }) && #[trigger] call_ensures(K::accumulate, (before, sample, volume), after)
}

proof fn lemma_index(frame: int, frames: int, channel: int, channels: int)
    requires
        0 <= frame < frames,
        0 <= channel < channels,
    ensures
        0 <= frame * channels + channel < frames * channels,
{
    assert(0 <= frame * channels + channel < frames * channels) by (nonlinear_arith)
        requires
            0 <= frame < frames,
            0 <= channel < channels,
    ;
}

/// Every output sample of a stream that is resampled lies between two samples of
/// one source channel, in neighbouring source frames, and is added at the volume
/// of the stream.
///
/// `tap` is where output frame `frame` lies in the frames from the start of the
/// run on. Behind the last of them, the last one is repeated.
pub proof fn law_resampled_samples_lie_between_neighbours<
    T: Default,
    S: AudioStream<T>,
    M: StreamModifier<T>,
    K: MixMath<T>,
>(
    channels: u16,
    frame_count: usize,
    entry: MixerEntry<T, S, M>,
    cell: SnapshotEntry,
    reading: StreamReading<T>,
    before: Seq<T>,
    next_entry: MixerEntry<T, S, M>,
    next_cell: SnapshotEntry,
    after: Seq<T>,
    frame: int,
    channel: int,
)
    requires
        stream_step::<T, S, M, K>(
            channels,
            frame_count,
            entry,
            cell,
            reading,
            before,
            next_entry,
            next_cell,
            after,
        ),
        gives_samples(entry, cell, reading),
        !reading.unity || cell.stream_channels != channels,
        before.len() >= frame_count * channels,
        0 <= frame < frame_count,
        0 <= channel < channels,
    ensures
        ({
            let width = cell.stream_channels as int;
            let source = entry.held@ + reading.modified;
            let frames = entry.held@.len() as int / width + samples_asked(entry, cell, reading.run)
                / width;
            let tap = reading.taps[frame];
            let last = frames - 1;
            let at = if tap.index < last {
                tap.index as int
            } else {
                last
            };
            let next = if at < last {
                at + 1
            } else {
                last
            };
            let from = if channel < width {
                channel
            } else {
                width - 1
            };
            &&& after.len() == before.len()
            &&& frames > 0
            &&& 0 <= at * width + from < source.len()
            &&& 0 <= next * width + from < source.len()
            &&& sample_added::<T, K>(
                source[at * width + from],
                source[next * width + from],
                tap.weight,
                entry.state.volume,
                before[frame * channels + channel],
                after[frame * channels + channel],
            )
        }),
{
    lemma_gives_samples(entry, cell, reading);
    let width = cell.stream_channels as int;
    let held = entry.held@.len() as int;
    let missing = frames_missing(entry, cell, reading.run);
    let asked = samples_asked(entry, cell, reading.run);
    let source = source_of(entry, reading);
    assert(asked / width == missing) by (nonlinear_arith)
        requires
            asked == missing * width,
            width > 0,
    ;
    let frames = held / width + missing;
    assert(stream_mixed::<T, S, M, K>(
        entry,
        cell,
        channels,
        frame_count,
        reading,
        before,
        after,
    ));
    assert(frames > 0 && frames * width <= source.len()) by (nonlinear_arith)
        requires
            width > 0,
            held >= 0,
            missing >= 0,
            frames == held / width + missing,
            source.len() == held + missing * width,
            run_end(reading.run) - reading.run.start_frame >= 0,
            missing > 0 || held >= width,
    ;
    let tap = reading.taps[frame];
    let at = clamped(tap.index as int, frames);
    let next = clamped(at + 1, frames);
    let from = source_channel(channel, width);
    lemma_index(at, frames, from, width);
    lemma_index(next, frames, from, width);
    assert(tapped::<T, K>(
        source,
        width,
        frames,
        channel,
        tap,
        entry.state.volume,
        before[frame * channels + channel],
        after[frame * channels + channel],
    ));
}

/// Where output frame `frame` lies in the frames from the start of the run on: at
/// the mixer's rate on the source frame of its number, or as far behind it as the
/// run starts behind a frame, and at any other rate where the host says.
pub proof fn law_taps_follow_the_run<
    T: Default,
    S: AudioStream<T>,
    M: StreamModifier<T>,
    K: MixMath<T>,
>(
    channels: u16,
    frame_count: usize,
    entry: MixerEntry<T, S, M>,
    cell: SnapshotEntry,
    reading: StreamReading<T>,
    before: Seq<T>,
    next_entry: MixerEntry<T, S, M>,
    next_cell: SnapshotEntry,
    after: Seq<T>,
    frame: int,
)
    requires
        stream_step::<T, S, M, K>(
            channels,
            frame_count,
            entry,
            cell,
            reading,
            before,
            next_entry,
            next_cell,
            after,
        ),
        gives_samples(entry, cell, reading),
        !reading.unity || cell.stream_channels != channels,
        0 <= frame < frame_count,
    ensures
        ({
            let width = cell.stream_channels as int;
            let frames = entry.held@.len() as int / width + samples_asked(entry, cell, reading.run)
                / width;
            let tap = reading.taps[frame];
            if cell.ratio.stream_rate == cell.ratio.mixer_rate && cell.ratio.mixer_rate > 0 {
                &&& frame + 1 < frames ==> tap.index == frame && tap.weight
                    == cell.position.fraction
                &&& frame + 1 >= frames ==> tap.index == frames - 1 && tap.weight == 0
            } else {
                call_ensures(
                    K::tap,
                    (reading.run, cell.ratio, frame as usize, frames as usize),
                    tap,
                )
            }
        }),
{
    lemma_gives_samples(entry, cell, reading);
    let width = cell.stream_channels as int;
    let held = entry.held@.len() as int;
    let missing = frames_missing(entry, cell, reading.run);
    let asked = samples_asked(entry, cell, reading.run);
    let source = source_of(entry, reading);
    assert(asked / width == missing) by (nonlinear_arith)
        requires
            asked == missing * width,
            width > 0,
    ;
    let frames = held / width + missing;
    assert(0 < frames <= usize::MAX) by (nonlinear_arith)
        requires
            width > 0,
            held >= 0,
            missing >= 0,
            frames == held / width + missing,
            held + missing * width <= usize::MAX,
            missing > 0 || held >= width,
    ;
    assert(stream_mixed::<T, S, M, K>(
        entry,
        cell,
        channels,
        frame_count,
        reading,
        before,
        after,
    ));
    assert(taps_at::<T, K>(reading.run, cell.ratio, frame, frames, reading.taps[frame]));
}

/// A stream of the output's channels that needs no resampling is added sample by
/// sample at its volume, as far as it has samples and there is room.
pub proof fn law_direct_samples_are_added<
    T: Default,
    S: AudioStream<T>,
    M: StreamModifier<T>,
    K: MixMath<T>,
>(
    channels: u16,
    frame_count: usize,
    entry: MixerEntry<T, S, M>,
    cell: SnapshotEntry,
    reading: StreamReading<T>,
    before: Seq<T>,
    next_entry: MixerEntry<T, S, M>,
    next_cell: SnapshotEntry,
    after: Seq<T>,
)
    requires
        stream_step::<T, S, M, K>(
            channels,
            frame_count,
            entry,
            cell,
            reading,
            before,
            next_entry,
            next_cell,
            after,
        ),
        gives_samples(entry, cell, reading),
        cell.stream_channels == channels,
        reading.unity,
    ensures
        ({
            let whole = (reading.count as int / channels as int) * channels;
            let source = entry.held@ + reading.modified;
            &&& after.len() == before.len()
            &&& forall|i: int|
                0 <= i < before.len() && i < entry.held@.len() + whole ==> call_ensures(
                    K::accumulate,
                    (before[i], source[i], entry.state.volume),
                    #[trigger] after[i],
                )
            &&& forall|i: int|
                entry.held@.len() + whole <= i < before.len() ==> #[trigger] after[i] == before[i]
        }),
{
    lemma_gives_samples(entry, cell, reading);
    assert(stream_mixed::<T, S, M, K>(
        entry,
        cell,
        channels,
        frame_count,
        reading,
        before,
        after,
    ));
}

/// Equal rates need no resampling; of other rates the host says whether they do.
pub proof fn law_equal_rates_need_no_resampling<
    T: Default,
    S: AudioStream<T>,
    M: StreamModifier<T>,
    K: MixMath<T>,
>(
    channels: u16,
    frame_count: usize,
    entry: MixerEntry<T, S, M>,
    cell: SnapshotEntry,
    reading: StreamReading<T>,
    before: Seq<T>,
    next_entry: MixerEntry<T, S, M>,
    next_cell: SnapshotEntry,
    after: Seq<T>,
)
    requires
        stream_step::<T, S, M, K>(
            channels,
            frame_count,
            entry,
            cell,
            reading,
            before,
            next_entry,
            next_cell,
            after,
        ),
        gives_samples(entry, cell, reading),
    ensures
        if cell.ratio.stream_rate == cell.ratio.mixer_rate && cell.ratio.mixer_rate > 0 {
            reading.unity
        } else {
            call_ensures(K::is_unity, (cell.ratio,), reading.unity)
        },
{
    lemma_gives_samples(entry, cell, reading);
}

/// Whether the host's arithmetic on samples gives one result for one input.
pub open spec fn one_result<T, K: MixMath<T>>() -> bool {
    &&& forall|first: T, second: T, weight: u64, a: T, b: T|
        #[trigger] call_ensures(K::interpolate, (first, second, weight), a)
            && #[trigger] call_ensures(K::interpolate, (first, second, weight), b) ==> a == b
    &&& forall|sum: T, sample: T, volume: u32, a: T, b: T|
        #[trigger] call_ensures(K::accumulate, (sum, sample, volume), a)
            && #[trigger] call_ensures(K::accumulate, (sum, sample, volume), b) ==> a == b
}

/// Channels are mixed apart, whatever the rates: where two streams give the same
/// samples in the source channel that feeds an output channel, that output channel
/// is the same, whatever they give in the others.
///
/// `first` and `second` are all samples of the two from the start of the run on,
/// and `from` is the source channel that feeds `channel`: the one of its number, or
/// the last. The two have the same length, their output frames lie at the same places, and
/// their volumes and what was accumulated before in that output channel agree.
pub proof fn law_channels_are_mixed_apart<T, K: MixMath<T>>(
    first: Seq<T>,
    second: Seq<T>,
    source_channels: int,
    source_frames: int,
    channels: int,
    run: Advance,
    ratio: ResampleRatio,
    frame_count: int,
    volume: u32,
    taps: Seq<Tap>,
    before: (Seq<T>, Seq<T>),
    after: (Seq<T>, Seq<T>),
    channel: int,
    from: int,
)
    requires
        one_result::<T, K>(),
        source_channels > 0,
        source_frames > 0,
        first.len() == second.len() >= source_frames * source_channels,
        before.0.len() == before.1.len() >= frame_count * channels,
        mixed_resampled::<T, K>(
            first,
            source_channels,
            source_frames,
            channels,
            run,
            ratio,
            frame_count,
            volume,
            before.0,
            after.0,
            taps,
        ),
        mixed_resampled::<T, K>(
            second,
            source_channels,
            source_frames,
            channels,
            run,
            ratio,
            frame_count,
            volume,
            before.1,
            after.1,
            taps,
        ),
        0 <= channel < channels,
        from == (if channel < source_channels {
            channel
        } else {
            source_channels - 1
        }),
        forall|g: int|
            0 <= g < source_frames ==> #[trigger] first[g * source_channels + from]
                == second[g * source_channels + from],
        forall|f: int|
            0 <= f < frame_count ==> #[trigger] before.0[f * channels + channel]
                == before.1[f * channels + channel],
    ensures
        forall|f: int|
            0 <= f < frame_count ==> #[trigger] after.0[f * channels + channel]
                == after.1[f * channels + channel],
{
    assert forall|f: int| 0 <= f < frame_count implies #[trigger] after.0[f * channels + channel]
        == after.1[f * channels + channel] by {
        let tap = taps[f];
        let at = clamped(tap.index as int, source_frames);
        let next = clamped(at + 1, source_frames);
        assert(first[at * source_channels + from] == second[at * source_channels + from]);
        assert(first[next * source_channels + from] == second[next * source_channels + from]);
        assert(before.0[f * channels + channel] == before.1[f * channels + channel]);
        assert(tapped::<T, K>(
            first,
            source_channels,
            source_frames,
            channel,
            tap,
            volume,
            before.0[f * channels + channel],
            after.0[f * channels + channel],
        ));
        assert(after.1[f * channels + channel] == after.1[f * channels + channel]);
        assert(tapped::<T, K>(
            second,
            source_channels,
            source_frames,
            channel,
            tap,
            volume,
            before.1[f * channels + channel],
            after.1[f * channels + channel],
        ));
    }
}

/// A callback is local: where two streams give the same two samples around the
/// place of an output frame, in the channel that feeds an output channel, that
/// output sample is the same, whatever else they give.
pub proof fn law_resampling_is_local<T, K: MixMath<T>>(
    first: Seq<T>,
    second: Seq<T>,
    source_channels: int,
    source_frames: int,
    channels: int,
    run: Advance,
    ratio: ResampleRatio,
    frame_count: int,
    volume: u32,
    taps: Seq<Tap>,
    before: (Seq<T>, Seq<T>),
    after: (Seq<T>, Seq<T>),
    frame: int,
    channel: int,
)
    requires
        one_result::<T, K>(),
        source_channels > 0,
        mixed_resampled::<T, K>(
            first,
            source_channels,
            source_frames,
            channels,
            run,
            ratio,
            frame_count,
            volume,
            before.0,
            after.0,
            taps,
        ),
        mixed_resampled::<T, K>(
            second,
            source_channels,
            source_frames,
            channels,
            run,
            ratio,
            frame_count,
            volume,
            before.1,
            after.1,
            taps,
        ),
        0 <= frame < frame_count,
        0 <= channel < channels,
        taps[frame].index + 1 < source_frames,
        before.0[frame * channels + channel] == before.1[frame * channels + channel],
        ({
            let from = if channel < source_channels {
                channel
            } else {
                source_channels - 1
            };
            let at = taps[frame].index as int;
            &&& first[at * source_channels + from] == second[at * source_channels + from]
            &&& first[(at + 1) * source_channels + from] == second[(at + 1) * source_channels
                + from]
        }),
    ensures
        after.0[frame * channels + channel] == after.1[frame * channels + channel],
{
    assert(tapped::<T, K>(
        first,
        source_channels,
        source_frames,
        channel,
        taps[frame],
        volume,
        before.0[frame * channels + channel],
        after.0[frame * channels + channel],
    ));
    assert(tapped::<T, K>(
        second,
        source_channels,
        source_frames,
        channel,
        taps[frame],
        volume,
        before.1[frame * channels + channel],
        after.1[frame * channels + channel],
    ));
}

/// The volume of a stream reaches every sample that is mixed of it, at any rate:
/// a step leaves an accumulated sample as it is or adds something to it at the
/// volume in the state of the stream.
pub proof fn law_volume_reaches_every_sample<
    T: Default,
    S: AudioStream<T>,
    M: StreamModifier<T>,
    K: MixMath<T>,
>(
    channels: u16,
    frame_count: usize,
    entry: MixerEntry<T, S, M>,
    cell: SnapshotEntry,
    reading: StreamReading<T>,
    before: Seq<T>,
    next_entry: MixerEntry<T, S, M>,
    next_cell: SnapshotEntry,
    after: Seq<T>,
)
    requires
        stream_step::<T, S, M, K>(
            channels,
            frame_count,
            entry,
            cell,
            reading,
            before,
            next_entry,
            next_cell,
            after,
        ),
        before.len() >= frame_count * channels,
        channels > 0,
    ensures
        after.len() == before.len(),
        forall|i: int|
            0 <= i < before.len() && #[trigger] after[i] != before[i] ==> exists|sample: T| #[trigger]
                call_ensures(
                    K::accumulate,
                    (before[i], sample, entry.state.volume),
                    after[i],
                ),
{
    let active = entry.state.alive && !entry.state.paused;
    if active && readable(reading.run, cell.stream_channels) && !starved(entry, cell, reading)
        && mixable(entry, cell, reading) {
        let width = cell.stream_channels as int;
        let ch = channels as int;
        assert(stream_mixed::<T, S, M, K>(
            entry,
            cell,
            channels,
            frame_count,
            reading,
            before,
            after,
        ));
        assert forall|i: int|
            0 <= i < before.len() && #[trigger] after[i] != before[i] implies exists|sample: T| #[trigger]
            call_ensures(K::accumulate, (before[i], sample, entry.state.volume), after[i]) by {
            if !(reading.unity && cell.stream_channels == channels) {
                let f = i / ch;
                let c = i % ch;
                assert(i == f * ch + c && 0 <= c < ch && 0 <= f && (i < frame_count * ch ==> f
                    < frame_count)) by (nonlinear_arith)
                    requires
                        ch > 0,
                        i >= 0,
                        f == i / ch,
                        c == i % ch,
                ;
                assert(i < frame_count * ch);
                assert(after[f * ch + c] == after[i]);
                assert(before[f * ch + c] == before[i]);
                let frames = frames_in(entry.held@.len() as int, cell.stream_channels)
                    + super::callback::frames_added(
                    frames_missing(entry, cell, reading.run),
                    reading.count,
                    cell.stream_channels,
                );
                assert(tapped::<T, K>(
                    source_of(entry, reading),
                    width,
                    frames,
                    c,
                    reading.taps[f],
                    entry.state.volume,
                    before[f * ch + c],
                    after[f * ch + c],
                ));
            } else {
                assert(call_ensures(
                    K::accumulate,
                    (before[i], source_of(entry, reading)[i], entry.state.volume),
                    after[i],
                ));
            }
        }
    }
}

/// Whether adding anything at the given volume leaves every sum as it is.
pub open spec fn mutes<T, K: MixMath<T>>(volume: u32) -> bool {
    forall|sum: T, sample: T, result: T|
        #[trigger] call_ensures(K::accumulate, (sum, sample, volume), result) ==> result == sum
}

/// A pull fills its buffer with what its streams add up to, one after another from
/// silence, and reports the whole frames of it.
pub proof fn law_pull_adds_streams_up<
    T: Copy + Default,
    S: AudioStream<T>,
    M: StreamModifier<T>,
    K: MixMath<T>,
>(mixer: &mut Mixer<T, S, M, K>, buffer: &mut [T], frames: usize)
    requires
        call_ensures(Mixer::<T, S, M, K>::pull, (mixer, buffer), frames),
        old(mixer).wf(),
        old(mixer).output_format().channels > 0,
    ensures
        final(mixer).wf(),
        final(buffer)@.len() == old(buffer)@.len(),
        frames * old(mixer).output_format().channels <= old(buffer)@.len() < (frames + 1)
            * old(mixer).output_format().channels,
        final(mixer).entries().len() == old(mixer).entries().len(),
        final(mixer).output_format() == old(mixer).output_format(),
        exists|readings: Seq<StreamReading<T>>, sums: Seq<Seq<T>>| #[trigger]
            adds_up::<T, S, M, K>(
                old(mixer).output_format().channels,
                frames,
                (old(mixer).entries(), final(mixer).entries()),
                (old(mixer).snapshot(), final(mixer).snapshot()),
                readings,
                sums,
            ) && sums.first().len() == old(buffer)@.len() && final(buffer)@ == sums.last(),
{
    let channels = old(mixer).output_format().channels;
    let len = old(buffer)@.len();
    assert(frames * channels <= len < (frames + 1) * channels) by (nonlinear_arith)
        requires
            frames == len as int / channels as int,
            channels > 0,
    ;
    let (readings, sums) = choose|readings: Seq<StreamReading<T>>, sums: Seq<Seq<T>>|
        #[trigger] callback_done::<T, S, M, K>(
            channels,
            frames,
            old(mixer).entries(),
            old(mixer).snapshot(),
            final(mixer).entries(),
            final(mixer).snapshot(),
            readings,
            sums,
        ) && silent(sums.first()) && sums.first().len() == len && final(buffer)@ == sums.last();
    assert(adds_up::<T, S, M, K>(
        channels,
        frames,
        (old(mixer).entries(), final(mixer).entries()),
        (old(mixer).snapshot(), final(mixer).snapshot()),
        readings,
        sums,
    ));
}

/// Whether `sums` is what was accumulated before each stream and after the last,
/// from silence, where each stream makes its step on what the ones before it have
/// left.
pub open spec fn adds_up<T: Default, S: AudioStream<T>, M: StreamModifier<T>, K: MixMath<T>>(
    channels: u16,
    frames: usize,
    entries: (Seq<MixerEntry<T, S, M>>, Seq<MixerEntry<T, S, M>>),
    cells: (Seq<SnapshotEntry>, Seq<SnapshotEntry>),
    readings: Seq<StreamReading<T>>,
    sums: Seq<Seq<T>>,
) -> bool {
    &&& sums.len() == entries.0.len() + 1
    &&& forall|k: int|
        0 <= k < sums[0].len() ==> call_ensures(T::default, (), #[trigger] sums[0][k])
    &&& forall|i: int|
        0 <= i < entries.0.len() ==> stream_step::<T, S, M, K>(
            channels,
            frames,
            #[trigger] entries.0[i],
            cells.0[i],
            readings[i],
            sums[i],
            entries.1[i],
            cells.1[i],
            sums[i + 1],
        )
}

/// Streams that are paused or muted are not heard, whatever their rates: where
/// every stream is, a pull gives silence.
pub proof fn law_muted_streams_are_not_heard<
    T: Copy + Default,
    S: AudioStream<T>,
    M: StreamModifier<T>,
    K: MixMath<T>,
>(mixer: &mut Mixer<T, S, M, K>, buffer: &mut [T], frames: usize)
    requires
        call_ensures(Mixer::<T, S, M, K>::pull, (mixer, buffer), frames),
        old(mixer).wf(),
        old(mixer).output_format().channels > 0,
        forall|i: int|
            0 <= i < old(mixer).entries().len() ==> (#[trigger] old(mixer).entries()[i]).state.paused
                || mutes::<T, K>(old(mixer).entries()[i].state.volume),
    ensures
        forall|k: int|
            0 <= k < final(buffer)@.len() ==> call_ensures(
                T::default,
                (),
                #[trigger] final(buffer)@[k],
            ),
{
    law_pull_adds_streams_up(mixer, buffer, frames);
    let channels = old(mixer).output_format().channels;
    let entries = old(mixer).entries();
    let (readings, sums) = choose|readings: Seq<StreamReading<T>>, sums: Seq<Seq<T>>| #[trigger]
        adds_up::<T, S, M, K>(
            channels,
            frames,
            (entries, final(mixer).entries()),
            (old(mixer).snapshot(), final(mixer).snapshot()),
            readings,
            sums,
        ) && sums.first().len() == old(buffer)@.len() && final(buffer)@ == sums.last();
    lemma_muted_up_to::<T, S, M, K>(
        channels,
        frames,
        (entries, final(mixer).entries()),
        (old(mixer).snapshot(), final(mixer).snapshot()),
        readings,
        sums,
        entries.len() as int,
    );
    assert(final(buffer)@ == sums[0]);
}

proof fn lemma_muted_up_to<T: Default, S: AudioStream<T>, M: StreamModifier<T>, K: MixMath<T>>(
    channels: u16,
    frames: usize,
    entries: (Seq<MixerEntry<T, S, M>>, Seq<MixerEntry<T, S, M>>),
    cells: (Seq<SnapshotEntry>, Seq<SnapshotEntry>),
    readings: Seq<StreamReading<T>>,
    sums: Seq<Seq<T>>,
    count: int,
)
    requires
        adds_up::<T, S, M, K>(channels, frames, entries, cells, readings, sums),
        channels > 0,
        sums[0].len() >= frames * channels,
        forall|i: int|
            0 <= i < entries.0.len() ==> (#[trigger] entries.0[i]).state.paused || mutes::<T, K>(
                entries.0[i].state.volume,
            ),
        0 <= count <= entries.0.len(),
    ensures
        sums[count] == sums[0],
    decreases count,
{
    if count > 0 {
        let i = count - 1;
        lemma_muted_up_to::<T, S, M, K>(channels, frames, entries, cells, readings, sums, i);
        let entry = entries.0[i];
        law_volume_reaches_every_sample::<T, S, M, K>(
            channels,
            frames,
            entry,
            cells.0[i],
            readings[i],
            sums[i],
            entries.1[i],
            cells.1[i],
            sums[count],
        );
        if !entry.state.paused {
            assert forall|k: int| 0 <= k < sums[i].len() implies sums[count][k] == sums[i][k] by {
                if sums[count][k] != sums[i][k] {
                    let sample = choose|sample: T| #[trigger]
                        call_ensures(
                            K::accumulate,
                            (sums[i][k], sample, entry.state.volume),
                            sums[count][k],
                        );
                }
            }
        }
        assert(sums[count] =~= sums[i]);
    }
}

/// A shared stream is the stream that is shared: whatever it provides and answers,
/// that stream does.
pub proof fn law_shared_streams_are_their_streams<T, S: AudioStream<T>>(
    stream: Arc<S>,
    frame_count: u64,
    before: Seq<T>,
    after: Seq<T>,
    count: usize,
    eof: bool,
    channels: u16,
    rate: u32,
    frame: u64,
    result: Result<(), AudioError>,
)
    ensures
        stream.provides(frame_count, before, after, count) <==> (*stream).provides(
            frame_count,
            before,
            after,
            count,
        ),
        call_ensures(<Arc<S> as AudioStream<T>>::is_eof, (&stream,), eof) ==> call_ensures(
            S::is_eof,
            (&*stream,),
            eof,
        ),
        call_ensures(<Arc<S> as AudioStream<T>>::channels, (&stream,), channels) ==> call_ensures(
            S::channels,
            (&*stream,),
            channels,
        ),
        call_ensures(<Arc<S> as AudioStream<T>>::sample_rate, (&stream,), rate) ==> call_ensures(
            S::sample_rate,
            (&*stream,),
            rate,
        ),
        call_ensures(<Arc<S> as AudioStream<T>>::seek, (&stream, frame), result) ==> call_ensures(
            S::seek,
            (&*stream, frame),
            result,
        ),
{
}

/// A stream that plays and is asked for frames but gives none is not heard in this
/// callback. It waits where it is, unless it says that it has ended: then it is
/// flagged, its run is over, and nothing is held for it any more.
pub proof fn law_streams_without_samples_wait<
    T: Default,
    S: AudioStream<T>,
    M: StreamModifier<T>,
    K: MixMath<T>,
>(
    channels: u16,
    frame_count: usize,
    entry: MixerEntry<T, S, M>,
    cell: SnapshotEntry,
    reading: StreamReading<T>,
    before: Seq<T>,
    next_entry: MixerEntry<T, S, M>,
    next_cell: SnapshotEntry,
    after: Seq<T>,
)
    requires
        stream_step::<T, S, M, K>(
            channels,
            frame_count,
            entry,
            cell,
            reading,
            before,
            next_entry,
            next_cell,
            after,
        ),
        entry.state.alive && !entry.state.paused,
        cell.stream_channels > 0,
        0 <= run_end(reading.run) - reading.run.start_frame <= usize::MAX,
        (run_end(reading.run) - reading.run.start_frame) * cell.stream_channels <= usize::MAX,
        samples_asked(entry, cell, reading.run) > 0,
        reading.count == 0,
    ensures
        after == before,
        call_ensures(S::is_eof, (&entry.stream,), reading.ended),
        !reading.ended ==> next_entry == entry && next_cell == cell,
        reading.ended ==> {
            &&& next_entry.state == (StreamState { eof: true, ..entry.state })
            &&& next_entry.held@.len() == 0
            &&& next_entry.stream == entry.stream && next_entry.id == entry.id
            &&& next_entry.modifier == entry.modifier
            &&& next_cell == (SnapshotEntry { position: reading.run.next_position, ..cell })
        },
{
    let width = cell.stream_channels as int;
    let missing = frames_missing(entry, cell, reading.run);
    assert(frames_covered(reading.run) == run_end(reading.run) - reading.run.start_frame);
    assert(missing > 0);
}

/// A stream that is paused or dead is not heard and not touched.
pub proof fn law_idle_streams_are_left_alone<
    T: Default,
    S: AudioStream<T>,
    M: StreamModifier<T>,
    K: MixMath<T>,
>(
    channels: u16,
    frame_count: usize,
    entry: MixerEntry<T, S, M>,
    cell: SnapshotEntry,
    reading: StreamReading<T>,
    before: Seq<T>,
    next_entry: MixerEntry<T, S, M>,
    next_cell: SnapshotEntry,
    after: Seq<T>,
)
    requires
        stream_step::<T, S, M, K>(
            channels,
            frame_count,
            entry,
            cell,
            reading,
            before,
            next_entry,
            next_cell,
            after,
        ),
        !entry.state.alive || entry.state.paused,
    ensures
        after == before,
        next_entry == entry,
        next_cell == cell,
{
}

} // verus!
