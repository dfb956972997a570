//! What holds from one callback to the next.

use vstd::prelude::*;

use super::callback::{
    callback_done, frames_added, frames_in, frames_missing, law_callback_only_flags_ended_streams,
    mixable, silent, source_of, starved, stream_mixed, stream_step, StreamReading,
};
use super::control::StreamState;
use super::entry::{
    distinct_entries, holds, law_cleanup_keeps_the_live, lemma_nothing_ended, not_ended,
    MixerEntry, SnapshotEntry,
};
use super::kernel::{
    frames_covered, mixed_resampled, readable, run_at_rate, same_rate, samples_passed,
    source_channel, tap_at_rate, tapped, taps_at, MixMath,
};
use super::source::{AudioStream, StreamModifier};

verus! {

/// No sample that was read ahead is lost, and none is played twice.
///
/// Where `heard` is everything that a stream has given so far, and the samples
/// held are those from the start of the run on, the run is mixed from all
/// samples from its start on, and those from its end on are held. So runs that
/// start where the one before ended play the stream without a break, whatever
/// fraction of a frame lies between them.
pub proof fn law_read_ahead_is_played<
    T: Default,
    S: AudioStream<T>,
    M: StreamModifier<T>,
    K: MixMath<T>,
>(
    channels: u16,
    frame_count: usize,
    entry: MixerEntry<T, S, M>,
    cell: SnapshotEntry,
    reading: StreamReading<T>,
    before: Seq<T>,
    next_entry: MixerEntry<T, S, M>,
    next_cell: SnapshotEntry,
    after: Seq<T>,
    heard: Seq<T>,
)
    requires
        stream_step::<T, S, M, K>(
            channels,
            frame_count,
            entry,
            cell,
            reading,
            before,
            next_entry,
            next_cell,
            after,
        ),
        entry.state.alive && !entry.state.paused,
        readable(reading.run, cell.stream_channels),
        !starved(entry, cell, reading),
        mixable(entry, cell, reading),
        reading.run.start_frame * cell.stream_channels <= heard.len(),
        entry.held@ == heard.skip(reading.run.start_frame * cell.stream_channels),
        reading.run.start_frame <= reading.run.next_position.frame <= reading.run.start_frame
            + frames_covered(reading.run),
    ensures
        source_of(entry, reading) == (heard + reading.modified).skip(
            reading.run.start_frame * cell.stream_channels,
        ),
        reading.run.next_position.frame * cell.stream_channels <= (heard + reading.modified).len(),
        next_entry.held@ == (heard + reading.modified).skip(
            reading.run.next_position.frame * cell.stream_channels,
        ),
{
    let run = reading.run;
    let width = cell.stream_channels as int;
    let held = entry.held@.len() as int;
    let added = frames_added(frames_missing(entry, cell, run), reading.count, cell.stream_channels);
    let source = source_of(entry, reading);
    let all = heard + reading.modified;
    assert(source =~= all.skip(run.start_frame * width));
    assert(reading.modified.len() == added * width);
    assert((run.next_position.frame - run.start_frame) * width <= source.len()
        && (run.next_position.frame - run.start_frame) * width >= 0 && run.next_position.frame * width
        == run.start_frame * width + (run.next_position.frame - run.start_frame) * width)
        by (nonlinear_arith)
        requires
            width > 0,
            held >= 0,
            run.start_frame <= run.next_position.frame <= run.start_frame + frames_covered(run),
            frames_covered(run) <= held / width + added,
            source.len() == held + added * width,
    ;
    assert(next_entry.held@ =~= all.skip(run.next_position.frame * width));
}

/// A finished stream is removed: where an active stream was read in a callback
/// and then said that it has ended, whatever it said it provided, the next
/// cleanup leaves fewer streams, and it is not among them.
pub proof fn law_finished_streams_are_removed<
    T: Default,
    S: AudioStream<T>,
    M: StreamModifier<T>,
    K: MixMath<T>,
>(
    channels: u16,
    frame_count: usize,
    entries: Seq<MixerEntry<T, S, M>>,
    cells: Seq<SnapshotEntry>,
    next_entries: Seq<MixerEntry<T, S, M>>,
    next_cells: Seq<SnapshotEntry>,
    readings: Seq<StreamReading<T>>,
    sums: Seq<Seq<T>>,
    index: int,
)
    requires
        callback_done::<T, S, M, K>(
            channels,
            frame_count,
            entries,
            cells,
            next_entries,
            next_cells,
            readings,
            sums,
        ),
        distinct_entries(next_entries),
        0 <= index < entries.len(),
        entries[index].state.alive && !entries[index].state.paused,
        readable(readings[index].run, cells[index].stream_channels),
        readings[index].ended,
    ensures
        not_ended(next_entries).len() < entries.len(),
        !holds(not_ended(next_entries), entries[index].id),
{
    law_callback_only_flags_ended_streams::<T, S, M, K>(
        channels,
        frame_count,
        entries,
        cells,
        next_entries,
        next_cells,
        readings,
        sums,
        index,
    );
    let kept = not_ended(next_entries);
    law_cleanup_keeps_the_live(next_entries);
    lemma_nothing_ended(next_entries);
    assert(next_entries[index].state.eof);
    if kept.len() == next_entries.len() {
        assert(kept[index] == next_entries[index]);
    }
    if holds(kept, entries[index].id) {
        let i = choose|i: int| 0 <= i < kept.len() && (#[trigger] kept[i]).id == entries[index].id;
        assert(next_entries.contains(kept[i]));
        let j = choose|j: int| 0 <= j < next_entries.len() && next_entries[j] == kept[i];
        assert(next_entries[j].id == next_entries[index].id);
    }
}

/// Whether a stream has the mixer's rate, stands on a frame, has no effect, and
/// nothing is held for it. So does every stream of the mixer's rate without an
/// effect that is new to a mixer.
pub open spec fn at_rate<T, S, M>(entry: MixerEntry<T, S, M>, cell: SnapshotEntry) -> bool {
    &&& same_rate(cell.ratio)
    &&& cell.position.fraction == 0
    &&& cell.stream_channels > 0
    &&& entry.modifier is None
    &&& entry.held@.len() == 0
}

/// Whether a stream at the mixer's rate provides every frame of a callback.
pub open spec fn plays_at_rate<T, S, M>(
    entry: MixerEntry<T, S, M>,
    cell: SnapshotEntry,
    frame_count: usize,
    reading: StreamReading<T>,
) -> bool {
    &&& at_rate(entry, cell)
    &&& cell.position.frame + frame_count <= u64::MAX
    &&& frame_count * cell.stream_channels <= usize::MAX
    &&& reading.count == frame_count * cell.stream_channels
}

/// A stream at the mixer's rate stays on a frame, with nothing held for it: no
/// callback changes that, unless the stream claims to have provided more than it
/// was asked for.
pub proof fn law_streams_stay_at_rate<
    T: Default,
    S: AudioStream<T>,
    M: StreamModifier<T>,
    K: MixMath<T>,
>(
    channels: u16,
    frame_count: usize,
    entry: MixerEntry<T, S, M>,
    cell: SnapshotEntry,
    reading: StreamReading<T>,
    before: Seq<T>,
    next_entry: MixerEntry<T, S, M>,
    next_cell: SnapshotEntry,
    after: Seq<T>,
)
    requires
        stream_step::<T, S, M, K>(
            channels,
            frame_count,
            entry,
            cell,
            reading,
            before,
            next_entry,
            next_cell,
            after,
        ),
        at_rate(entry, cell),
        cell.position.frame + frame_count <= u64::MAX,
        frame_count > 0,
        reading.count <= frame_count * cell.stream_channels,
    ensures
        at_rate(next_entry, next_cell),
{
    let width = cell.stream_channels as int;
    let frames = frame_count as int;
    let count = reading.count as int;
    assert(count / width <= frames && 0int / width == 0) by (nonlinear_arith)
        requires
            width > 0,
            0 <= count <= frames * width,
    ;
    let source = source_of(entry, reading);
    if entry.state.alive && !entry.state.paused && readable(reading.run, cell.stream_channels)
        && !starved(entry, cell, reading) {
        assert(frames_covered(reading.run) == frames);
        assert((reading.run.next_position.frame - reading.run.start_frame) * width == frames
            * width);
        assert(reading.modified.len() == frames * width);
        assert(samples_passed(reading.run, width, source.len() as int) == source.len());
    }
}

/// Whether `after` may be `before` with `frame_count` frames of `provided` added
/// one by one, each channel from the one that feeds it.
pub open spec fn frames_summed<T, K: MixMath<T>>(
    provided: Seq<T>,
    source_channels: int,
    channels: int,
    frame_count: int,
    volume: u32,
    before: Seq<T>,
    after: Seq<T>,
) -> bool {
    &&& after.len() == before.len()
    &&& forall|f: int, c: int|
        #![trigger after[f * channels + c]]
        0 <= f < frame_count && 0 <= c < channels ==> call_ensures(
            K::accumulate,
            (
                before[f * channels + c],
                provided[f * source_channels + source_channel(c, source_channels)],
                volume,
            ),
            after[f * channels + c],
        )
}

proof fn lemma_cell_index(frame: int, frames: int, channel: int, channels: int)
    requires
        0 <= frame < frames,
        0 <= channel < channels,
    ensures
        0 <= frame * channels + channel < frames * channels,
{
    assert(0 <= frame * channels + channel < frames * channels) by (nonlinear_arith)
        requires
            0 <= frame < frames,
            0 <= channel < channels,
    ;
}

proof fn lemma_step_at_rate<T: Default, S: AudioStream<T>, M: StreamModifier<T>, K: MixMath<T>>(
    channels: u16,
    frame_count: usize,
    entry: MixerEntry<T, S, M>,
    cell: SnapshotEntry,
    reading: StreamReading<T>,
    before: Seq<T>,
    next_entry: MixerEntry<T, S, M>,
    next_cell: SnapshotEntry,
    after: Seq<T>,
)
    requires
        stream_step::<T, S, M, K>(
            channels,
            frame_count,
            entry,
            cell,
            reading,
            before,
            next_entry,
            next_cell,
            after,
        ),
        entry.state.alive && !entry.state.paused,
        plays_at_rate(entry, cell, frame_count, reading),
        before.len() == frame_count * channels,
        frame_count > 0,
    ensures
        reading.run == run_at_rate(cell.position, frame_count),
        reading.provided.len() == frame_count * cell.stream_channels,
        frames_summed::<T, K>(
            reading.provided,
            cell.stream_channels as int,
            channels as int,
            frame_count as int,
            entry.state.volume,
            before,
            after,
        ),
        next_entry.held@.len() == 0,
        next_entry == (MixerEntry {
            state: StreamState { eof: entry.state.eof || reading.ended, ..entry.state },
            held: next_entry.held,
            ..entry
        }),
        next_cell == (SnapshotEntry { position: reading.run.next_position, ..cell }),
        call_ensures(S::is_eof, (&entry.stream,), reading.ended),
{
    let width = cell.stream_channels as int;
    let ch = channels as int;
    let frames = frame_count as int;
    lemma_all_read(cell.stream_channels, frame_count, reading.count);
    assert(frames_covered(reading.run) == frames);
    assert(frames_missing(entry, cell, reading.run) == frames);
    assert(reading.padded =~= reading.provided);
    let source = source_of(entry, reading);
    assert(source =~= reading.provided);
    assert(samples_passed(reading.run, width, source.len() as int) == source.len()) by {
        assert((reading.run.next_position.frame - reading.run.start_frame) * width == frames
            * width);
    }
    assert(stream_mixed::<T, S, M, K>(
        entry,
        cell,
        channels,
        frame_count,
        reading,
        before,
        after,
    ));
    assert forall|f: int, c: int|
        #![trigger after[f * ch + c]]
        0 <= f < frames && 0 <= c < ch implies call_ensures(
        K::accumulate,
        (
            before[f * ch + c],
            reading.provided[f * width + source_channel(c, width)],
            entry.state.volume,
        ),
        after[f * ch + c],
    ) by {
        lemma_cell_index(f, frames, c, ch);
        lemma_cell_index(f, frames, source_channel(c, width), width);
        if cell.stream_channels != channels {
            let tap = reading.taps[f];
            assert(taps_at::<T, K>(reading.run, cell.ratio, f, frames, tap));
            assert(tapped::<T, K>(
                source,
                width,
                frames,
                c,
                tap,
                entry.state.volume,
                before[f * ch + c],
                after[f * ch + c],
            ));
        }
    }
}

proof fn lemma_all_read(channels: u16, frame_count: usize, count: usize)
    requires
        channels > 0,
        frame_count > 0,
        count == frame_count * channels,
    ensures
        frames_in(count as int, channels) == frame_count,
        frames_in(0, channels) == 0,
        count > 0,
{
    let width = channels as int;
    let frames = frame_count as int;
    assert(count as int / width == frames && 0int / width == 0 && count > 0) by (nonlinear_arith)
        requires
            width > 0,
            frames > 0,
            count == frames * width,
    ;
}

/// A callback of a stream that plays at the mixer's rate does what
/// [`frames_summed`] says, and whatever does that is such a callback.
proof fn lemma_summed_is_step<T: Default, S: AudioStream<T>, M: StreamModifier<T>, K: MixMath<T>>(
    channels: u16,
    frame_count: usize,
    entry: MixerEntry<T, S, M>,
    cell: SnapshotEntry,
    reading: StreamReading<T>,
    before: Seq<T>,
    next_entry: MixerEntry<T, S, M>,
    next_cell: SnapshotEntry,
    after: Seq<T>,
)
    requires
        entry.state.alive && !entry.state.paused,
        plays_at_rate(entry, cell, frame_count, reading),
        channels > 0,
        before.len() == frame_count * channels,
        frame_count > 0,
        reading.run == run_at_rate(cell.position, frame_count),
        reading.offered.len() == frame_count * cell.stream_channels,
        reading.provided.len() == frame_count * cell.stream_channels,
        entry.stream.provides(
            frame_count as u64,
            reading.offered,
            reading.provided,
            reading.count,
        ),
        call_ensures(S::is_eof, (&entry.stream,), reading.ended),
        reading.padded == reading.provided,
        reading.modified == reading.provided,
        reading.unity,
        reading.taps == Seq::new(
            frame_count as nat,
            |f: int| tap_at_rate(reading.run, f, frame_count as int),
        ),
        frames_summed::<T, K>(
            reading.provided,
            cell.stream_channels as int,
            channels as int,
            frame_count as int,
            entry.state.volume,
            before,
            after,
        ),
        next_entry.held@.len() == 0,
        next_entry == (MixerEntry {
            state: StreamState { eof: entry.state.eof || reading.ended, ..entry.state },
            held: next_entry.held,
            ..entry
        }),
        next_cell == (SnapshotEntry { position: reading.run.next_position, ..cell }),
    ensures
        stream_step::<T, S, M, K>(
            channels,
            frame_count,
            entry,
            cell,
            reading,
            before,
            next_entry,
            next_cell,
            after,
        ),
{
    let width = cell.stream_channels as int;
    let ch = channels as int;
    let frames = frame_count as int;
    lemma_all_read(cell.stream_channels, frame_count, reading.count);
    assert(frames_covered(reading.run) == frames);
    assert(frames_missing(entry, cell, reading.run) == frames);
    let source = source_of(entry, reading);
    assert(source =~= reading.provided);
    assert(samples_passed(reading.run, width, source.len() as int) == source.len()) by {
        assert((reading.run.next_position.frame - reading.run.start_frame) * width == frames
            * width);
    }
    assert(next_entry.held@ =~= source.skip(source.len() as int));
    if cell.stream_channels == channels {
        assert forall|k: int| 0 <= k < before.len() implies call_ensures(
            K::accumulate,
            (before[k], source[k], entry.state.volume),
            #[trigger] after[k],
        ) by {
            let f = k / ch;
            let c = k % ch;
            assert(k == f * ch + c && 0 <= c < ch && 0 <= f < frames) by (nonlinear_arith)
                requires
                    ch > 0,
                    0 <= k < frames * ch,
                    f == k / ch,
                    c == k % ch,
            ;
            assert(after[f * ch + c] == after[k]);
        }
    } else {
        assert forall|f: int, c: int|
            #![trigger after[f * ch + c]]
            0 <= f < frames && 0 <= c < ch implies tapped::<T, K>(
            source,
            width,
            frames,
            c,
            reading.taps[f],
            entry.state.volume,
            before[f * ch + c],
            after[f * ch + c],
        ) by {
            let sample = reading.provided[f * width + source_channel(c, width)];
            assert(call_ensures(
                K::accumulate,
                (before[f * ch + c], sample, entry.state.volume),
                after[f * ch + c],
            ));
        }
        assert(mixed_resampled::<T, K>(
            source,
            width,
            frames,
            ch,
            reading.run,
            cell.ratio,
            frames,
            entry.state.volume,
            before,
            after,
            reading.taps,
        ));
    }
    assert(stream_mixed::<T, S, M, K>(
        entry,
        cell,
        channels,
        frame_count,
        reading,
        before,
        after,
    ));
}

proof fn lemma_sums_join<T, K: MixMath<T>>(
    source_channels: int,
    channels: int,
    first: int,
    second: int,
    volume: u32,
    provided: (Seq<T>, Seq<T>),
    before: (Seq<T>, Seq<T>),
    after: (Seq<T>, Seq<T>),
)
    requires
        source_channels > 0,
        channels > 0,
        first >= 0,
        second >= 0,
        provided.0.len() == first * source_channels,
        provided.1.len() == second * source_channels,
        before.0.len() == first * channels,
        before.1.len() == second * channels,
        frames_summed::<T, K>(
            provided.0,
            source_channels,
            channels,
            first,
            volume,
            before.0,
            after.0,
        ),
        frames_summed::<T, K>(
            provided.1,
            source_channels,
            channels,
            second,
            volume,
            before.1,
            after.1,
        ),
    ensures
        frames_summed::<T, K>(
            provided.0 + provided.1,
            source_channels,
            channels,
            first + second,
            volume,
            before.0 + before.1,
            after.0 + after.1,
        ),
{
    let all = after.0 + after.1;
    assert forall|f: int, c: int|
        #![trigger all[f * channels + c]]
        0 <= f < first + second && 0 <= c < channels implies call_ensures(
        K::accumulate,
        (
            (before.0 + before.1)[f * channels + c],
            (provided.0 + provided.1)[f * source_channels + source_channel(c, source_channels)],
            volume,
        ),
        all[f * channels + c],
    ) by {
        let from = source_channel(c, source_channels);
        if f < first {
            lemma_cell_index(f, first, c, channels);
            lemma_cell_index(f, first, from, source_channels);
            assert(after.0[f * channels + c] == all[f * channels + c]);
        } else {
            let g = f - first;
            assert(g * channels + c == f * channels + c - first * channels && g * source_channels
                == f * source_channels - first * source_channels) by (nonlinear_arith)
                requires
                    g == f - first,
            ;
            lemma_cell_index(g, second, c, channels);
            lemma_cell_index(g, second, from, source_channels);
            assert(after.1[g * channels + c] == all[f * channels + c]);
        }
    }
}

/// Whether a stream at the mixer's rate provides every frame of a callback of
/// `first` frames and of the next one of `second` frames, and may provide in one
/// read what it provided in the two. A stream that is paused or dead provides
/// nothing.
pub open spec fn provides_in_one<T, S: AudioStream<T>, M>(
    first: usize,
    second: usize,
    entry: MixerEntry<T, S, M>,
    cell: SnapshotEntry,
    readings: (StreamReading<T>, StreamReading<T>),
) -> bool {
    ||| !entry.state.alive || entry.state.paused
    ||| {
        &&& at_rate(entry, cell)
        &&& cell.position.frame + first + second <= u64::MAX
        &&& (first + second) * cell.stream_channels <= usize::MAX
        &&& readings.0.count == first * cell.stream_channels
        &&& readings.1.count == second * cell.stream_channels
        &&& entry.stream.provides(
            (first + second) as u64,
            readings.0.offered + readings.1.offered,
            readings.0.provided + readings.1.provided,
            (readings.0.count + readings.1.count) as usize,
        )
    }
}

/// One callback's reading of what two callbacks read.
pub open spec fn reading_in_one<T>(
    first: usize,
    second: usize,
    cell: SnapshotEntry,
    readings: (StreamReading<T>, StreamReading<T>),
) -> StreamReading<T> {
    let run = run_at_rate(cell.position, (first + second) as usize);
    let provided = readings.0.provided + readings.1.provided;
    StreamReading {
        run,
        offered: readings.0.offered + readings.1.offered,
        provided,
        count: (readings.0.count + readings.1.count) as usize,
        ended: readings.0.ended || readings.1.ended,
        padded: provided,
        modified: provided,
        unity: true,
        taps: Seq::new((first + second) as nat, |f: int| tap_at_rate(run, f, first + second)),
    }
}

proof fn lemma_steps_join<T: Default, S: AudioStream<T>, M: StreamModifier<T>, K: MixMath<T>>(
    channels: u16,
    first: usize,
    second: usize,
    entries: (MixerEntry<T, S, M>, MixerEntry<T, S, M>, MixerEntry<T, S, M>),
    cells: (SnapshotEntry, SnapshotEntry, SnapshotEntry),
    readings: (StreamReading<T>, StreamReading<T>),
    before: (Seq<T>, Seq<T>),
    after: (Seq<T>, Seq<T>),
)
    requires
        channels > 0,
        first > 0,
        second > 0,
        first + second <= usize::MAX,
        before.0.len() == first * channels,
        before.1.len() == second * channels,
        stream_step::<T, S, M, K>(
            channels,
            first,
            entries.0,
            cells.0,
            readings.0,
            before.0,
            entries.1,
            cells.1,
            after.0,
        ),
        stream_step::<T, S, M, K>(
            channels,
            second,
            entries.1,
            cells.1,
            readings.1,
            before.1,
            entries.2,
            cells.2,
            after.1,
        ),
        provides_in_one(first, second, entries.0, cells.0, readings),
    ensures
        stream_step::<T, S, M, K>(
            channels,
            (first + second) as usize,
            entries.0,
            cells.0,
            reading_in_one(first, second, cells.0, readings),
            before.0 + before.1,
            entries.2,
            cells.2,
            after.0 + after.1,
        ),
        after.0.len() == before.0.len(),
        after.1.len() == before.1.len(),
{
    if entries.0.state.alive && !entries.0.state.paused {
        let whole = (first + second) as usize;
        let width = cells.0.stream_channels;
        assert(whole * channels == first * channels + second * channels && whole * width == first
            * width + second * width && first * width >= 0 && second * width >= 0)
            by (nonlinear_arith)
            requires
                whole == first + second,
        ;
        lemma_step_at_rate::<T, S, M, K>(
            channels,
            first,
            entries.0,
            cells.0,
            readings.0,
            before.0,
            entries.1,
            cells.1,
            after.0,
        );
        lemma_step_at_rate::<T, S, M, K>(
            channels,
            second,
            entries.1,
            cells.1,
            readings.1,
            before.1,
            entries.2,
            cells.2,
            after.1,
        );
        lemma_sums_join::<T, K>(
            width as int,
            channels as int,
            first as int,
            second as int,
            entries.0.state.volume,
            (readings.0.provided, readings.1.provided),
            before,
            after,
        );
        lemma_all_read(width, first, readings.0.count);
        lemma_all_read(width, second, readings.1.count);
        assert(frames_missing(entries.0, cells.0, readings.0.run) == first);
        assert(frames_missing(entries.1, cells.1, readings.1.run) == second);
        lemma_summed_is_step::<T, S, M, K>(
            channels,
            whole,
            entries.0,
            cells.0,
            reading_in_one(first, second, cells.0, readings),
            before.0 + before.1,
            entries.2,
            cells.2,
            after.0 + after.1,
        );
    }
}

/// What was accumulated in two callbacks, one behind the other.
pub open spec fn sums_in_one<T>(sums: (Seq<Seq<T>>, Seq<Seq<T>>)) -> Seq<Seq<T>> {
    Seq::new(sums.0.len(), |i: int| sums.0[i] + sums.1[i])
}

/// What two callbacks read of each stream, as one callback reads it.
pub open spec fn readings_in_one<T>(
    first: usize,
    second: usize,
    cells: Seq<SnapshotEntry>,
    readings: (Seq<StreamReading<T>>, Seq<StreamReading<T>>),
) -> Seq<StreamReading<T>> {
    Seq::new(
        readings.0.len(),
        |i: int| reading_in_one(first, second, cells[i], (readings.0[i], readings.1[i])),
    )
}

/// Two callbacks in a row are one longer callback: what they give, one behind the
/// other, and the state in which they leave every stream, are what a single
/// callback of as many frames gives and leaves.
///
/// This is so where every stream plays at the mixer's rate, with any number of
/// channels, and what it provides does not depend on how much it is asked for at
/// a time. Nothing is asked of the host's arithmetic.
pub proof fn law_two_callbacks_are_one<
    T: Default,
    S: AudioStream<T>,
    M: StreamModifier<T>,
    K: MixMath<T>,
>(
    channels: u16,
    first: usize,
    second: usize,
    entries: (
        Seq<MixerEntry<T, S, M>>,
        Seq<MixerEntry<T, S, M>>,
        Seq<MixerEntry<T, S, M>>,
    ),
    cells: (Seq<SnapshotEntry>, Seq<SnapshotEntry>, Seq<SnapshotEntry>),
    readings: (Seq<StreamReading<T>>, Seq<StreamReading<T>>),
    sums: (Seq<Seq<T>>, Seq<Seq<T>>),
)
    requires
        channels > 0,
        first > 0,
        second > 0,
        first + second <= usize::MAX,
        cells.0.len() == entries.0.len(),
        callback_done::<T, S, M, K>(
            channels,
            first,
            entries.0,
            cells.0,
            entries.1,
            cells.1,
            readings.0,
            sums.0,
        ),
        callback_done::<T, S, M, K>(
            channels,
            second,
            entries.1,
            cells.1,
            entries.2,
            cells.2,
            readings.1,
            sums.1,
        ),
        silent(sums.0.first()) && sums.0.first().len() == first * channels,
        silent(sums.1.first()) && sums.1.first().len() == second * channels,
        forall|i: int|
            0 <= i < entries.0.len() ==> provides_in_one(
                first,
                second,
                #[trigger] entries.0[i],
                cells.0[i],
                (readings.0[i], readings.1[i]),
            ),
    ensures
        callback_done::<T, S, M, K>(
            channels,
            (first + second) as usize,
            entries.0,
            cells.0,
            entries.2,
            cells.2,
            readings_in_one(first, second, cells.0, readings),
            sums_in_one(sums),
        ),
        silent(sums_in_one(sums).first()),
        sums_in_one(sums).first().len() == (first + second) * channels,
        sums_in_one(sums).last() == sums.0.last() + sums.1.last(),
{
    let joined = sums_in_one(sums);
    let read = readings_in_one(first, second, cells.0, readings);
    assert((first + second) * channels == first * channels + second * channels)
        by (nonlinear_arith);
    let start = joined.first();
    assert forall|k: int| 0 <= k < start.len() implies call_ensures(
        T::default,
        (),
        #[trigger] start[k],
    ) by {
        if k < sums.0.first().len() {
            assert(start[k] == sums.0.first()[k]);
        } else {
            assert(start[k] == sums.1.first()[k - sums.0.first().len()]);
        }
    }
    assert forall|i: int| 0 <= i < entries.0.len() implies stream_step::<T, S, M, K>(
        channels,
        (first + second) as usize,
        #[trigger] entries.0[i],
        cells.0[i],
        read[i],
        joined[i],
        entries.2[i],
        cells.2[i],
        joined[i + 1],
    ) by {
        lemma_lengths_kept::<T, S, M, K>(
            channels,
            first,
            second,
            entries,
            cells,
            readings,
            sums,
            i,
        );
        let next = entries.1[i];
        lemma_steps_join::<T, S, M, K>(
            channels,
            first,
            second,
            (entries.0[i], next, entries.2[i]),
            (cells.0[i], cells.1[i], cells.2[i]),
            (readings.0[i], readings.1[i]),
            (sums.0[i], sums.1[i]),
            (sums.0[i + 1], sums.1[i + 1]),
        );
    }
}

proof fn lemma_lengths_kept<T: Default, S: AudioStream<T>, M: StreamModifier<T>, K: MixMath<T>>(
    channels: u16,
    first: usize,
    second: usize,
    entries: (
        Seq<MixerEntry<T, S, M>>,
        Seq<MixerEntry<T, S, M>>,
        Seq<MixerEntry<T, S, M>>,
    ),
    cells: (Seq<SnapshotEntry>, Seq<SnapshotEntry>, Seq<SnapshotEntry>),
    readings: (Seq<StreamReading<T>>, Seq<StreamReading<T>>),
    sums: (Seq<Seq<T>>, Seq<Seq<T>>),
    count: int,
)
    requires
        channels > 0,
        first > 0,
        second > 0,
        first + second <= usize::MAX,
        callback_done::<T, S, M, K>(
            channels,
            first,
            entries.0,
            cells.0,
            entries.1,
            cells.1,
            readings.0,
            sums.0,
        ),
        callback_done::<T, S, M, K>(
            channels,
            second,
            entries.1,
            cells.1,
            entries.2,
            cells.2,
            readings.1,
            sums.1,
        ),
        sums.0[0].len() == first * channels,
        sums.1[0].len() == second * channels,
        forall|i: int|
            0 <= i < entries.0.len() ==> provides_in_one(
                first,
                second,
                #[trigger] entries.0[i],
                cells.0[i],
                (readings.0[i], readings.1[i]),
            ),
        0 <= count <= entries.0.len(),
    ensures
        sums.0[count].len() == first * channels,
        sums.1[count].len() == second * channels,
    decreases count,
{
    if count > 0 {
        let i = count - 1;
        lemma_lengths_kept::<T, S, M, K>(
            channels,
            first,
            second,
            entries,
            cells,
            readings,
            sums,
            i,
        );
        let done = entries.0[i];
        let next = entries.1[i];
        lemma_steps_join::<T, S, M, K>(
            channels,
            first,
            second,
            (done, next, entries.2[i]),
            (cells.0[i], cells.1[i], cells.2[i]),
            (readings.0[i], readings.1[i]),
            (sums.0[i], sums.1[i]),
            (sums.0[count], sums.1[count]),
        );
    }
}

/// Whether silence and adding samples up give one result for one input.
pub open spec fn deterministic<T: Default, K: MixMath<T>>() -> bool {
    &&& forall|a: T, b: T|
        #[trigger] call_ensures(T::default, (), a) && #[trigger] call_ensures(T::default, (), b)
            ==> a == b
    &&& forall|sum: T, sample: T, volume: u32, a: T, b: T|
        #[trigger] call_ensures(K::accumulate, (sum, sample, volume), a)
            && #[trigger] call_ensures(K::accumulate, (sum, sample, volume), b) ==> a == b
}

proof fn lemma_sums_unique<T: Default, K: MixMath<T>>(
    provided: Seq<T>,
    source_channels: int,
    channels: int,
    frame_count: int,
    volume: u32,
    before: Seq<T>,
    after: Seq<T>,
    other: Seq<T>,
)
    requires
        deterministic::<T, K>(),
        channels > 0,
        before.len() == frame_count * channels,
        frames_summed::<T, K>(
            provided,
            source_channels,
            channels,
            frame_count,
            volume,
            before,
            after,
        ),
        frames_summed::<T, K>(
            provided,
            source_channels,
            channels,
            frame_count,
            volume,
            before,
            other,
        ),
    ensures
        after == other,
{
    assert forall|k: int| 0 <= k < after.len() implies after[k] == other[k] by {
        let f = k / channels;
        let c = k % channels;
        assert(k == f * channels + c && 0 <= c < channels && 0 <= f < frame_count)
            by (nonlinear_arith)
            requires
                channels > 0,
                0 <= k < frame_count * channels,
                f == k / channels,
                c == k % channels,
        ;
        assert(after[f * channels + c] == after[k]);
        assert(other[f * channels + c] == other[k]);
    }
    assert(after =~= other);
}

/// Two callbacks in a row give exactly the samples that one longer callback gives
/// to a mixer in the same state, where the streams give the same and adding
/// samples up gives one result for one input.
pub proof fn law_pulls_join<T: Default, S: AudioStream<T>, M: StreamModifier<T>, K: MixMath<T>>(
    channels: u16,
    first: usize,
    second: usize,
    entries: (
        Seq<MixerEntry<T, S, M>>,
        Seq<MixerEntry<T, S, M>>,
        Seq<MixerEntry<T, S, M>>,
    ),
    cells: (Seq<SnapshotEntry>, Seq<SnapshotEntry>, Seq<SnapshotEntry>),
    readings: (Seq<StreamReading<T>>, Seq<StreamReading<T>>),
    sums: (Seq<Seq<T>>, Seq<Seq<T>>),
    whole_entries: Seq<MixerEntry<T, S, M>>,
    whole_cells: Seq<SnapshotEntry>,
    whole_readings: Seq<StreamReading<T>>,
    whole_sums: Seq<Seq<T>>,
)
    requires
        deterministic::<T, K>(),
        channels > 0,
        first > 0,
        second > 0,
        first + second <= usize::MAX,
        cells.0.len() == entries.0.len(),
        callback_done::<T, S, M, K>(
            channels,
            first,
            entries.0,
            cells.0,
            entries.1,
            cells.1,
            readings.0,
            sums.0,
        ),
        callback_done::<T, S, M, K>(
            channels,
            second,
            entries.1,
            cells.1,
            entries.2,
            cells.2,
            readings.1,
            sums.1,
        ),
        callback_done::<T, S, M, K>(
            channels,
            (first + second) as usize,
            entries.0,
            cells.0,
            whole_entries,
            whole_cells,
            whole_readings,
            whole_sums,
        ),
        silent(sums.0.first()) && sums.0.first().len() == first * channels,
        silent(sums.1.first()) && sums.1.first().len() == second * channels,
        silent(whole_sums.first()) && whole_sums.first().len() == (first + second) * channels,
        forall|i: int|
            0 <= i < entries.0.len() ==> provides_in_one(
                first,
                second,
                #[trigger] entries.0[i],
                cells.0[i],
                (readings.0[i], readings.1[i]),
            ),
        forall|i: int|
            0 <= i < entries.0.len() && (#[trigger] entries.0[i]).state.alive
                && !entries.0[i].state.paused ==> whole_readings[i].count == readings.0[i].count
                + readings.1[i].count && whole_readings[i].provided == readings.0[i].provided
                + readings.1[i].provided,
    ensures
        whole_sums.last() == sums.0.last() + sums.1.last(),
{
    law_two_callbacks_are_one::<T, S, M, K>(
        channels,
        first,
        second,
        entries,
        cells,
        readings,
        sums,
    );
    let joined = sums_in_one(sums);
    let start = joined.first();
    assert forall|k: int| 0 <= k < start.len() implies start[k] == whole_sums.first()[k] by {
        assert(call_ensures(T::default, (), start[k]));
        assert(call_ensures(T::default, (), whole_sums.first()[k]));
    }
    assert(start =~= whole_sums.first());
    let count = entries.0.len() as int;
    let read = readings_in_one(first, second, cells.0, readings);
    assert forall|i: int|
        0 <= i < count && (#[trigger] entries.0[i]).state.alive
            && !entries.0[i].state.paused implies {
        &&& plays_at_rate(entries.0[i], cells.0[i], (first + second) as usize, read[i])
        &&& plays_at_rate(entries.0[i], cells.0[i], (first + second) as usize, whole_readings[i])
        &&& read[i].provided == whole_readings[i].provided
    } by {
        let width = cells.0[i].stream_channels;
        assert((first + second) * width == first * width + second * width) by (nonlinear_arith);
    }
    assert forall|i: int| 0 <= i <= count implies #[trigger] whole_sums[i] == joined[i] by {
        lemma_same_sums::<T, S, M, K>(
            channels,
            (first + second) as usize,
            entries.0,
            cells.0,
            (entries.2, whole_entries),
            (cells.2, whole_cells),
            (read, whole_readings),
            (joined, whole_sums),
            i,
        );
    }
}

proof fn lemma_same_sums<T: Default, S: AudioStream<T>, M: StreamModifier<T>, K: MixMath<T>>(
    channels: u16,
    frame_count: usize,
    entries: Seq<MixerEntry<T, S, M>>,
    cells: Seq<SnapshotEntry>,
    next_entries: (Seq<MixerEntry<T, S, M>>, Seq<MixerEntry<T, S, M>>),
    next_cells: (Seq<SnapshotEntry>, Seq<SnapshotEntry>),
    readings: (Seq<StreamReading<T>>, Seq<StreamReading<T>>),
    sums: (Seq<Seq<T>>, Seq<Seq<T>>),
    count: int,
)
    requires
        deterministic::<T, K>(),
        channels > 0,
        frame_count > 0,
        callback_done::<T, S, M, K>(
            channels,
            frame_count,
            entries,
            cells,
            next_entries.0,
            next_cells.0,
            readings.0,
            sums.0,
        ),
        callback_done::<T, S, M, K>(
            channels,
            frame_count,
            entries,
            cells,
            next_entries.1,
            next_cells.1,
            readings.1,
            sums.1,
        ),
        sums.0[0] == sums.1[0],
        sums.0[0].len() == frame_count * channels,
        forall|i: int|
            0 <= i < entries.len() && (#[trigger] entries[i]).state.alive
                && !entries[i].state.paused ==> {
                &&& plays_at_rate(entries[i], cells[i], frame_count, readings.0[i])
                &&& plays_at_rate(entries[i], cells[i], frame_count, readings.1[i])
                &&& readings.0[i].provided == readings.1[i].provided
            },
        0 <= count <= entries.len(),
    ensures
        sums.0[count] == sums.1[count],
        sums.0[count].len() == frame_count * channels,
    decreases count,
{
    if count > 0 {
        let i = count - 1;
        lemma_same_sums::<T, S, M, K>(
            channels,
            frame_count,
            entries,
            cells,
            next_entries,
            next_cells,
            readings,
            sums,
            i,
        );
        let entry = entries[i];
        if entry.state.alive && !entry.state.paused {
            lemma_step_at_rate::<T, S, M, K>(
                channels,
                frame_count,
                entry,
                cells[i],
                readings.0[i],
                sums.0[i],
                next_entries.0[i],
                next_cells.0[i],
                sums.0[count],
            );
            lemma_step_at_rate::<T, S, M, K>(
                channels,
                frame_count,
                entry,
                cells[i],
                readings.1[i],
                sums.1[i],
                next_entries.1[i],
                next_cells.1[i],
                sums.1[count],
            );
            lemma_sums_unique::<T, K>(
                readings.0[i].provided,
                cells[i].stream_channels as int,
                channels as int,
                frame_count as int,
                entry.state.volume,
                sums.0[i],
                sums.0[count],
                sums.1[count],
            );
        }
    }
}

} // verus!
