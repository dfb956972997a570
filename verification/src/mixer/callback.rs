//! What one audio callback does with the streams of a mixer.

use vstd::prelude::*;

use super::control::StreamState;
use super::entry::{MixerEntry, SnapshotEntry};
use super::kernel::{
    count_passed, frames_needed, mix_direct, mix_resampled, mixed_direct, mixed_resampled,
    needs_no_resampling, plan_read, plan_run, readable, runs, samples_passed, unity_says, Advance,
    MixMath, Tap,
};
use super::source::{AudioStream, StreamModifier};

verus! {

/// What the mixer got from one stream in one callback.
pub struct StreamReading<T> {
    pub run: Advance,
    /// The read buffer as it was handed to the stream, and as it came back.
    pub offered: Seq<T>,
    pub provided: Seq<T>,
    /// Samples that the stream said it provided, and whether it had ended then.
    pub count: usize,
    pub ended: bool,
    /// The samples that were read, padded, before and after the modifier.
    pub padded: Seq<T>,
    pub modified: Seq<T>,
    /// Whether the ratio needs no resampling.
    pub unity: bool,
    pub taps: Seq<Tap>,
}

/// Whole frames among samples of a stream.
pub open spec fn frames_in(samples: int, channels: u16) -> int {
    if channels == 0 {
        0
    } else {
        samples / channels as int
    }
}

/// Frames that a callback has yet to read from a stream.
pub open spec fn frames_missing<T, S, M>(
    entry: MixerEntry<T, S, M>,
    cell: SnapshotEntry,
    run: Advance,
) -> int {
    frames_needed(run, frames_in(entry.held@.len() as int, cell.stream_channels))
}

/// Frames to mix behind those that were held: what was provided, padded to what
/// was missing.
pub open spec fn frames_added(missing: int, count: usize, channels: u16) -> int {
    let read = frames_in(count as int, channels);
    if read < missing {
        missing
    } else {
        read
    }
}

/// The samples from the start of a run on: those that were held, then those
/// that were read.
pub open spec fn source_of<T, S, M>(
    entry: MixerEntry<T, S, M>,
    reading: StreamReading<T>,
) -> Seq<T> {
    entry.held@ + reading.modified
}

/// Whether `padded` is the first `read` samples of `provided`, extended with
/// silence to `len` samples.
pub open spec fn padded_to<T: Default>(
    provided: Seq<T>,
    read: int,
    len: int,
    padded: Seq<T>,
) -> bool {
    &&& padded.len() == len
    &&& forall|i: int|
        0 <= i < len ==> if i < read && i < provided.len() {
            #[trigger] padded[i] == provided[i]
        } else {
            call_ensures(T::default, (), padded[i])
        }
}

/// Whether a modifier may turn the first `count` samples of `padded` into
/// those of `modified`; the rest is left alone.
pub open spec fn modifier_applied<T, M: StreamModifier<T>>(
    modifier: Option<M>,
    count: int,
    padded: Seq<T>,
    modified: Seq<T>,
) -> bool {
    match modifier {
        None => modified == padded,
        Some(effect) => {
            &&& modified.len() == padded.len()
            &&& effect.modifies(padded.take(count), modified.take(count))
            &&& modified.skip(count) == padded.skip(count)
        },
    }
}

/// Whether an active stream may answer a callback with `reading`. It is asked
/// for the frames that are missing, and then whether it has ended.
pub open spec fn stream_read<T: Default, S: AudioStream<T>, M: StreamModifier<T>, K: MixMath<T>>(
    entry: MixerEntry<T, S, M>,
    cell: SnapshotEntry,
    frame_count: usize,
    reading: StreamReading<T>,
) -> bool {
    let missing = frames_missing(entry, cell, reading.run);
    &&& runs::<T, K>(cell.position, cell.ratio, frame_count, reading.run)
    &&& readable(reading.run, cell.stream_channels) ==> {
        &&& reading.offered.len() == missing * cell.stream_channels
        &&& reading.provided.len() == missing * cell.stream_channels
        &&& entry.stream.provides(
            missing as u64,
            reading.offered,
            reading.provided,
            reading.count,
        )
        &&& call_ensures(S::is_eof, (&entry.stream,), reading.ended)
    }
}

/// Whether a callback has nothing to mix of a stream: no sample is held or none
/// of the missing ones came.
pub open spec fn starved<T, S, M>(
    entry: MixerEntry<T, S, M>,
    cell: SnapshotEntry,
    reading: StreamReading<T>,
) -> bool {
    &&& reading.count == 0
    &&& entry.held@.len() == 0 || frames_missing(entry, cell, reading.run) > 0
}

/// Whether a buffer can have all samples to mix. It can, unless a stream claims
/// to have provided more than it was asked for.
pub open spec fn mixable<T, S, M>(
    entry: MixerEntry<T, S, M>,
    cell: SnapshotEntry,
    reading: StreamReading<T>,
) -> bool {
    let missing = frames_missing(entry, cell, reading.run);
    &&& cell.stream_channels > 0
    &&& entry.held@.len() + frames_added(missing, reading.count, cell.stream_channels)
        * cell.stream_channels <= usize::MAX
}

/// Whether mixing `reading` may turn the accumulated samples `before` into
/// `after`.
pub open spec fn stream_mixed<T: Default, S, M: StreamModifier<T>, K: MixMath<T>>(
    entry: MixerEntry<T, S, M>,
    cell: SnapshotEntry,
    channels: u16,
    frame_count: usize,
    reading: StreamReading<T>,
    before: Seq<T>,
    after: Seq<T>,
) -> bool {
    let width = cell.stream_channels as int;
    let read = frames_in(reading.count as int, cell.stream_channels) * width;
    let frames = frames_added(
        frames_missing(entry, cell, reading.run),
        reading.count,
        cell.stream_channels,
    );
    let held = entry.held@.len() as int;
    &&& padded_to(reading.provided, read, frames * width, reading.padded)
    &&& modifier_applied(entry.modifier, read, reading.padded, reading.modified)
    &&& unity_says::<T, K>(cell.ratio, reading.unity)
    &&& if reading.unity && cell.stream_channels == channels {
        mixed_direct::<T, K>(
            source_of(entry, reading),
            held + read,
            entry.state.volume,
            before,
            after,
        )
    } else {
        mixed_resampled::<T, K>(
            source_of(entry, reading),
            width,
            frames_in(held, cell.stream_channels) + frames,
            channels as int,
            reading.run,
            cell.ratio,
            frame_count as int,
            entry.state.volume,
            before,
            after,
            reading.taps,
        )
    }
}

/// What one callback does with one stream: its entry, its snapshot cell and
/// the accumulated samples, before and after.
///
/// A dead or paused stream is left alone. Any other is flagged once it says that
/// it has ended. One that provides nothing is not mixed, and its position moves
/// only where it has ended. Any other is mixed, its position moves, and the
/// samples from the new position on are held for the next callback.
pub open spec fn stream_step<T: Default, S: AudioStream<T>, M: StreamModifier<T>, K: MixMath<T>>(
    channels: u16,
    frame_count: usize,
    entry: MixerEntry<T, S, M>,
    cell: SnapshotEntry,
    reading: StreamReading<T>,
    before: Seq<T>,
    next_entry: MixerEntry<T, S, M>,
    next_cell: SnapshotEntry,
    after: Seq<T>,
) -> bool {
    let moved = SnapshotEntry { position: reading.run.next_position, ..cell };
    let state = StreamState { eof: entry.state.eof || reading.ended, ..entry.state };
    let source = source_of(entry, reading);
    if !entry.state.alive || entry.state.paused {
        next_entry == entry && next_cell == cell && after == before
    } else {
        &&& stream_read::<T, S, M, K>(entry, cell, frame_count, reading)
        &&& if !readable(reading.run, cell.stream_channels) {
            next_entry == entry && next_cell == cell && after == before
        } else {
            &&& next_entry == (MixerEntry { state, held: next_entry.held, ..entry })
            &&& if starved(entry, cell, reading) && reading.ended {
                next_entry.held@.len() == 0 && next_cell == moved && after == before
            } else if starved(entry, cell, reading) || !mixable(entry, cell, reading) {
                next_entry.held == entry.held && next_cell == cell && after == before
            } else {
                &&& next_entry.held@ == source.skip(
                    samples_passed(
                        reading.run,
                        cell.stream_channels as int,
                        source.len() as int,
                    ),
                )
                &&& next_cell == moved
                &&& stream_mixed::<T, S, M, K>(
                    entry,
                    cell,
                    channels,
                    frame_count,
                    reading,
                    before,
                    after,
                )
            }
        }
    }
}

/// What one callback does with all streams, in their order: `readings` is what
/// each gave, and `sums` what was accumulated before each and after the last.
pub open spec fn callback_done<T: Default, S: AudioStream<T>, M: StreamModifier<T>, K: MixMath<T>>(
    channels: u16,
    frame_count: usize,
    entries: Seq<MixerEntry<T, S, M>>,
    cells: Seq<SnapshotEntry>,
    next_entries: Seq<MixerEntry<T, S, M>>,
    next_cells: Seq<SnapshotEntry>,
    readings: Seq<StreamReading<T>>,
    sums: Seq<Seq<T>>,
) -> bool {
    &&& next_entries.len() == entries.len()
    &&& next_cells.len() == cells.len()
    &&& readings.len() == entries.len()
    &&& sums.len() == entries.len() + 1
    &&& forall|i: int|
        0 <= i < entries.len() ==> stream_step::<T, S, M, K>(
            channels,
            frame_count,
            #[trigger] entries[i],
            cells[i],
            readings[i],
            sums[i],
            next_entries[i],
            next_cells[i],
            sums[i + 1],
        )
}

/// Whether every sample is silence.
pub open spec fn silent<T: Default>(samples: Seq<T>) -> bool {
    forall|i: int| 0 <= i < samples.len() ==> call_ensures(T::default, (), #[trigger] samples[i])
}

/// Bring a scratch buffer to `len` samples; new ones are silence.
pub(super) fn fit<T: Copy + Default>(buffer: &mut Vec<T>, len: usize)
    ensures
        padded_to(old(buffer)@, old(buffer)@.len() as int, len as int, final(buffer)@),
{
    buffer.truncate(len);
    while buffer.len() < len
        invariant
            buffer@.len() <= len,
            buffer@.len() < len ==> old(buffer)@.len() <= buffer@.len(),
            padded_to(old(buffer)@, old(buffer)@.len() as int, buffer@.len() as int, buffer@),
        decreases len - buffer@.len(),
    {
        let silence = T::default();
        buffer.push(silence);
    }
}

/// Forget the first `count` samples of a buffer.
fn forget_front<T: Copy>(buffer: &mut Vec<T>, count: usize)
    requires
        count <= old(buffer)@.len(),
    ensures
        final(buffer)@ == old(buffer)@.skip(count as int),
{
    let len: usize = buffer.len();
    let kept: usize = len - count;
    let mut i: usize = 0;
    while i < kept
        invariant
            i <= kept,
            kept + count == len,
            buffer@.len() == old(buffer)@.len() == len,
            forall|j: int| 0 <= j < i ==> #[trigger] buffer@[j] == old(buffer)@[j + count],
            forall|j: int| i <= j < buffer@.len() ==> #[trigger] buffer@[j] == old(buffer)@[j],
        decreases kept - i,
    {
        buffer[i] = buffer[i + count];
        i = i + 1;
    }
    buffer.truncate(kept);
    assert(buffer@ =~= old(buffer)@.skip(count as int));
}

/// Mix one stream into `sums`, the accumulated samples of a callback.
#[verifier::spinoff_prover]
#[verifier::rlimit(60)]
pub(super) fn mix_stream<T: Copy + Default, S: AudioStream<T>, M: StreamModifier<T>, K: MixMath<T>>(
    entry: &mut MixerEntry<T, S, M>,
    cell: &mut SnapshotEntry,
    channels: u16,
    frame_count: usize,
    scratch: &mut Vec<T>,
    sums: &mut Vec<T>,
) -> (reading: Ghost<StreamReading<T>>)
    requires
        frame_count * channels <= old(sums)@.len(),
    ensures
        stream_step::<T, S, M, K>(
            channels,
            frame_count,
            *old(entry),
            *old(cell),
            reading@,
            old(sums)@,
            *final(entry),
            *final(cell),
            final(sums)@,
        ),
        final(sums)@.len() == old(sums)@.len(),
{
    if !entry.state.alive || entry.state.paused {
        return Ghost(arbitrary());
    }
    let run = plan_run::<T, K>(cell.position, cell.ratio, frame_count);
    let width: usize = cell.stream_channels as usize;
    let held: usize = entry.held.len();
    let held_frames: usize = if width == 0 {
        0
    } else {
        held / width
    };
    let ghost mut reading: StreamReading<T> = arbitrary();
    proof {
        reading.run = run;
    }
    let frames: usize = match plan_read(run, cell.stream_channels, held_frames) {
        Some(frames) => frames,
        None => {
            return Ghost(reading);
        },
    };
    assert(frames * width <= usize::MAX) by (nonlinear_arith)
        requires
            frames == frames_needed(run, held_frames as int),
            readable(run, width as u16),
            width <= u16::MAX,
            held_frames >= 0,
    ;
    let needed: usize = frames * width;
    fit(scratch, needed);
    proof {
        reading.offered = scratch@;
    }
    let count = entry.stream.read(scratch.as_mut_slice(), frames as u64);
    let ended = entry.stream.is_eof();
    proof {
        reading.provided = scratch@;
        reading.count = count;
        reading.ended = ended;
    }
    if ended {
        entry.state.eof = true;
    }
    if count == 0 && (frames > 0 || held == 0) {
        if ended {
            entry.held.truncate(0);
            cell.position = run.next_position;
        }
        return Ghost(reading);
    }
    if width == 0 {
        return Ghost(reading);
    }
    let read_frames: usize = count / width;
    assert(read_frames * width <= count) by (nonlinear_arith)
        requires
            read_frames == count as int / width as int,
            width > 0,
    ;
    let read: usize = read_frames * width;
    let added: usize = if read_frames < frames {
        frames
    } else {
        read_frames
    };
    assert(added * width <= usize::MAX && read <= added * width) by (nonlinear_arith)
        requires
            read == read_frames * width,
            read <= usize::MAX,
            frames * width <= usize::MAX,
            added == read_frames || added == frames,
            read_frames <= added,
            width > 0,
    ;
    match held.checked_add(added * width) {
        Some(_) => {},
        None => {
            return Ghost(reading);
        },
    }
    assert((held_frames + added) * width <= held + added * width && held_frames + added <= (
    held_frames + added) * width) by (nonlinear_arith)
        requires
            held_frames == held as int / width as int,
            width > 0,
    ;
    scratch.truncate(read);
    fit(scratch, added * width);
    proof {
        reading.padded = scratch@;
    }
    let unity = needs_no_resampling::<T, K>(cell.ratio);
    match &entry.modifier {
        None => {},
        Some(effect) => {
            let (head, _) = scratch.as_mut_slice().split_at_mut(read);
            effect.apply(head);
            let ghost changed = head@;
            proof {
                assert(scratch@ == changed + reading.padded.skip(read as int));
                assert(scratch@.take(read as int) == changed);
                assert(reading.padded.take(read as int) == reading.padded.subrange(0, read as int));
                assert(scratch@.skip(read as int) == reading.padded.skip(read as int));
            }
        },
    }
    proof {
        reading.modified = scratch@;
        reading.unity = unity;
        assert(modifier_applied(entry.modifier, read as int, reading.padded, reading.modified));
    }
    entry.held.append(scratch);
    assert(entry.held@ == source_of(*old(entry), reading));
    if unity && cell.stream_channels == channels {
        mix_direct::<T, K>(&entry.held, sums, held + read, entry.state.volume);
    } else {
        let ghost before = sums@;
        mix_resampled::<T, K>(
            &entry.held,
            sums,
            width,
            channels as usize,
            cell.ratio,
            frame_count,
            run,
            held_frames + added,
            entry.state.volume,
        );
        proof {
            let taps = choose|taps: Seq<Tap>| #[trigger]
                mixed_resampled::<T, K>(
                    entry.held@,
                    width as int,
                    (held_frames + added) as int,
                    channels as int,
                    run,
                    cell.ratio,
                    frame_count as int,
                    entry.state.volume,
                    before,
                    sums@,
                    taps,
                );
            reading.taps = taps;
        }
    }
    let passed = count_passed(run, width, entry.held.len());
    forget_front(&mut entry.held, passed);
    cell.position = run.next_position;
    Ghost(reading)
}

/// Where every stream is paused or dead, a callback gives silence and changes
/// nothing.
pub proof fn law_idle_streams_are_silent<
    T: Default,
    S: AudioStream<T>,
    M: StreamModifier<T>,
    K: MixMath<T>,
>(
    channels: u16,
    frame_count: usize,
    entries: Seq<MixerEntry<T, S, M>>,
    cells: Seq<SnapshotEntry>,
    next_entries: Seq<MixerEntry<T, S, M>>,
    next_cells: Seq<SnapshotEntry>,
    readings: Seq<StreamReading<T>>,
    sums: Seq<Seq<T>>,
)
    requires
        callback_done::<T, S, M, K>(
            channels,
            frame_count,
            entries,
            cells,
            next_entries,
            next_cells,
            readings,
            sums,
        ),
        cells.len() == entries.len(),
        silent(sums.first()),
        forall|i: int|
            0 <= i < entries.len() ==> !(#[trigger] entries[i]).state.alive
                || entries[i].state.paused,
    ensures
        silent(sums.last()),
        next_entries == entries,
        next_cells == cells,
{
    assert forall|i: int| 0 <= i < entries.len() implies #[trigger] next_entries[i] == entries[i]
        && next_cells[i] == cells[i] by {
        lemma_step_at::<T, S, M, K>(
            channels,
            frame_count,
            entries,
            cells,
            next_entries,
            next_cells,
            readings,
            sums,
            i,
        );
    }
    assert forall|i: int| 0 <= i < cells.len() implies #[trigger] next_cells[i] == cells[i] by {
        assert(next_entries[i] == entries[i]);
    }
    lemma_sums_kept::<T, S, M, K>(
        channels,
        frame_count,
        entries,
        cells,
        next_entries,
        next_cells,
        readings,
        sums,
        entries.len() as int,
    );
}

proof fn lemma_step_at<T: Default, S: AudioStream<T>, M: StreamModifier<T>, K: MixMath<T>>(
    channels: u16,
    frame_count: usize,
    entries: Seq<MixerEntry<T, S, M>>,
    cells: Seq<SnapshotEntry>,
    next_entries: Seq<MixerEntry<T, S, M>>,
    next_cells: Seq<SnapshotEntry>,
    readings: Seq<StreamReading<T>>,
    sums: Seq<Seq<T>>,
    index: int,
)
    requires
        callback_done::<T, S, M, K>(
            channels,
            frame_count,
            entries,
            cells,
            next_entries,
            next_cells,
            readings,
            sums,
        ),
        0 <= index < entries.len(),
    ensures
        stream_step::<T, S, M, K>(
            channels,
            frame_count,
            entries[index],
            cells[index],
            readings[index],
            sums[index],
            next_entries[index],
            next_cells[index],
            sums[index + 1],
        ),
{
    assert(entries[index] == entries[index]);
}

proof fn lemma_sums_kept<T: Default, S: AudioStream<T>, M: StreamModifier<T>, K: MixMath<T>>(
    channels: u16,
    frame_count: usize,
    entries: Seq<MixerEntry<T, S, M>>,
    cells: Seq<SnapshotEntry>,
    next_entries: Seq<MixerEntry<T, S, M>>,
    next_cells: Seq<SnapshotEntry>,
    readings: Seq<StreamReading<T>>,
    sums: Seq<Seq<T>>,
    count: int,
)
    requires
        callback_done::<T, S, M, K>(
            channels,
            frame_count,
            entries,
            cells,
            next_entries,
            next_cells,
            readings,
            sums,
        ),
        forall|i: int|
            0 <= i < entries.len() ==> !(#[trigger] entries[i]).state.alive
                || entries[i].state.paused,
        0 <= count <= entries.len(),
    ensures
        sums[count] == sums.first(),
    decreases count,
{
    if count > 0 {
        lemma_sums_kept::<T, S, M, K>(
            channels,
            frame_count,
            entries,
            cells,
            next_entries,
            next_cells,
            readings,
            sums,
            count - 1,
        );
        lemma_step_at::<T, S, M, K>(
            channels,
            frame_count,
            entries,
            cells,
            next_entries,
            next_cells,
            readings,
            sums,
            count - 1,
        );
    }
}

/// A callback touches nothing of a stream but its end-of-stream flag, its
/// position and the samples held for it. It never clears the flag, and sets it
/// exactly where an active stream was read and then said that it has ended.
pub proof fn law_callback_only_flags_ended_streams<
    T: Default,
    S: AudioStream<T>,
    M: StreamModifier<T>,
    K: MixMath<T>,
>(
    channels: u16,
    frame_count: usize,
    entries: Seq<MixerEntry<T, S, M>>,
    cells: Seq<SnapshotEntry>,
    next_entries: Seq<MixerEntry<T, S, M>>,
    next_cells: Seq<SnapshotEntry>,
    readings: Seq<StreamReading<T>>,
    sums: Seq<Seq<T>>,
    index: int,
)
    requires
        callback_done::<T, S, M, K>(
            channels,
            frame_count,
            entries,
            cells,
            next_entries,
            next_cells,
            readings,
            sums,
        ),
        0 <= index < entries.len(),
    ensures
        next_entries[index] == (MixerEntry {
            state: StreamState {
                eof: next_entries[index].state.eof,
                ..entries[index].state
            },
            held: next_entries[index].held,
            ..entries[index]
        }),
        next_cells[index] == (SnapshotEntry {
            position: next_cells[index].position,
            ..cells[index]
        }),
        entries[index].state.eof ==> next_entries[index].state.eof,
        next_entries[index].state.eof && !entries[index].state.eof ==> call_ensures(
            S::is_eof,
            (&entries[index].stream,),
            true,
        ),
        entries[index].state.alive && !entries[index].state.paused && readable(
            readings[index].run,
            cells[index].stream_channels,
        ) ==> {
            &&& call_ensures(S::is_eof, (&entries[index].stream,), readings[index].ended)
            &&& next_entries[index].state.eof == (entries[index].state.eof
                || readings[index].ended)
        },
{
    lemma_step_at::<T, S, M, K>(
        channels,
        frame_count,
        entries,
        cells,
        next_entries,
        next_cells,
        readings,
        sums,
        index,
    );
}

} // verus!
