//! The streams of a mixer and what its snapshot holds of them.

use vstd::prelude::*;

use super::control::{StreamState, UNIT_VOLUME};
use super::kernel::{origin, Position, ResampleRatio};
use super::source::AudioStream;
use crate::error::AudioError;
use crate::types::AudioFormat;

verus! {

/// A stream in the live list.
pub struct MixerEntry<T, S, M> {
    pub id: u64,
    pub stream: S,
    pub state: StreamState,
    pub modifier: Option<M>,
    /// Samples that were read ahead: those from the stream's position on, as the
    /// modifier left them.
    pub held: Vec<T>,
}

/// Whether `entry` is that of a stream which was just added.
pub open spec fn added<T, S, M>(
    entry: MixerEntry<T, S, M>,
    id: u64,
    stream: S,
    play_immediate: bool,
) -> bool {
    &&& entry.id == id
    &&& entry.stream == stream
    &&& entry.state == (StreamState {
        paused: !play_immediate,
        alive: true,
        eof: false,
        volume: UNIT_VOLUME,
    })
    &&& entry.modifier is None
    &&& entry.held@.len() == 0
}

/// One stream of the snapshot, with what is derived from it and the output
/// format.
#[derive(Clone, Copy, Debug, PartialEq, Eq, Structural)]
pub struct SnapshotEntry {
    pub id: u64,
    /// Cached stream channel count.
    pub stream_channels: u16,
    pub ratio: ResampleRatio,
    /// Current resample position.
    pub position: Position,
}

/// The position that a rebuilt snapshot takes over for a stream: the one it
/// had, or the start for a new stream.
pub open spec fn carried_position(entries: Seq<SnapshotEntry>, id: u64) -> Position
    decreases entries.len(),
{
    if entries.len() == 0 {
        origin()
    } else if entries.first().id == id {
        entries.first().position
    } else {
        carried_position(entries.drop_first(), id)
    }
}

/// Whether `cell` may be what publishing a snapshot for `format` derives from
/// a live entry, where `previous` is the snapshot that it replaces.
pub open spec fn derived<T, S: AudioStream<T>, M>(
    entry: MixerEntry<T, S, M>,
    format: AudioFormat,
    previous: Seq<SnapshotEntry>,
    cell: SnapshotEntry,
) -> bool {
    &&& cell.id == entry.id
    &&& call_ensures(S::channels, (&entry.stream,), cell.stream_channels)
    &&& call_ensures(S::sample_rate, (&entry.stream,), cell.ratio.stream_rate)
    &&& cell.ratio.mixer_rate == format.sample_rate
    &&& cell.position == carried_position(previous, entry.id)
}

/// Whether `cells` may be the snapshot of `entries` for `format`.
pub open spec fn snapshot_of<T, S: AudioStream<T>, M>(
    entries: Seq<MixerEntry<T, S, M>>,
    format: AudioFormat,
    previous: Seq<SnapshotEntry>,
    cells: Seq<SnapshotEntry>,
) -> bool {
    &&& cells.len() == entries.len()
    &&& forall|i: int|
        0 <= i < entries.len() ==> derived::<T, S, M>(
            #[trigger] entries[i],
            format,
            previous,
            cells[i],
        )
}

/// The streams that have not ended, in their order.
pub open spec fn not_ended<T, S, M>(entries: Seq<MixerEntry<T, S, M>>) -> Seq<MixerEntry<T, S, M>>
    decreases entries.len(),
{
    if entries.len() == 0 {
        Seq::empty()
    } else if entries.last().state.eof {
        not_ended(entries.drop_last())
    } else {
        not_ended(entries.drop_last()).push(entries.last())
    }
}

/// Whether a stream of the given id is in the live list.
pub open spec fn holds<T, S, M>(entries: Seq<MixerEntry<T, S, M>>, id: u64) -> bool {
    exists|i: int| 0 <= i < entries.len() && (#[trigger] entries[i]).id == id
}

/// What seeking the stream `id` to `frame` does to an entry, where `result` is
/// what came back: the stream was asked, and once it has moved, nothing that was
/// read before is held for it. Any other entry is left alone.
pub open spec fn sought<T, S: AudioStream<T>, M>(
    entry: MixerEntry<T, S, M>,
    id: u64,
    frame: u64,
    result: Option<Result<(), AudioError>>,
    after: MixerEntry<T, S, M>,
) -> bool {
    if entry.id == id {
        &&& result is Some
        &&& call_ensures(S::seek, (&entry.stream, frame), result->0)
        &&& after == (MixerEntry { held: after.held, ..entry })
        &&& if result->0 is Ok {
            after.held@.len() == 0
        } else {
            after.held == entry.held
        }
    } else {
        after == entry
    }
}

/// No two cells share an id.
pub open spec fn distinct(cells: Seq<SnapshotEntry>) -> bool {
    forall|i: int, j: int|
        0 <= i < j < cells.len() ==> (#[trigger] cells[i]).id != (#[trigger] cells[j]).id
}

pub(super) proof fn lemma_carried_present(cells: Seq<SnapshotEntry>, index: int)
    requires
        0 <= index < cells.len(),
        distinct(cells),
    ensures
        carried_position(cells, cells[index].id) == cells[index].position,
    decreases cells.len(),
{
    if index > 0 {
        let rest = cells.drop_first();
        assert(cells[0].id != cells[index].id);
        assert forall|i: int, j: int| 0 <= i < j < rest.len() implies (#[trigger] rest[i]).id != (
        #[trigger] rest[j]).id by {
            assert(cells[i + 1].id != cells[j + 1].id);
        }
        assert(rest[index - 1] == cells[index]);
        lemma_carried_present(rest, index - 1);
    }
}

pub(super) proof fn lemma_carried_absent(cells: Seq<SnapshotEntry>, id: u64)
    requires
        forall|i: int| 0 <= i < cells.len() ==> (#[trigger] cells[i]).id != id,
    ensures
        carried_position(cells, id) == origin(),
    decreases cells.len(),
{
    if cells.len() > 0 {
        let rest = cells.drop_first();
        assert(cells[0].id != id);
        assert forall|i: int| 0 <= i < rest.len() implies (#[trigger] rest[i]).id != id by {
            assert(cells[i + 1].id != id);
        }
        lemma_carried_absent(rest, id);
    }
}

pub(super) proof fn lemma_nothing_ended<T, S, M>(entries: Seq<MixerEntry<T, S, M>>)
    ensures
        not_ended(entries).len() <= entries.len(),
        not_ended(entries).len() == entries.len() ==> not_ended(entries) == entries,
    decreases entries.len(),
{
    if entries.len() > 0 {
        lemma_nothing_ended(entries.drop_last());
        assert(entries.drop_last().push(entries.last()) =~= entries);
    }
}

/// Position of a stream in a snapshot, or the start.
pub(super) fn find_position(cells: &Vec<SnapshotEntry>, id: u64) -> (position: Position)
    ensures
        position == carried_position(cells@, id),
{
    let mut i: usize = 0;
    assert(cells@.skip(0) =~= cells@);
    while i < cells.len()
        invariant
            i <= cells@.len(),
            carried_position(cells@, id) == carried_position(cells@.skip(i as int), id),
        decreases cells@.len() - i,
    {
        assert(cells@.skip(i as int).first() == cells@[i as int]);
        if cells[i].id == id {
            return cells[i].position;
        }
        assert(cells@.skip(i as int).drop_first() =~= cells@.skip(i + 1));
        i = i + 1;
    }
    Position { frame: 0, fraction: 0 }
}

/// No two entries share an id.
pub open spec fn distinct_entries<T, S, M>(entries: Seq<MixerEntry<T, S, M>>) -> bool {
    forall|i: int, j: int|
        0 <= i < j < entries.len() ==> (#[trigger] entries[i]).id != (#[trigger] entries[j]).id
}

/// Removing ended streams leaves no ended stream, removes no other, adds none,
/// and has nothing to do when done twice.
pub proof fn law_cleanup_keeps_the_live<T, S, M>(entries: Seq<MixerEntry<T, S, M>>)
    ensures
        forall|i: int|
            0 <= i < not_ended(entries).len() ==> !(#[trigger] not_ended(entries)[i]).state.eof,
        forall|i: int|
            0 <= i < entries.len() && !(#[trigger] entries[i]).state.eof ==> not_ended(
                entries,
            ).contains(entries[i]),
        forall|i: int|
            0 <= i < not_ended(entries).len() ==> entries.contains(
                #[trigger] not_ended(entries)[i],
            ),
        not_ended(not_ended(entries)) == not_ended(entries),
    decreases entries.len(),
{
    if entries.len() > 0 {
        let rest = entries.drop_last();
        law_cleanup_keeps_the_live(rest);
        let kept = not_ended(entries);
        assert forall|i: int| 0 <= i < entries.len() && !(
        #[trigger] entries[i]).state.eof implies kept.contains(entries[i]) by {
            if i < rest.len() {
                assert(rest[i] == entries[i]);
                let j = choose|j: int|
                    0 <= j < not_ended(rest).len() && not_ended(rest)[j] == entries[i];
                assert(kept[j] == entries[i]);
            } else {
                assert(kept.last() == entries[i]);
            }
        }
        assert forall|i: int| 0 <= i < kept.len() implies entries.contains(
            #[trigger] kept[i],
        ) by {
            if i < not_ended(rest).len() {
                assert(rest.contains(not_ended(rest)[i]));
                let j = choose|j: int| 0 <= j < rest.len() && rest[j] == kept[i];
                assert(entries[j] == kept[i]);
            } else {
                assert(entries.last() == kept[i]);
            }
        }
        if !entries.last().state.eof {
            assert(kept.drop_last() =~= not_ended(rest));
        }
    }
}

} // verus!
