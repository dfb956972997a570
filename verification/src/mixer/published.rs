//! The snapshot as other threads see it.
//!
//! The thread that owns a mixer publishes a frozen snapshot after every change
//! of the format or of the stream list. Any other thread can load the current
//! one without waiting for the owner.

use std::sync::Arc;

use vstd::prelude::*;

use super::entry::{distinct, SnapshotEntry};
use crate::types::AudioFormat;

verus! {

/// A frozen snapshot of all streams. The output format and the derived
/// resampling ratios are published together.
pub struct MixerSnapshot {
    pub format: AudioFormat,
    pub entries: Vec<SnapshotEntry>,
}

impl View for MixerSnapshot {
    type V = (AudioFormat, Seq<SnapshotEntry>);

    open spec fn view(&self) -> (AudioFormat, Seq<SnapshotEntry>) {
        (self.format, self.entries@)
    }
}

impl MixerSnapshot {
    /// The ratios are those of the format, and no two streams share an id.
    pub open spec fn wf(&self) -> bool {
        &&& forall|i: int|
            0 <= i < self.entries@.len() ==> (#[trigger] self.entries@[i]).ratio.mixer_rate
                == self.format.sample_rate
        &&& distinct(self.entries@)
    }

    /// Return the target audio format.
    pub fn format(&self) -> (format: AudioFormat)
        ensures
            format == self.format,
    {
        self.format
    }

    /// Number of streams in the snapshot.
    pub fn stream_count(&self) -> (count: usize)
        ensures
            count == self.entries@.len(),
    {
        self.entries.len()
    }
}

/// Holds the current snapshot, to be swapped atomically.
#[verifier::external_body]
pub struct SnapshotCell {
    current: arc_swap::ArcSwap<MixerSnapshot>,
}

/// Every snapshot that a cell holds at some time of its life.
pub uninterp spec fn snapshots_held(cell: SnapshotCell) -> Set<(AudioFormat, Seq<SnapshotEntry>)>;

/// Calls `arc_swap::ArcSwap::new`, which makes a cell that holds the given
/// value. Every value that a cell is given is well-formed.
#[verifier::external_body]
fn new_cell(snapshot: Arc<MixerSnapshot>) -> (cell: SnapshotCell)
    requires
        snapshot.wf(),
    ensures
        snapshots_held(cell).contains(snapshot@),
{
    SnapshotCell { current: arc_swap::ArcSwap::new(snapshot) }
}

/// Calls `arc_swap::ArcSwap::store`, which replaces the value that the cell
/// holds, and returns the value that it was given. Every value that a cell is
/// given is well-formed. How long the cell holds it depends on the other threads
/// and is not said.
#[verifier::external_body]
fn store_snapshot(cell: &SnapshotCell, snapshot: Arc<MixerSnapshot>) -> (stored: Arc<MixerSnapshot>)
    requires
        snapshot.wf(),
    ensures
        stored == snapshot,
        snapshots_held(*cell).contains(stored@),
{
    cell.current.store(Arc::clone(&snapshot));
    snapshot
}

/// Calls `arc_swap::ArcSwap::load_full`, which returns a value that the cell
/// holds: the one it was made with or one that was stored in it, all of which
/// are well-formed. Which of them it is depends on the other threads and is not
/// said.
#[verifier::external_body]
fn load_snapshot(cell: &SnapshotCell) -> (snapshot: Arc<MixerSnapshot>)
    ensures
        snapshot.wf(),
        snapshots_held(*cell).contains(snapshot@),
{
    cell.current.load_full()
}

impl SnapshotCell {
    /// A cell that holds the given snapshot.
    pub fn new(snapshot: MixerSnapshot) -> (cell: Self)
        requires
            snapshot.wf(),
        ensures
            snapshots_held(cell).contains(snapshot@),
    {
        new_cell(Arc::new(snapshot))
    }

    /// Publish a snapshot. One that is still in use elsewhere stays alive there.
    pub fn publish(&self, snapshot: MixerSnapshot)
        requires
            snapshot.wf(),
        ensures
            snapshots_held(*self).contains(snapshot@),
    {
        let _stored = store_snapshot(self, Arc::new(snapshot));
    }

    /// The current snapshot. Whichever it is of those held here, its ratios are
    /// those of its format.
    pub fn load(&self) -> (snapshot: Arc<MixerSnapshot>)
        ensures
            snapshot.wf(),
            snapshots_held(*self).contains(snapshot@),
    {
        load_snapshot(self)
    }
}

} // verus!
