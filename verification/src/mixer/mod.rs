pub mod callback;
pub mod continuity;
pub mod control;
pub mod controls;
pub mod entry;
pub mod guarantees;
pub mod kernel;
#[allow(clippy::module_inception)]
pub mod mixer;
pub mod published;
pub mod source;

pub use control::{PlayHandle, StreamState, UNIT_VOLUME};
pub use entry::{MixerEntry, SnapshotEntry};
pub use kernel::{Advance, MixMath, Position, ResampleRatio, Tap};
pub use mixer::Mixer;
pub use published::{MixerSnapshot, SnapshotCell};
pub use source::{AudioStream, StreamModifier};
