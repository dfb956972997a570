use vstd::prelude::*;

verus! {

/// The bit pattern of full volume, `1.0` in single precision.
pub const UNIT_VOLUME: u32 = 0x3f80_0000;

/// Playback state of one stream.
#[derive(Clone, Copy, Debug, PartialEq, Eq, Structural)]
pub struct StreamState {
    pub paused: bool,
    pub alive: bool,
    /// Set once the stream has delivered its last sample.
    pub eof: bool,
    /// Volume as a single-precision bit pattern.
    pub volume: u32,
}

impl StreamState {
    /// A live stream at full volume.
    pub fn new(paused: bool) -> (state: Self)
        ensures
            state == (StreamState { paused, alive: true, eof: false, volume: UNIT_VOLUME }),
    {
        StreamState { paused, alive: true, eof: false, volume: UNIT_VOLUME }
    }
}

/// Names a stream in a mixer.
#[derive(Clone, Copy, Debug, PartialEq, Eq, Structural)]
pub struct PlayHandle {
    pub id: u64,
}

} // verus!
