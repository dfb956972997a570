use vstd::prelude::*;

verus! {

/// Sample rate and channel count of an interleaved PCM stream.
#[derive(Clone, Copy, Debug, PartialEq, Eq, Structural)]
pub struct AudioFormat {
    pub sample_rate: u32,
    pub channels: u16,
}

impl AudioFormat {
    pub fn new(sample_rate: u32, channels: u16) -> (format: Self)
        ensures
            format == (AudioFormat { sample_rate, channels }),
    {
        AudioFormat { sample_rate, channels }
    }
}

} // verus!
