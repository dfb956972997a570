use std::sync::Arc;

use vstd::prelude::*;

use crate::error::AudioError;

verus! {

/// A source of interleaved PCM samples.
///
/// Implementations are shared between the control thread and the thread that
/// pulls samples, so every method takes `&self`.
pub trait AudioStream<T>: Send + Sync {
    /// Whether a request for `frame_count` frames may turn a buffer that holds
    /// `before` into one that holds `after` and answer `count`. A stream that
    /// promises nothing leaves this as it is.
    open spec fn provides(
        &self,
        frame_count: u64,
        before: Seq<T>,
        after: Seq<T>,
        count: usize,
    ) -> bool {
        true
    }

    /// Fill `buffer` with up to `frame_count` frames. Returns the number of
    /// samples provided.
    fn read(&self, buffer: &mut [T], frame_count: u64) -> (count: usize)
        ensures
            final(buffer)@.len() == old(buffer)@.len(),
            self.provides(frame_count, old(buffer)@, final(buffer)@, count),
    ;

    /// Continue from the given frame.
    fn seek(&self, frame: u64) -> Result<(), AudioError>;

    /// Whether no more samples will ever come.
    fn is_eof(&self) -> bool;

    /// Number of interleaved channels.
    fn channels(&self) -> u16;

    /// Frames per second.
    fn sample_rate(&self) -> u32;
}

impl<T, S: AudioStream<T> + ?Sized> AudioStream<T> for Arc<S> {
    open spec fn provides(
        &self,
        frame_count: u64,
        before: Seq<T>,
        after: Seq<T>,
        count: usize,
    ) -> bool {
        (**self).provides(frame_count, before, after, count)
    }

    fn read(&self, buffer: &mut [T], frame_count: u64) -> (count: usize) {
        (**self).read(buffer, frame_count)
    }

    fn seek(&self, frame: u64) -> (result: Result<(), AudioError>)
        ensures
            call_ensures(S::seek, (&**self, frame), result),
    {
        (**self).seek(frame)
    }

    fn is_eof(&self) -> (eof: bool)
        ensures
            call_ensures(S::is_eof, (&**self,), eof),
    {
        (**self).is_eof()
    }

    fn channels(&self) -> (channels: u16)
        ensures
            call_ensures(S::channels, (&**self,), channels),
    {
        (**self).channels()
    }

    fn sample_rate(&self) -> (rate: u32)
        ensures
            call_ensures(S::sample_rate, (&**self,), rate),
    {
        (**self).sample_rate()
    }
}

/// A per-stream effect, applied to samples in place before they are mixed.
pub trait StreamModifier<T>: Send + Sync {
    /// Whether the effect may turn `before` into `after`. An effect that
    /// promises nothing leaves this as it is.
    open spec fn modifies(&self, before: Seq<T>, after: Seq<T>) -> bool {
        true
    }

    fn apply(&self, samples: &mut [T])
        ensures
            final(samples)@.len() == old(samples)@.len(),
            self.modifies(old(samples)@, final(samples)@),
    ;
}

} // verus!
