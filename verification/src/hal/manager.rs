use std::sync::Arc;

use vstd::prelude::*;

use crate::types::AudioFormat;

verus! {

/// Provides PCM samples on demand.
///
/// Implementations are invoked by the platform audio thread whenever the
/// output device needs more samples. The manager fills the buffer with
/// interleaved samples and returns the number of frames written.
pub trait AudioManager<T>: Send + Sync + 'static {
    /// Whether a pull may turn a buffer that holds `before` into one that holds
    /// `after` and answer `frames`. A manager that promises nothing leaves this
    /// as it is.
    open spec fn pulls(&self, before: Seq<T>, after: Seq<T>, frames: usize) -> bool {
        true
    }

    /// Called when the audio device needs PCM samples.
    ///
    /// Returning fewer frames than requested, or zero, causes the backend to
    /// fill the remainder with silence.
    fn pull(&self, buffer: &mut [T]) -> (frames: usize)
        ensures
            final(buffer)@.len() == old(buffer)@.len(),
            self.pulls(old(buffer)@, final(buffer)@, frames),
    ;

    /// Called after the active output endpoint becomes unusable.
    fn on_device_invalidated(&self) {
    }

    /// Called when a rebuilt output endpoint reports a different format.
    ///
    /// The format is final for the newly opened endpoint.
    fn on_device_format_changed(&self, _format: AudioFormat) {
    }

    /// Called after a replacement output endpoint has been made ready.
    ///
    /// The endpoint can still be paused.
    fn on_device_recovered(&self) {
    }
}

impl<T, M: AudioManager<T> + ?Sized> AudioManager<T> for Arc<M> {
    open spec fn pulls(&self, before: Seq<T>, after: Seq<T>, frames: usize) -> bool {
        (**self).pulls(before, after, frames)
    }

    fn pull(&self, buffer: &mut [T]) -> (frames: usize) {
        (**self).pull(buffer)
    }

    fn on_device_invalidated(&self)
        ensures
            call_ensures(M::on_device_invalidated, (&**self,), ()),
    {
        (**self).on_device_invalidated()
    }

    fn on_device_format_changed(&self, format: AudioFormat)
        ensures
            call_ensures(M::on_device_format_changed, (&**self, format), ()),
    {
        (**self).on_device_format_changed(format)
    }

    fn on_device_recovered(&self)
        ensures
            call_ensures(M::on_device_recovered, (&**self,), ()),
    {
        (**self).on_device_recovered()
    }
}

} // verus!
