use vstd::prelude::*;

use crate::error::AudioError;
use crate::types::AudioFormat;

verus! {

/// A lifecycle operation of an [`AudioDevice`].
#[derive(Clone, Copy, Debug, PartialEq, Eq, Structural)]
pub enum DeviceOperation {
    Start,
    Stop,
    Pause,
    Resume,
}

/// A platform audio output device.
///
/// An `AudioDevice` wraps the platform-specific audio API and drives an
/// [`AudioManager`](super::AudioManager) on the audio thread.
pub trait AudioDevice: Send {
    /// Whether an operation may turn this device into `after` and answer
    /// `result`. A device that promises nothing leaves this as it is.
    open spec fn performs(
        &self,
        operation: DeviceOperation,
        after: &Self,
        result: Result<(), AudioError>,
    ) -> bool {
        true
    }

    /// Return the hardware's actual audio format (sample rate + channels).
    ///
    /// The device auto-detects the best format for lowest latency.
    /// Read this before setting up your audio pipeline.
    fn format(&self) -> AudioFormat;

    /// Start playback. The device will begin pulling samples on the audio
    /// thread.
    fn start(&mut self) -> (result: Result<(), AudioError>)
        ensures
            old(self).performs(DeviceOperation::Start, final(self), result),
    ;

    /// Stop playback and release the audio resources.
    fn stop(&mut self) -> (result: Result<(), AudioError>)
        ensures
            old(self).performs(DeviceOperation::Stop, final(self), result),
    ;

    /// Pause playback. The callback will no longer be invoked.
    fn pause(&mut self) -> (result: Result<(), AudioError>)
        ensures
            old(self).performs(DeviceOperation::Pause, final(self), result),
    ;

    /// Resume playback after a pause.
    fn resume(&mut self) -> (result: Result<(), AudioError>)
        ensures
            old(self).performs(DeviceOperation::Resume, final(self), result),
    ;
}

} // verus!
