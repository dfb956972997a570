//! The current output format, shared by a device and the thread that owns its
//! endpoint.

use vstd::prelude::*;

use crate::types::AudioFormat;

verus! {

/// The lock that `parking_lot` builds on.
#[verifier::external_type_specification]
#[verifier::external_body]
pub struct ExRawRwLock(parking_lot::RawRwLock);

/// A reader-writer lock of `parking_lot`.
#[verifier::external_type_specification]
#[verifier::external_body]
#[verifier::reject_recursive_types(R)]
#[verifier::reject_recursive_types(T)]
pub struct ExRwLock<R, T: ?Sized>(parking_lot::lock_api::RwLock<R, T>);

/// Whether samples of a format can be counted in frames and seconds.
pub open spec fn is_playable(format: AudioFormat) -> bool {
    format.sample_rate > 0 && format.channels > 0
}

/// Every format that a lock holds at some time of its life.
pub uninterp spec fn formats_held(lock: parking_lot::RwLock<AudioFormat>) -> Set<AudioFormat>;

/// The output format of an endpoint that another thread may replace.
pub struct SharedFormat {
    current: parking_lot::RwLock<AudioFormat>,
}

/// Calls `parking_lot::RwLock::new`, which makes a lock that holds the given
/// value. Every value that a `SharedFormat` is given is playable.
#[verifier::external_body]
fn new_lock(format: AudioFormat) -> (lock: parking_lot::RwLock<AudioFormat>)
    requires
        is_playable(format),
    ensures
        formats_held(lock).contains(format),
{
    parking_lot::RwLock::new(format)
}

/// Calls `parking_lot::RwLock::write`, which waits for exclusive access, replaces
/// the value and returns what the lock holds then: the given one. Every value
/// that a `SharedFormat` is given is playable. How long the lock holds it depends
/// on the other threads and is not said.
#[verifier::external_body]
fn write_format(shared: &SharedFormat, format: AudioFormat) -> (held: AudioFormat)
    requires
        is_playable(format),
    ensures
        held == format,
        shared.formats().contains(held),
{
    let mut guard = shared.current.write();
    *guard = format;
    *guard
}

/// Calls `parking_lot::RwLock::read`, which waits for shared access, and copies
/// the value. It is one that the lock holds: the one it was made with or one that
/// was written to it, all of which are playable. Which of them it is depends on
/// the other threads and is not said.
#[verifier::external_body]
fn read_format(shared: &SharedFormat) -> (format: AudioFormat)
    ensures
        is_playable(format),
        shared.formats().contains(format),
{
    *shared.current.read()
}

impl SharedFormat {
    /// Every format that is held here at some time.
    pub closed spec fn formats(&self) -> Set<AudioFormat> {
        formats_held(self.current)
    }

    /// Hold the given format.
    pub fn new(format: AudioFormat) -> (shared: Self)
        requires
            is_playable(format),
        ensures
            shared.formats().contains(format),
    {
        SharedFormat { current: new_lock(format) }
    }

    /// Replace the format.
    pub fn set(&self, format: AudioFormat)
        requires
            is_playable(format),
        ensures
            self.formats().contains(format),
    {
        let _held = write_format(self, format);
    }

    /// The current format. Whichever it is of those held here, it is playable.
    pub fn get(&self) -> (format: AudioFormat)
        ensures
            is_playable(format),
            self.formats().contains(format),
    {
        read_format(self)
    }
}

} // verus!
