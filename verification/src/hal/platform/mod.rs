//! The decisions of the platform audio backends.
//!
//! Each backend asks its module here what to do next, performs the native
//! call, and hands the outcome back.

pub mod control;
pub mod coreaudio;
pub mod dummy;
pub mod oboe;
pub mod ohos;
pub mod wasapi;
