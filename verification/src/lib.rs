//! Audio playback: a mixer, buffered and retriggerable streams, and the
//! lifecycle of the platform output devices that drive them.
//!
//! Samples are a type parameter `T`. The library moves, orders and schedules
//! them; what adding, scaling or interpolating two samples means is supplied
//! by the host through [`mixer::MixMath`] and [`stream::EffectMath`].

pub mod error;
pub mod text;
pub mod types;
pub mod hal;
pub mod mixer;
pub mod player;
pub mod stream;
