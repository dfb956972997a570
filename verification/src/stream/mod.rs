pub mod buffered_stream;
pub mod soundfx;
pub mod voices;

pub use soundfx::{EffectMath, SoundFx, INACTIVE};
