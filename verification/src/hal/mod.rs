pub mod callback;
pub mod device;
pub mod guarantees;
pub mod manager;
pub mod platform;
pub mod shared_format;

pub use device::{AudioDevice, DeviceOperation};
pub use manager::AudioManager;
pub use shared_format::SharedFormat;
