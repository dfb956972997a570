//! CoreAudio backend shared by macOS and iOS.
//!
//! Opening a unit, the unit's lifetime, endpoint recovery and the worker that
//! drives it.

pub mod guarantees;
pub mod open;
pub mod session;
pub mod signal;
pub mod state;
pub mod unit;

pub use open::{
    after_open_call, default_format, hardware_format, pcm_format, OpenCall, OpenNext, OpenStep,
    PcmFormat, Platform, DEFAULT_CHANNELS, DEFAULT_SAMPLE_RATE,
};
pub use session::{
    after_session_call, default_output_property_address, monitor_installed, playback_category,
    playback_mode, route_notifications, session_found, AudioObjectPropertyAddress, SessionCall,
    SessionGuard, SessionNext, SessionRestore, AUDIO_OBJECT_SYSTEM_OBJECT,
};
pub use signal::{RebuildSignal, WorkerAction, RETRY_INTERVAL_MS};
pub use state::{CoreAudioState, EndpointStatus, Rebuild, RebuildBegin, RebuildCall, RebuildNext};
pub use unit::{AudioUnitOwner, Teardown, UnitCall, UnitNext, UnitStep, NO_ERR};
