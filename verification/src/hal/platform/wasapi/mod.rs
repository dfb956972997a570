//! Event-driven WASAPI shared-mode output.
//!
//! A worker thread owns the endpoint and all its handles. Control calls only
//! enqueue commands and wake that worker.

pub mod client;
pub mod format;
pub mod guarantees;
pub mod notification;
pub mod worker;

pub use client::{
    ClientCall, ClientNext, ClientOpening, ClientReply, ClientStep, FillPlan, RenderError,
    WasapiClient,
};
pub use format::{
    parse_float_format, wasapi_error, WaveFormat, SUBTYPE_IEEE_FLOAT, WAVE_FORMAT_BYTES,
    WAVE_FORMAT_EXTENSIBLE, WAVE_FORMAT_EXTENSIBLE_BYTES, WAVE_FORMAT_IEEE_FLOAT,
};
pub use notification::{DeviceChangeSignal, Notification};
pub use worker::{
    after_startup_call, request_result, startup_result, Command, CommandStep, PlaybackState,
    RecoveryStep, StartupCall, StartupNext, WaitOutcome, WaitStep, Worker, WorkerStatus,
    DEFAULT_RETRY_NANOS, MAX_RETRY_NANOS,
};
