pub mod buffer;
pub mod levels;
pub mod ring;
pub mod worker;

pub use buffer::{
    buffer_capacity, buffer_capacity_of, BufferError, BufferedAudioStream, GroupFill, RefillPlan,
};
pub use ring::{AudioBuffer, FillLevel, BUFFER_WATERMARK_PERCENT};
pub use worker::{
    acquire_worker_handle, fill_groups, fill_round, spawn_failed, Acquired, BufferGroup, FillRound,
    Wake, WorkerHandle, WorkerState, WorkerStep,
};
