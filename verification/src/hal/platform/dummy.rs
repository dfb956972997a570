//! Dummy audio device for unsupported platforms.
//!
//! The device pulls from its manager on a timer thread at approximately the
//! sample rate and discards the output. It is useful for testing the pipeline
//! on platforms without a real audio backend.

use std::sync::Arc;

use vstd::prelude::*;

use crate::error::{backend_cause, AudioError, ErrorView};
use crate::types::AudioFormat;

verus! {

/// Default sample rate of the dummy device: 48 kHz.
pub const DEFAULT_SAMPLE_RATE: u32 = 48000;

/// Default channel count of the dummy device: stereo.
pub const DEFAULT_CHANNELS: u16 = 2;

/// How often the dummy device pulls (every 10 ms = 100 Hz).
pub const PULL_INTERVAL_MS: u64 = 10;

/// The pull interval in nanoseconds.
pub const PULL_INTERVAL_NANOS: u64 = 10_000_000;

/// What the timer thread needs: the manager, and how many samples to pull in
/// each interval.
pub struct PullPlan<M> {
    pub manager: Arc<M>,
    pub samples_per_tick: usize,
}

/// Samples of one pull interval at the given format.
pub open spec fn samples_per_interval(format: AudioFormat) -> int {
    (format.sample_rate * PULL_INTERVAL_MS / 1000) * format.channels
}

/// A no-op audio device that pulls samples on a timer thread.
///
/// The device and its thread share the manager, so that a device which was
/// paused or stopped can be started again.
pub struct DummyDevice<M> {
    format: AudioFormat,
    manager: Arc<M>,
    running: bool,
}

impl<M> DummyDevice<M> {
    pub closed spec fn spec_format(&self) -> AudioFormat {
        self.format
    }

    /// The manager that is pulled from.
    pub closed spec fn manager(&self) -> M {
        *self.manager
    }

    pub closed spec fn running(&self) -> bool {
        self.running
    }

    /// One interval's samples can be counted.
    pub closed spec fn wf(&self) -> bool {
        samples_per_interval(self.format) <= usize::MAX
    }

    /// Create a new dummy device.
    pub fn new(manager: M) -> (device: Self)
        ensures
            device.wf(),
            device.spec_format() == (AudioFormat {
                sample_rate: DEFAULT_SAMPLE_RATE,
                channels: DEFAULT_CHANNELS,
            }),
            device.manager() == manager,
            !device.running(),
    {
        let format = AudioFormat::new(DEFAULT_SAMPLE_RATE, DEFAULT_CHANNELS);
        assert(samples_per_interval(format) == 960) by (nonlinear_arith)
            requires
                format.sample_rate == 48000,
                format.channels == 2,
        ;
        DummyDevice {
            format,
            manager: Arc::new(manager),
            running: false,
        }
    }

    pub fn format(&self) -> (format: AudioFormat)
        ensures
            format == self.spec_format(),
    {
        self.format
    }

    /// Share the manager with a timer thread that is to be spawned. `None` where
    /// one runs already. The outcome of spawning the thread goes to
    /// [`started`](Self::started).
    pub fn start(&self) -> (plan: Option<PullPlan<M>>)
        requires
            self.wf(),
        ensures
            plan is None <==> self.running(),
            plan is Some ==> *plan->0.manager == self.manager(),
            plan is Some ==> plan->0.samples_per_tick == samples_per_interval(self.spec_format()),
    {
        if self.running {
            return None;
        }
        let rate: u64 = self.format.sample_rate as u64;
        let frames: u64 = rate * PULL_INTERVAL_MS / 1000;
        let width: u64 = self.format.channels as u64;
        assert(frames <= 0xffff_ffff && width <= 0xffff);
        assert(frames * width <= 0xffff_ffff * 0xffff) by (nonlinear_arith)
            requires
                frames <= 0xffff_ffff,
                width <= 0xffff,
        ;
        Some(
            PullPlan {
                manager: Arc::clone(&self.manager),
                samples_per_tick: (frames * width) as usize,
            },
        )
    }

    /// Record the outcome of spawning the timer thread.
    pub fn started(&mut self, failure: Option<&str>) -> (result: Result<(), AudioError>)
        requires
            old(self).wf(),
        ensures
            final(self).wf(),
            final(self).spec_format() == old(self).spec_format(),
            final(self).manager() == old(self).manager(),
            final(self).running() == (old(self).running() || failure is None),
            match failure {
                Some(cause) => result is Err && result->Err_0@ == ErrorView::Backend(
                    "failed to spawn dummy thread"@ + ": "@ + cause@,
                ),
                None => result is Ok,
            },
    {
        match failure {
            Some(cause) => Err(backend_cause("failed to spawn dummy thread", cause)),
            None => {
                self.running = true;
                Ok(())
            },
        }
    }

    /// Record that the timer thread, if any, was stopped and joined. Pausing
    /// does the same; resuming does nothing, and playback goes on with the next
    /// [`start`](Self::start).
    pub fn stop(&mut self)
        requires
            old(self).wf(),
        ensures
            final(self).wf(),
            final(self).spec_format() == old(self).spec_format(),
            final(self).manager() == old(self).manager(),
            !final(self).running(),
    {
        self.running = false;
    }

    /// A device that was paused or stopped can be started again: whatever it went
    /// through since, it pulls as much from the same manager.
    pub proof fn law_stopped_devices_start_again(&self, stopped: &Self, plan: Option<PullPlan<M>>)
        requires
            stopped.manager() == self.manager(),
            stopped.spec_format() == self.spec_format(),
            !stopped.running(),
            call_ensures(Self::start, (stopped,), plan),
        ensures
            plan is Some,
            *plan->0.manager == self.manager(),
            plan->0.samples_per_tick == samples_per_interval(self.spec_format()),
    {
    }
}

/// When to pull next, and how long to sleep until then.
#[derive(Clone, Copy, Debug, PartialEq, Eq, Structural)]
pub struct NextPull {
    /// Time of the next tick, in nanoseconds.
    pub tick: u64,
    /// Nanoseconds to sleep.
    pub sleep: u64,
}

/// Keep the pull rate: the tick behind `tick` is one interval later, and a
/// thread that fell behind starts over from `now` without sleeping.
pub fn next_pull(tick: u64, now: u64) -> (next: NextPull)
    requires
        tick + PULL_INTERVAL_NANOS <= u64::MAX,
        now + PULL_INTERVAL_NANOS <= u64::MAX,
    ensures
        next == (if tick + PULL_INTERVAL_NANOS > now {
            NextPull {
                tick: (tick + PULL_INTERVAL_NANOS) as u64,
                sleep: (tick + PULL_INTERVAL_NANOS - now) as u64,
            }
        } else {
            NextPull { tick: (now + PULL_INTERVAL_NANOS) as u64, sleep: 0 }
        }),
        next.tick > now,
{
    let due: u64 = tick + PULL_INTERVAL_NANOS;
    if due > now {
        NextPull { tick: due, sleep: due - now }
    } else {
        NextPull { tick: now + PULL_INTERVAL_NANOS, sleep: 0 }
    }
}

} // verus!
