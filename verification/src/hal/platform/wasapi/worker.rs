//! The worker that owns the endpoint: its commands, its recovery, and what it
//! waits for.
//!
//! Times are in nanoseconds of a monotonic clock.

use vstd::prelude::*;

use super::client::WasapiClient;
use super::format::{wasapi_error, wasapi_text};
use crate::error::{backend_message, outcome, AudioError, ErrorView};
use crate::types::AudioFormat;

verus! {

/// Delay before the first retry of a recovery: 50 ms.
pub const DEFAULT_RETRY_NANOS: u64 = 50_000_000;

/// Longest delay between two retries: 1 s.
pub const MAX_RETRY_NANOS: u64 = 1_000_000_000;

/// Nanoseconds of a millisecond.
pub const NANOS_PER_MILLI: u64 = 1_000_000;

#[derive(Clone, Copy, Debug, PartialEq, Eq, Structural)]
pub enum PlaybackState {
    Stopped,
    Running,
    Paused,
}

/// A request to the worker.
#[derive(Clone, Copy, Debug, PartialEq, Eq, Structural)]
pub enum Command {
    Start,
    Stop,
    Pause,
    Resume,
    Shutdown,
}

/// What to do about a command.
#[derive(Clone, Copy, Debug, PartialEq, Eq, Structural)]
pub enum CommandStep {
    /// Reply that it is done.
    Reply,
    /// Try to recover, then reply that it is done. A recovery starts the client
    /// that it opens.
    Recover,
    /// Start the client; the outcome goes to [`Worker::start_replied`] and is
    /// the reply.
    StartClient,
    /// Stop the client; the outcome is the reply.
    StopClient,
    /// Stop the client and close it; the outcome of stopping is the reply.
    CloseClient,
    /// Stop the client and close it where there is one, reply, and leave.
    Exit { close_client: bool },
}

/// What to do about a recovery.
#[derive(Clone, Copy, Debug, PartialEq, Eq, Structural)]
pub enum RecoveryStep {
    /// Nothing for now.
    Wait,
    /// Tell the manager of the loss where asked to, then open a client.
    Open { notify_invalidated: bool },
    /// Tell the manager the format, then start the client.
    Start,
    /// Tell the manager the format where it was not told, and that the endpoint
    /// is back where asked to.
    Recovered { notify_recovered: bool },
    /// Close the client where there is one; try again later.
    Retry,
}

/// What the worker waits for.
#[derive(Clone, Copy, Debug, PartialEq, Eq, Structural)]
pub enum WaitStep {
    /// Wait to be woken, at most for the given number of milliseconds.
    Wake { timeout: Option<u32> },
    /// Wait for room in the render buffer or to be woken.
    Buffer,
    /// Nothing: go on at once.
    Nothing,
}

/// How a wait for the render buffer ended.
#[derive(Clone, Copy, Debug, PartialEq, Eq, Structural)]
pub enum WaitOutcome {
    BufferReady,
    Woken,
    TimedOut,
    Failed,
}

/// The worker of a WASAPI device.
#[derive(Clone, Copy, Debug, PartialEq, Eq, Structural)]
pub struct Worker {
    status: WorkerStatus,
}

/// What a worker has and what it is doing.
#[derive(Clone, Copy, Debug, PartialEq, Eq, Structural)]
pub struct WorkerStatus {
    pub format: AudioFormat,
    pub client: Option<WasapiClient>,
    /// Samples of the scratch buffer.
    pub scratch: usize,
    pub state: PlaybackState,
    pub recovery_pending: bool,
    /// Whether the manager is told of this recovery.
    pub notify_recovery: bool,
    /// Whether the manager was told of the loss.
    pub recovery_notified: bool,
    pub retry_at: u64,
    pub retry_delay: u64,
}

/// An attempt to recover that failed.
#[derive(Clone, Copy, Debug)]
pub struct FailedAttempt {
    /// When it was begun and when it had failed.
    pub begun: u64,
    pub failed: u64,
    /// The client that could not be started, or `None` where none could be opened.
    pub opened: Option<(WasapiClient, AudioFormat)>,
}

/// `delay` behind `now`.
pub open spec fn later(now: u64, delay: u64) -> u64 {
    if now + delay > u64::MAX {
        u64::MAX
    } else {
        (now + delay) as u64
    }
}

/// The delay behind `delay`: twice as long, up to the longest.
pub open spec fn longer(delay: u64) -> u64 {
    if delay * 2 < MAX_RETRY_NANOS {
        (delay * 2) as u64
    } else {
        MAX_RETRY_NANOS
    }
}

impl WorkerStatus {
    /// A stopped device is not recovered, the scratch buffer holds the render
    /// buffer, and delays stay within their limits.
    pub open spec fn wf(&self) -> bool {
        &&& self.recovery_pending ==> self.state != PlaybackState::Stopped
        &&& self.client is Some ==> self.client->0.capacity() == self.scratch
        &&& DEFAULT_RETRY_NANOS <= self.retry_delay <= MAX_RETRY_NANOS
    }

    /// The worker with a client.
    pub open spec fn installed(self, client: WasapiClient, format: AudioFormat) -> WorkerStatus {
        WorkerStatus { client: Some(client), format, scratch: client.capacity() as usize, ..self }
    }

    /// The worker once its endpoint is lost.
    pub open spec fn losing(self, now: u64) -> WorkerStatus {
        if self.state == PlaybackState::Stopped {
            self
        } else {
            WorkerStatus {
                client: None,
                recovery_pending: true,
                notify_recovery: true,
                retry_at: now,
                retry_delay: DEFAULT_RETRY_NANOS,
                ..self
            }
        }
    }

    /// The worker once an attempt to recover has failed.
    pub open spec fn delayed(self, now: u64) -> WorkerStatus {
        WorkerStatus {
            retry_at: later(now, self.retry_delay),
            retry_delay: longer(self.retry_delay),
            ..self
        }
    }

    /// The worker once it has recovered.
    pub open spec fn back(self) -> WorkerStatus {
        WorkerStatus {
            recovery_pending: false,
            notify_recovery: false,
            recovery_notified: false,
            retry_delay: DEFAULT_RETRY_NANOS,
            ..self
        }
    }

    /// Whether an attempt to recover is due.
    pub open spec fn recovery_due(self, now: u64) -> bool {
        self.recovery_pending && now >= self.retry_at
    }

    /// Whether an attempt to recover tells the manager of the loss.
    pub open spec fn tells_loss(self, now: u64) -> bool {
        self.recovery_due(now) && self.notify_recovery && !self.recovery_notified
    }

    /// The worker while it tries to recover, where that is due: the manager was
    /// told of the loss, where it is told of this recovery.
    pub open spec fn trying(self, now: u64) -> WorkerStatus {
        WorkerStatus {
            recovery_notified: self.recovery_notified || (self.recovery_due(now)
                && self.notify_recovery),
            ..self
        }
    }

    /// The worker once it plays or has to recover before it can.
    pub open spec fn playing(self, now: u64) -> WorkerStatus {
        let running = WorkerStatus { state: PlaybackState::Running, ..self };
        if self.client is None {
            WorkerStatus { recovery_pending: true, notify_recovery: false, retry_at: now, ..running }
        } else {
            running
        }
    }

    /// What to do about a command.
    pub open spec fn step_for(self, command: Command) -> CommandStep {
        match command {
            Command::Start => if self.state == PlaybackState::Running {
                CommandStep::Reply
            } else if self.client is Some && !self.recovery_pending {
                CommandStep::StartClient
            } else {
                CommandStep::Recover
            },
            Command::Stop => if self.client is Some {
                CommandStep::CloseClient
            } else {
                CommandStep::Reply
            },
            Command::Pause => if self.state == PlaybackState::Running && self.client is Some {
                CommandStep::StopClient
            } else {
                CommandStep::Reply
            },
            Command::Resume => if self.state == PlaybackState::Paused && self.client is Some {
                CommandStep::StartClient
            } else {
                CommandStep::Reply
            },
            Command::Shutdown => CommandStep::Exit { close_client: self.client is Some },
        }
    }

    /// The worker after taking a command.
    pub open spec fn commanded(self, command: Command, now: u64) -> WorkerStatus {
        match command {
            Command::Start => if self.state == PlaybackState::Running {
                self
            } else {
                self.playing(now)
            },
            Command::Stop => WorkerStatus {
                state: PlaybackState::Stopped,
                recovery_pending: false,
                notify_recovery: false,
                recovery_notified: false,
                scratch: 0,
                client: None,
                ..self
            },
            Command::Pause => if self.state == PlaybackState::Running {
                WorkerStatus { state: PlaybackState::Paused, ..self }
            } else {
                self
            },
            Command::Resume => if self.state == PlaybackState::Paused {
                self.playing(now)
            } else {
                self
            },
            Command::Shutdown => WorkerStatus {
                state: PlaybackState::Stopped,
                recovery_pending: false,
                client: None,
                ..self
            },
        }
    }

    /// Milliseconds until the next attempt to recover.
    pub open spec fn timeout(self, now: u64) -> u32 {
        if self.retry_at <= now {
            0
        } else if (self.retry_at - now) / NANOS_PER_MILLI as int > u32::MAX {
            u32::MAX
        } else {
            ((self.retry_at - now) / NANOS_PER_MILLI as int) as u32
        }
    }

    /// Stopping wins over recovering: a stopped device has no client, is not
    /// recovered and stays so until it is started, whatever is reported to it.
    pub proof fn law_stopping_ends_recovery(self, now: u64, later: u64)
        requires
            self.wf(),
        ensures
            ({
                let stopped = self.commanded(Command::Stop, now);
                &&& stopped.wf()
                &&& stopped.client is None
                &&& !stopped.recovery_due(later)
                &&& stopped.losing(later) == stopped
                &&& stopped.commanded(Command::Pause, later) == stopped
                &&& stopped.commanded(Command::Resume, later) == stopped
                &&& stopped.commanded(Command::Stop, later) == stopped
            }),
    {
    }

    /// A start that is not there yet starts a client exactly once: the client that
    /// is there, or else the one that the recovery opens. The device runs then, and
    /// a further start does nothing.
    pub proof fn law_starting_starts_one_client(
        self,
        client: WasapiClient,
        format: AudioFormat,
        now: u64,
    )
        requires
            self.wf(),
            self.state != PlaybackState::Running,
            client.capacity() <= usize::MAX,
        ensures
            ({
                let playing = self.commanded(Command::Start, now);
                let opened = playing.trying(now).installed(client, format);
                &&& playing.state == PlaybackState::Running
                &&& self.client is Some && !self.recovery_pending ==> {
                    &&& self.step_for(Command::Start) == CommandStep::StartClient
                    &&& !playing.recovery_pending
                    &&& playing.step_for(Command::Start) == CommandStep::Reply
                }
                &&& self.client is None ==> {
                    &&& self.step_for(Command::Start) == CommandStep::Recover
                    &&& playing.recovery_due(now)
                    &&& opened.wf() && opened.state == PlaybackState::Running
                    &&& opened.back().state == PlaybackState::Running
                    &&& opened.back().client == Some(client)
                    &&& !opened.back().recovery_pending
                    &&& opened.back().step_for(Command::Start) == CommandStep::Reply
                }
            }),
    {
    }

    /// Pausing and resuming undo each other, where the endpoint is there.
    pub proof fn law_resuming_undoes_pausing(self, now: u64, later: u64)
        requires
            self.state == PlaybackState::Running,
            self.client is Some,
        ensures
            self.commanded(Command::Pause, now).commanded(Command::Resume, later) == self,
    {
    }

    /// The manager hears of a loss once and of the recovery once: after it was
    /// told of the loss it is not told again before the recovery ended, and after
    /// that it is told of nothing until the next loss. It never hears of a
    /// recovery from a loss that it was not told of.
    pub proof fn law_losses_are_reported_once(self, now: u64, later: u64)
        requires
            self.wf(),
            self.state != PlaybackState::Stopped,
        ensures
            ({
                let lost = self.losing(now);
                let told = lost.trying(now);
                &&& lost.wf()
                &&& lost.recovery_due(now)
                &&& lost.notify_recovery
                &&& told.recovery_notified
                &&& told.delayed(later).recovery_notified
                &&& told.losing(later).recovery_notified
                &&& !told.back().notify_recovery
                &&& !told.back().recovery_notified
                &&& !told.back().recovery_due(later)
            }),
            self.recovery_due(now) && self.trying(now).notify_recovery ==> self.trying(
                now,
            ).recovery_notified,
    {
    }

    /// The worker after attempts to recover that failed, one after another.
    pub open spec fn after_failures(self, attempts: Seq<FailedAttempt>) -> WorkerStatus
        decreases attempts.len(),
    {
        if attempts.len() == 0 {
            self
        } else {
            let before = self.after_failures(attempts.drop_last());
            let attempt = attempts.last();
            let tried = before.trying(attempt.begun);
            match attempt.opened {
                None => tried.delayed(attempt.failed),
                Some((client, format)) => (WorkerStatus {
                    client: None,
                    ..tried.installed(client, format)
                }).delayed(attempt.failed),
            }
        }
    }

    /// Whether each of `attempts` was due when it was begun.
    pub open spec fn all_due(self, attempts: Seq<FailedAttempt>) -> bool {
        forall|k: int|
            0 <= k < attempts.len() ==> self.after_failures(attempts.take(k)).recovery_due(
                (#[trigger] attempts[k]).begun,
            )
    }

    /// However many attempts to recover from a loss fail, the manager hears of the
    /// loss once, with the first, and of the recovery once, when it ends. After
    /// `attempts` failures the next one is due a delay of as many doublings behind
    /// the last, and a further failure makes the delay one doubling longer.
    pub proof fn law_recovery_is_told_once(
        self,
        now: u64,
        attempts: Seq<FailedAttempt>,
        begun: u64,
    )
        requires
            self.wf(),
            self.state != PlaybackState::Stopped,
            self.losing(now).all_due(attempts),
        ensures
            ({
                let lost = self.losing(now);
                let after = lost.after_failures(attempts);
                &&& after.wf()
                &&& after.recovery_pending && after.client is None && after.state == self.state
                &&& after.retry_delay == backoff(attempts.len())
                &&& after.retry_at == (if attempts.len() == 0 {
                    now
                } else {
                    later(attempts.last().failed, backoff((attempts.len() - 1) as nat))
                })
                &&& after.tells_loss(begun) == (after.recovery_due(begun) && attempts.len() == 0
                    && !self.recovery_notified)
                &&& after.recovery_due(begun) ==> after.trying(begun).recovery_notified
                &&& after.trying(begun).notify_recovery
                &&& !after.trying(begun).back().notify_recovery
                &&& !after.trying(begun).back().recovery_pending
                &&& after.trying(begun).back().retry_delay == DEFAULT_RETRY_NANOS
            }),
            forall|k: int|
                0 <= k < attempts.len() ==> self.losing(now).after_failures(
                    attempts.take(k),
                ).tells_loss((#[trigger] attempts[k]).begun) == (k == 0
                    && !self.recovery_notified),
        decreases attempts.len(),
    {
        let lost = self.losing(now);
        law_backoff_is_bounded(attempts.len());
        if attempts.len() > 0 {
            let rest = attempts.drop_last();
            let last = attempts.len() - 1;
            assert(rest =~= attempts.take(last));
            assert forall|k: int| 0 <= k < rest.len() implies lost.after_failures(
                rest.take(k),
            ).recovery_due((#[trigger] rest[k]).begun) by {
                assert(rest.take(k) =~= attempts.take(k));
                assert(attempts[k] == rest[k]);
            }
            self.law_recovery_is_told_once(now, rest, attempts.last().begun);
            assert(attempts[last] == attempts.last());
            assert forall|k: int| 0 <= k < attempts.len() implies lost.after_failures(
                attempts.take(k),
            ).tells_loss((#[trigger] attempts[k]).begun) == (k == 0
                && !self.recovery_notified) by {
                if k < last {
                    assert(rest.take(k) =~= attempts.take(k));
                    assert(rest[k] == attempts[k]);
                }
            }
        }
    }
}

impl View for Worker {
    type V = WorkerStatus;

    closed spec fn view(&self) -> WorkerStatus {
        self.status
    }
}

impl Worker {
    pub open spec fn wf(&self) -> bool {
        self@.wf()
    }

    /// The worker of a device that was not started yet.
    pub fn new(now: u64) -> (worker: Self)
        ensures
            worker.wf(),
            worker@ == (WorkerStatus {
                format: AudioFormat { sample_rate: 48_000, channels: 2 },
                client: None,
                scratch: 0,
                state: PlaybackState::Stopped,
                recovery_pending: false,
                notify_recovery: false,
                recovery_notified: false,
                retry_at: now,
                retry_delay: DEFAULT_RETRY_NANOS,
            }),
    {
        Worker {
            status: WorkerStatus {
                format: AudioFormat::new(48_000, 2),
                client: None,
                scratch: 0,
                state: PlaybackState::Stopped,
                recovery_pending: false,
                notify_recovery: false,
                recovery_notified: false,
                retry_at: now,
                retry_delay: DEFAULT_RETRY_NANOS,
            },
        }
    }

    /// Take a client over and size the scratch buffer for it.
    pub fn install_client(&mut self, client: WasapiClient, format: AudioFormat) -> (result: Result<
        (),
        AudioError,
    >)
        requires
            client.channels == format.channels,
        ensures
            result is Ok <==> client.capacity() <= usize::MAX,
            result is Err ==> result->Err_0@ == ErrorView::FormatNotSupported && final(self)@
                == old(self)@,
            result is Ok ==> final(self)@ == old(self)@.installed(client, format),
            old(self).wf() ==> final(self).wf(),
    {
        match (client.buffer_frames as usize).checked_mul(format.channels as usize) {
            Some(samples) => {
                self.status.scratch = samples;
                self.status.format = format;
                self.status.client = Some(client);
                Ok(())
            },
            None => Err(AudioError::FormatNotSupported),
        }
    }

    /// Give the endpoint up and recover at once. Returns whether there is a
    /// client to stop and close. A stopped device keeps what it has.
    pub fn begin_recovery(&mut self, now: u64) -> (close_client: bool)
        ensures
            close_client == (old(self)@.state != PlaybackState::Stopped && old(self)@.client is Some),
            final(self)@ == old(self)@.losing(now),
            old(self).wf() ==> final(self).wf(),
    {
        if self.status.state == PlaybackState::Stopped {
            return false;
        }
        let close_client = self.status.client.is_some();
        self.status.client = None;
        self.status.recovery_pending = true;
        self.status.notify_recovery = true;
        self.status.retry_at = now;
        self.status.retry_delay = DEFAULT_RETRY_NANOS;
        close_client
    }

    fn schedule_retry(&mut self, now: u64)
        requires
            old(self)@.retry_delay <= MAX_RETRY_NANOS,
        ensures
            final(self)@ == old(self)@.delayed(now),
    {
        self.status.retry_at = now.saturating_add(self.status.retry_delay);
        let doubled: u64 = self.status.retry_delay * 2;
        self.status.retry_delay = if doubled < MAX_RETRY_NANOS {
            doubled
        } else {
            MAX_RETRY_NANOS
        };
    }

    fn finish_recovery(&mut self) -> (step: RecoveryStep)
        ensures
            final(self)@ == old(self)@.back(),
            step == (RecoveryStep::Recovered { notify_recovered: old(self)@.notify_recovery }),
    {
        self.status.recovery_pending = false;
        let notify_recovered = self.status.notify_recovery;
        self.status.notify_recovery = false;
        self.status.recovery_notified = false;
        self.status.retry_delay = DEFAULT_RETRY_NANOS;
        RecoveryStep::Recovered { notify_recovered }
    }

    /// Try to recover, where that is due.
    pub fn try_recover(&mut self, now: u64) -> (step: RecoveryStep)
        ensures
            step == (if old(self)@.recovery_due(now) {
                RecoveryStep::Open { notify_invalidated: old(self)@.tells_loss(now) }
            } else {
                RecoveryStep::Wait
            }),
            final(self)@ == old(self)@.trying(now),
            old(self).wf() ==> final(self).wf(),
    {
        if !self.status.recovery_pending || now < self.status.retry_at {
            return RecoveryStep::Wait;
        }
        let notify_invalidated = self.status.notify_recovery && !self.status.recovery_notified;
        if notify_invalidated {
            self.status.recovery_notified = true;
        }
        RecoveryStep::Open { notify_invalidated }
    }

    /// Go on once a client was opened or could not be.
    pub fn recovery_opened(
        &mut self,
        opened: Option<(WasapiClient, AudioFormat)>,
        now: u64,
    ) -> (step: RecoveryStep)
        requires
            old(self).wf(),
            opened is Some ==> (opened->0).0.channels == (opened->0).1.channels,
        ensures
            final(self).wf(),
            if opened is Some && (opened->0).0.capacity() <= usize::MAX {
                let ready = old(self)@.installed((opened->0).0, (opened->0).1);
                if old(self)@.state == PlaybackState::Running {
                    step == RecoveryStep::Start && final(self)@ == ready
                } else {
                    step == (RecoveryStep::Recovered {
                        notify_recovered: old(self)@.notify_recovery,
                    }) && final(self)@ == ready.back()
                }
            } else {
                step == RecoveryStep::Retry && final(self)@ == old(self)@.delayed(now)
            },
    {
        let installed = match opened {
            Some((client, format)) => self.install_client(client, format).is_ok(),
            None => false,
        };
        if !installed {
            self.schedule_retry(now);
            return RecoveryStep::Retry;
        }
        if self.status.state == PlaybackState::Running {
            return RecoveryStep::Start;
        }
        self.finish_recovery()
    }

    /// Go on once the new client was started or could not be.
    pub fn recovery_started(&mut self, success: bool, now: u64) -> (step: RecoveryStep)
        requires
            old(self).wf(),
        ensures
            final(self).wf(),
            if success {
                step == (RecoveryStep::Recovered { notify_recovered: old(self)@.notify_recovery })
                    && final(self)@ == old(self)@.back()
            } else {
                step == RecoveryStep::Retry && final(self)@ == (WorkerStatus {
                    client: None,
                    ..old(self)@
                }).delayed(now)
            },
    {
        if !success {
            self.status.client = None;
            self.schedule_retry(now);
            return RecoveryStep::Retry;
        }
        self.finish_recovery()
    }

    fn play(&mut self, now: u64)
        ensures
            final(self)@ == old(self)@.playing(now),
    {
        self.status.state = PlaybackState::Running;
        if self.status.client.is_none() {
            self.status.recovery_pending = true;
            self.status.notify_recovery = false;
            self.status.retry_at = now;
        }
    }

    /// Take a command.
    pub fn handle_command(&mut self, command: Command, now: u64) -> (step: CommandStep)
        requires
            old(self).wf(),
        ensures
            final(self).wf(),
            step == old(self)@.step_for(command),
            final(self)@ == old(self)@.commanded(command, now),
    {
        match command {
            Command::Start => {
                if self.status.state == PlaybackState::Running {
                    return CommandStep::Reply;
                }
                let start_client = self.status.client.is_some() && !self.status.recovery_pending;
                self.play(now);
                if start_client {
                    CommandStep::StartClient
                } else {
                    CommandStep::Recover
                }
            },
            Command::Stop => {
                let close_client = self.status.client.is_some();
                self.status.state = PlaybackState::Stopped;
                self.status.recovery_pending = false;
                self.status.notify_recovery = false;
                self.status.recovery_notified = false;
                self.status.scratch = 0;
                self.status.client = None;
                if close_client {
                    CommandStep::CloseClient
                } else {
                    CommandStep::Reply
                }
            },
            Command::Pause => {
                if self.status.state != PlaybackState::Running {
                    return CommandStep::Reply;
                }
                self.status.state = PlaybackState::Paused;
                if self.status.client.is_some() {
                    CommandStep::StopClient
                } else {
                    CommandStep::Reply
                }
            },
            Command::Resume => {
                if self.status.state != PlaybackState::Paused {
                    return CommandStep::Reply;
                }
                let start_client = self.status.client.is_some();
                self.play(now);
                if start_client {
                    CommandStep::StartClient
                } else {
                    CommandStep::Reply
                }
            },
            Command::Shutdown => {
                let close_client = self.status.client.is_some();
                self.status.state = PlaybackState::Stopped;
                self.status.recovery_pending = false;
                self.status.client = None;
                CommandStep::Exit { close_client }
            },
        }
    }

    /// Take in the outcome of starting the client for a command. Returns whether
    /// the client has to be stopped and closed.
    pub fn start_replied(&mut self, success: bool, now: u64) -> (close_client: bool)
        requires
            old(self).wf(),
        ensures
            final(self).wf(),
            close_client == (!success && old(self)@.state != PlaybackState::Stopped && old(self)@.client is Some),
            final(self)@ == (if success {
                old(self)@
            } else {
                old(self)@.losing(now)
            }),
    {
        if success {
            false
        } else {
            self.begin_recovery(now)
        }
    }

    /// Decide what to wait for.
    pub fn next_wait(&mut self, now: u64) -> (step: WaitStep)
        requires
            old(self).wf(),
        ensures
            final(self).wf(),
            step == (if old(self)@.recovery_pending {
                WaitStep::Wake { timeout: Some(old(self)@.timeout(now)) }
            } else if old(self)@.state != PlaybackState::Running {
                WaitStep::Wake { timeout: None }
            } else if old(self)@.client is None {
                WaitStep::Nothing
            } else {
                WaitStep::Buffer
            }),
            final(self)@ == (if step == WaitStep::Nothing {
                WorkerStatus { recovery_pending: true, retry_at: now, ..old(self)@ }
            } else {
                old(self)@
            }),
    {
        if self.status.recovery_pending {
            let nanos: u64 = if self.status.retry_at > now {
                self.status.retry_at - now
            } else {
                0
            };
            let millis: u64 = nanos / NANOS_PER_MILLI;
            let timeout: u32 = if millis > u32::MAX as u64 {
                u32::MAX
            } else {
                millis as u32
            };
            return WaitStep::Wake { timeout: Some(timeout) };
        }
        if self.status.state != PlaybackState::Running {
            return WaitStep::Wake { timeout: None };
        }
        if self.status.client.is_none() {
            self.status.recovery_pending = true;
            self.status.retry_at = now;
            return WaitStep::Nothing;
        }
        WaitStep::Buffer
    }

    /// Take in how the wait for the render buffer ended, and whether the fill
    /// that followed a ready buffer succeeded. Returns whether the client has to
    /// be stopped and closed.
    pub fn waited(&mut self, outcome: WaitOutcome, filled: bool, now: u64) -> (close_client: bool)
        requires
            old(self).wf(),
        ensures
            final(self).wf(),
            ({
                let lost = outcome == WaitOutcome::Failed || (outcome == WaitOutcome::BufferReady
                    && !filled);
                &&& close_client == (lost && old(self)@.state != PlaybackState::Stopped && old(self)@.client is Some)
                &&& final(self)@ == (if lost {
                    old(self)@.losing(now)
                } else {
                    old(self)@
                })
            }),
    {
        match outcome {
            WaitOutcome::BufferReady => {
                if filled {
                    false
                } else {
                    self.begin_recovery(now)
                }
            },
            WaitOutcome::Woken => false,
            WaitOutcome::TimedOut => false,
            WaitOutcome::Failed => self.begin_recovery(now),
        }
    }

    /// What the worker has and what it is doing.
    pub fn status(&self) -> (status: WorkerStatus)
        ensures
            status == self@,
    {
        self.status
    }
}

/// The delay after `attempts` failed attempts.
pub open spec fn backoff(attempts: nat) -> u64
    decreases attempts,
{
    if attempts == 0 {
        DEFAULT_RETRY_NANOS
    } else {
        longer(backoff((attempts - 1) as nat))
    }
}

/// Delays double from 50 ms and stay at 1 s from the fifth failure on.
pub proof fn law_backoff_is_bounded(attempts: nat)
    ensures
        DEFAULT_RETRY_NANOS <= backoff(attempts) <= MAX_RETRY_NANOS,
        attempts > 0 ==> backoff(attempts) >= backoff((attempts - 1) as nat),
        attempts >= 5 ==> backoff(attempts) == MAX_RETRY_NANOS,
    decreases attempts,
{
    if attempts > 0 {
        law_backoff_is_bounded((attempts - 1) as nat);
    }
    if attempts == 5 {
        reveal_with_fuel(backoff, 6);
    }
}

/// A native call on the way to a running worker.
#[derive(Clone, Copy, Debug, PartialEq, Eq, Structural)]
pub enum StartupCall {
    InitializeCom,
    CreateEnumerator,
    RegisterCallback,
    OpenClient,
}

/// How the start of the worker goes on.
pub enum StartupNext {
    Call(StartupCall),
    Failed(AudioError),
}

/// The error that a failed call is reported as.
pub open spec fn startup_error(call: StartupCall, error: Seq<char>) -> ErrorView {
    ErrorView::Backend(
        match call {
            StartupCall::InitializeCom => "WASAPI COM initialization failed"@,
            StartupCall::CreateEnumerator => wasapi_text("CoCreateInstance"@, error),
            StartupCall::RegisterCallback => wasapi_text(
                "RegisterEndpointNotificationCallback"@,
                error,
            ),
            StartupCall::OpenClient => error,
        },
    )
}

/// The call behind a successful one.
pub open spec fn next_startup(call: StartupCall) -> StartupCall {
    match call {
        StartupCall::InitializeCom => StartupCall::CreateEnumerator,
        StartupCall::CreateEnumerator => StartupCall::RegisterCallback,
        _ => StartupCall::OpenClient,
    }
}

/// Decide how the start of the worker goes on after the reply to a call before
/// the client is opened.
pub fn after_startup_call(call: StartupCall, failure: Option<&str>) -> (next: StartupNext)
    requires
        call != StartupCall::OpenClient,
    ensures
        match next {
            StartupNext::Failed(error) => failure is Some && error@ == startup_error(
                call,
                failure->0@,
            ),
            StartupNext::Call(following) => failure is None && following == next_startup(call),
        },
{
    match failure {
        Some(error) => StartupNext::Failed(
            match call {
                StartupCall::InitializeCom => backend_message("WASAPI COM initialization failed"),
                StartupCall::CreateEnumerator => wasapi_error("CoCreateInstance", error),
                _ => wasapi_error("RegisterEndpointNotificationCallback", error),
            },
        ),
        None => StartupNext::Call(
            match call {
                StartupCall::InitializeCom => StartupCall::CreateEnumerator,
                StartupCall::CreateEnumerator => StartupCall::RegisterCallback,
                _ => StartupCall::OpenClient,
            },
        ),
    }
}

/// The outcome of creating a device: what its worker reported, or `None` where
/// it left without a report.
pub fn startup_result(reported: Option<Result<(), AudioError>>) -> (result: Result<(), AudioError>)
    ensures
        outcome(result) == (match reported {
            Some(report) => outcome(report),
            None => Err(ErrorView::Backend("WASAPI worker exited during initialization"@)),
        }),
{
    match reported {
        Some(report) => report,
        None => Err(backend_message("WASAPI worker exited during initialization")),
    }
}

/// The outcome of a request: whether it could be sent, whether the worker could
/// be woken, and what it replied, or `None` where it left without a reply.
pub fn request_result(
    sent: bool,
    wake_failure: Option<&str>,
    reply: Option<Result<(), AudioError>>,
) -> (result: Result<(), AudioError>)
    ensures
        outcome(result) == (if !sent {
            Err(ErrorView::Backend("WASAPI worker is not running"@))
        } else if wake_failure is Some {
            Err(ErrorView::Backend(wasapi_text("SetEvent"@, wake_failure->0@)))
        } else {
            match reply {
                Some(answer) => outcome(answer),
                None => Err(ErrorView::Backend("WASAPI worker stopped unexpectedly"@)),
            }
        }),
{
    if !sent {
        return Err(backend_message("WASAPI worker is not running"));
    }
    match wake_failure {
        Some(error) => {
            return Err(wasapi_error("SetEvent", error));
        },
        None => {},
    }
    match reply {
        Some(answer) => answer,
        None => Err(backend_message("WASAPI worker stopped unexpectedly")),
    }
}

} // verus!
