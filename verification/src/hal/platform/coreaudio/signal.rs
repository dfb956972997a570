use vstd::prelude::*;

verus! {

/// How long the worker sleeps before it tries a failed rebuild again.
pub const RETRY_INTERVAL_MS: u64 = 250;

/// Shared by native callbacks and the recovery worker.
///
/// Native callbacks only set a flag and wake the worker. No native endpoint
/// operation is performed from a callback.
#[derive(Clone, Copy, Debug, PartialEq, Eq, Structural)]
pub struct RebuildSignal {
    pub requested: bool,
    pub shutdown: bool,
}

/// What the recovery worker does next.
#[derive(Clone, Copy, Debug, PartialEq, Eq, Structural)]
pub enum WorkerAction {
    /// Sleep until woken, then ask again.
    Sleep,
    /// Sleep until woken or until the time is over, then ask again.
    SleepAtMost(u64),
    /// Rebuild the endpoint. The request was taken.
    Rebuild,
    Exit,
}

impl RebuildSignal {
    pub fn new() -> (signal: Self)
        ensures
            signal == (RebuildSignal { requested: false, shutdown: false }),
    {
        RebuildSignal { requested: false, shutdown: false }
    }

    /// Ask for a rebuild. The worker has to be woken.
    pub fn request(&mut self)
        ensures
            *final(self) == (RebuildSignal { requested: true, ..*old(self) }),
    {
        self.requested = true;
    }

    /// Take a pending request. Requests that arrived meanwhile are one.
    pub fn take_request(&mut self) -> (requested: bool)
        ensures
            requested == old(self).requested,
            *final(self) == (RebuildSignal { requested: false, ..*old(self) }),
    {
        let requested = self.requested;
        self.requested = false;
        requested
    }

    /// Ask the worker to leave. It has to be woken.
    pub fn shutdown(&mut self)
        ensures
            *final(self) == (RebuildSignal { shutdown: true, ..*old(self) }),
    {
        self.shutdown = true;
    }

    /// What the worker does now. Without a failed rebuild behind it, it waits
    /// for a request.
    pub open spec fn waiting(self) -> WorkerAction {
        if self.shutdown {
            WorkerAction::Exit
        } else if self.requested {
            WorkerAction::Rebuild
        } else {
            WorkerAction::Sleep
        }
    }

    /// What the worker does now that a rebuild has failed: it tries again on a
    /// request, or once it has slept.
    pub open spec fn retrying(self, slept: bool) -> WorkerAction {
        if self.shutdown {
            WorkerAction::Exit
        } else if self.requested || slept {
            WorkerAction::Rebuild
        } else {
            WorkerAction::SleepAtMost(RETRY_INTERVAL_MS)
        }
    }

    /// Decide what the worker does next, and take the request where it is
    /// served.
    pub fn next_action(&mut self, retry: bool, slept: bool) -> (action: WorkerAction)
        ensures
            action == (if retry {
                old(self).retrying(slept)
            } else {
                old(self).waiting()
            }),
            *final(self) == (RebuildSignal {
                requested: old(self).requested && action != WorkerAction::Rebuild,
                ..*old(self)
            }),
    {
        if self.shutdown {
            return WorkerAction::Exit;
        }
        if self.requested || (retry && slept) {
            self.take_request();
            return WorkerAction::Rebuild;
        }
        if retry {
            WorkerAction::SleepAtMost(RETRY_INTERVAL_MS)
        } else {
            WorkerAction::Sleep
        }
    }

    /// A request is served by the next action, whatever came before, unless the
    /// worker is to leave; and then it leaves.
    pub proof fn law_requests_are_served(self, slept: bool)
        ensures
            self.requested && !self.shutdown ==> self.waiting() == WorkerAction::Rebuild
                && self.retrying(slept) == WorkerAction::Rebuild,
            self.shutdown ==> self.waiting() == WorkerAction::Exit && self.retrying(slept)
                == WorkerAction::Exit,
            self.retrying(true) != WorkerAction::Sleep,
    {
    }
}

} // verus!
