use vstd::prelude::*;

use crate::error::{AudioError, ErrorView};

verus! {

/// Lifecycle of an output stream that is opened once, with a callback that is
/// connected to the manager while the stream plays.
#[derive(Clone, Copy, Debug, PartialEq, Eq, Structural)]
pub struct CallbackControl {
    /// Whether the native stream exists.
    pub opened: bool,
    pub running: bool,
    /// Whether the callback can reach the manager.
    pub connected: bool,
}

impl CallbackControl {
    /// A stream that plays can reach its manager.
    pub open spec fn wf(&self) -> bool {
        self.running ==> self.opened && self.connected
    }

    /// Ready for the native start, where one is due.
    pub open spec fn connecting(self) -> CallbackControl {
        CallbackControl {
            connected: self.connected || (self.opened && !self.running),
            ..self
        }
    }

    /// After a native start.
    pub open spec fn settled(self, success: bool) -> CallbackControl {
        CallbackControl {
            running: self.running || success,
            connected: self.connected && success,
            ..self
        }
    }

    /// After stopping.
    pub open spec fn stopped(self, forget: bool) -> CallbackControl {
        CallbackControl { opened: self.opened && !forget, running: false, connected: false }
    }

    /// Every operation keeps it that a playing stream can reach its manager, a
    /// failed start leaves the callback disconnected, and after stopping the
    /// callback is never connected.
    pub proof fn law_playing_streams_are_connected(self, success: bool, forget: bool)
        requires
            self.wf(),
            self.opened,
            !self.running,
        ensures
            self.connecting().wf(),
            self.connecting().settled(success).wf(),
            self.connecting().settled(success).running == success,
            self.connecting().settled(success).connected == success,
            self.stopped(forget).wf(),
            !self.connecting().settled(success).stopped(forget).connected,
    {
    }

    /// An opened stream that does not play yet.
    pub fn new() -> (control: Self)
        ensures
            control == (CallbackControl { opened: true, running: false, connected: false }),
    {
        CallbackControl { opened: true, running: false, connected: false }
    }

    /// Prepare to start. `Ok(true)` asks for the native start, whose outcome
    /// goes to [`started`](Self::started).
    pub fn start(&mut self) -> (result: Result<bool, AudioError>)
        ensures
            !old(self).opened ==> result is Err && result->Err_0@ == ErrorView::DeviceNotFound,
            old(self).opened ==> result is Ok && result->Ok_0 == !old(self).running,
            *final(self) == old(self).connecting(),
    {
        if !self.opened {
            return Err(AudioError::DeviceNotFound);
        }
        if self.running {
            return Ok(false);
        }
        self.connected = true;
        Ok(true)
    }

    /// Record the outcome of the native start.
    pub fn started(&mut self, success: bool)
        ensures
            *final(self) == old(self).settled(success),
    {
        if success {
            self.running = true;
        } else {
            self.connected = false;
        }
    }

    /// Stop. Returns whether the native stream has to be stopped and closed.
    /// Where `forget` is set, the stream is not used again.
    pub fn stop(&mut self, forget: bool) -> (native: bool)
        ensures
            native == (old(self).opened && old(self).running),
            *final(self) == old(self).stopped(forget),
    {
        let native = self.opened && self.running;
        self.connected = false;
        self.running = false;
        if forget {
            self.opened = false;
        }
        native
    }

    /// Whether pausing or resuming has to reach the native stream.
    pub fn is_active(&self) -> (active: bool)
        ensures
            active == (self.opened && self.running),
    {
        self.opened && self.running
    }
}

} // verus!
