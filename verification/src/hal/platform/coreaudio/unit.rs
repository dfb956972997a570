use vstd::prelude::*;

use crate::error::{backend_error, failed_text, AudioError, ErrorView};

verus! {

/// Status of a native call that succeeded.
pub const NO_ERR: i32 = 0;

/// A native call on the way to a playing unit.
#[derive(Clone, Copy, Debug, PartialEq, Eq, Structural)]
pub enum UnitCall {
    Initialize,
    SetRenderCallback,
    Start,
}

/// Native calls that bring a unit down, in this order.
#[derive(Clone, Copy, Debug, PartialEq, Eq, Structural)]
pub struct Teardown {
    pub stop: bool,
    pub uninitialize: bool,
}

/// How starting goes on.
pub enum UnitNext {
    Call(UnitCall),
    Started,
    Failed(AudioError),
}

/// What to do after the reply to a native call: bring down what is to go, then
/// go on.
pub struct UnitStep {
    pub teardown: Teardown,
    pub next: UnitNext,
}

/// A callback-safe AudioUnit owner.
///
/// The callback reference is stored before the unit is started and dropped
/// only after it was stopped and uninitialized.
#[derive(Clone, Copy, Debug, PartialEq, Eq, Structural)]
pub struct AudioUnitOwner {
    pub initialized: bool,
    pub started: bool,
    /// Whether the callback reference is kept alive.
    pub callback: bool,
}

/// The error that a failed call is reported as.
pub open spec fn start_error(call: UnitCall, status: i32) -> ErrorView {
    ErrorView::Backend(
        failed_text(
            match call {
                UnitCall::Initialize => "AudioUnitInitialize"@,
                UnitCall::SetRenderCallback => "AudioUnitSetProperty(SetRenderCallback)"@,
                UnitCall::Start => "AudioOutputUnitStart"@,
            },
            status as int,
        ),
    )
}

impl AudioUnitOwner {
    /// A playing unit was initialized and its callback is alive.
    pub open spec fn wf(&self) -> bool {
        self.started ==> self.initialized && self.callback
    }

    /// What brings the unit down.
    pub open spec fn teardown(self) -> Teardown {
        Teardown { stop: self.started, uninitialize: self.initialized }
    }

    /// The unit once it was brought down.
    pub open spec fn torn_down(self) -> AudioUnitOwner {
        AudioUnitOwner { initialized: false, started: false, ..self }
    }

    /// The unit after the reply to a call of its start, before anything is
    /// brought down.
    pub open spec fn replied(self, call: UnitCall, status: i32) -> AudioUnitOwner {
        match call {
            UnitCall::Initialize => AudioUnitOwner {
                initialized: self.initialized || status == NO_ERR,
                ..self
            },
            UnitCall::SetRenderCallback => AudioUnitOwner { callback: true, ..self },
            UnitCall::Start => AudioUnitOwner {
                started: self.started || status == NO_ERR,
                ..self
            },
        }
    }

    /// Whether a failed call brings the unit down: all but the first.
    pub open spec fn unwinds(call: UnitCall, status: i32) -> bool {
        status != NO_ERR && call != UnitCall::Initialize
    }

    /// The unit after the reply to a call of its start.
    pub open spec fn after(self, call: UnitCall, status: i32) -> AudioUnitOwner {
        if Self::unwinds(call, status) {
            self.replied(call, status).torn_down()
        } else {
            self.replied(call, status)
        }
    }

    /// The owner of a unit that was opened.
    pub fn new() -> (unit: Self)
        ensures
            unit == (AudioUnitOwner { initialized: false, started: false, callback: false }),
    {
        AudioUnitOwner { initialized: false, started: false, callback: false }
    }

    /// The first native call of a start, or `None` where the unit plays.
    pub fn start(&self) -> (call: Option<UnitCall>)
        ensures
            call == (if self.started {
                None::<UnitCall>
            } else {
                Some(UnitCall::Initialize)
            }),
    {
        if self.started {
            None
        } else {
            Some(UnitCall::Initialize)
        }
    }

    /// Decide how starting goes on after the reply to `call`.
    pub fn after_start_call(&mut self, call: UnitCall, status: i32) -> (step: UnitStep)
        ensures
            *final(self) == old(self).after(call, status),
            step.teardown == (if Self::unwinds(call, status) {
                old(self).replied(call, status).teardown()
            } else {
                Teardown { stop: false, uninitialize: false }
            }),
            match step.next {
                UnitNext::Failed(error) => status != NO_ERR && error@ == start_error(call, status),
                UnitNext::Call(next) => status == NO_ERR && next == (match call {
                    UnitCall::Initialize => UnitCall::SetRenderCallback,
                    _ => UnitCall::Start,
                }) && call != UnitCall::Start,
                UnitNext::Started => status == NO_ERR && call == UnitCall::Start,
            },
    {
        let none = Teardown { stop: false, uninitialize: false };
        match call {
            UnitCall::Initialize => {
                if status != NO_ERR {
                    return UnitStep {
                        teardown: none,
                        next: UnitNext::Failed(backend_error("AudioUnitInitialize", status)),
                    };
                }
                self.initialized = true;
                UnitStep { teardown: none, next: UnitNext::Call(UnitCall::SetRenderCallback) }
            },
            UnitCall::SetRenderCallback => {
                self.callback = true;
                if status != NO_ERR {
                    let teardown = self.stop_and_uninitialize();
                    return UnitStep {
                        teardown,
                        next: UnitNext::Failed(
                            backend_error("AudioUnitSetProperty(SetRenderCallback)", status),
                        ),
                    };
                }
                UnitStep { teardown: none, next: UnitNext::Call(UnitCall::Start) }
            },
            UnitCall::Start => {
                if status != NO_ERR {
                    let teardown = self.stop_and_uninitialize();
                    return UnitStep {
                        teardown,
                        next: UnitNext::Failed(backend_error("AudioOutputUnitStart", status)),
                    };
                }
                self.started = true;
                UnitStep { teardown: none, next: UnitNext::Started }
            },
        }
    }

    /// Whether pausing has to stop the unit.
    pub fn pause(&self) -> (native: bool)
        ensures
            native == self.started,
    {
        self.started
    }

    /// Record the status of the stop that pauses.
    pub fn paused(&mut self, status: i32) -> (result: Result<(), AudioError>)
        ensures
            result is Ok <==> status == NO_ERR,
            result is Err ==> result->Err_0@ == ErrorView::Backend(
                failed_text("AudioOutputUnitStop"@, status as int),
            ),
            *final(self) == (AudioUnitOwner {
                started: old(self).started && status != NO_ERR,
                ..*old(self)
            }),
    {
        if status != NO_ERR {
            return Err(backend_error("AudioOutputUnitStop", status));
        }
        self.started = false;
        Ok(())
    }

    /// Whether resuming has to start the unit.
    pub fn resume(&self) -> (native: bool)
        ensures
            native == !self.started,
    {
        !self.started
    }

    /// Record the status of the start that resumes.
    pub fn resumed(&mut self, status: i32) -> (result: Result<(), AudioError>)
        ensures
            result is Ok <==> status == NO_ERR,
            result is Err ==> result->Err_0@ == ErrorView::Backend(
                failed_text("AudioOutputUnitStart"@, status as int),
            ),
            *final(self) == (AudioUnitOwner {
                started: old(self).started || status == NO_ERR,
                ..*old(self)
            }),
    {
        if status != NO_ERR {
            return Err(backend_error("AudioOutputUnitStart", status));
        }
        self.started = true;
        Ok(())
    }

    /// Bring the unit down. Returns the native calls that this takes.
    pub fn stop_and_uninitialize(&mut self) -> (teardown: Teardown)
        ensures
            teardown == old(self).teardown(),
            *final(self) == old(self).torn_down(),
    {
        let teardown = Teardown { stop: self.started, uninitialize: self.initialized };
        self.started = false;
        self.initialized = false;
        teardown
    }

    /// Starting keeps the order of things: the callback is alive before the unit
    /// can play, a failed start leaves nothing playing, and whatever was brought
    /// up is brought down.
    pub proof fn law_callback_outlives_playback(self, initialize: i32, callback: i32, start: i32)
        requires
            !self.started,
            !self.initialized,
        ensures
            ({
                let first = self.after(UnitCall::Initialize, initialize);
                let second = first.after(UnitCall::SetRenderCallback, callback);
                let third = second.after(UnitCall::Start, start);
                &&& first.wf() && second.wf()
                &&& initialize != NO_ERR ==> first == self
                &&& initialize == NO_ERR && callback != NO_ERR ==> second.torn_down() == second
                &&& initialize == NO_ERR && callback == NO_ERR ==> {
                    &&& second.callback && second.initialized && !second.started
                    &&& third.wf()
                    &&& start == NO_ERR <==> third.started
                    &&& start != NO_ERR ==> third.torn_down() == third
                }
            }),
    {
    }
}

} // verus!
