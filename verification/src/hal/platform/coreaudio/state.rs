use vstd::prelude::*;

use super::unit::{AudioUnitOwner, Teardown, UnitCall, UnitNext, UnitStep, NO_ERR};
use crate::error::{failed_text, AudioError, ErrorView};
use crate::types::AudioFormat;

verus! {

/// The state of a CoreAudio device.
#[derive(Clone, Copy, Debug, PartialEq, Eq, Structural)]
pub struct CoreAudioState {
    status: EndpointStatus,
}

/// The endpoint of a CoreAudio device and what it is meant to be doing.
///
/// While an endpoint is being replaced there is no unit, and `running` and
/// `paused` say how its replacement is to be left.
#[derive(Clone, Copy, Debug, PartialEq, Eq, Structural)]
pub struct EndpointStatus {
    pub format: AudioFormat,
    pub unit: Option<AudioUnitOwner>,
    pub running: bool,
    pub paused: bool,
    /// Set from the loss of an endpoint until its replacement is ready.
    pub rebuilding: bool,
}

/// What is remembered while an endpoint is replaced.
#[derive(Clone, Copy, Debug, PartialEq, Eq, Structural)]
pub struct Rebuild {
    pub was_running: bool,
    pub was_paused: bool,
    /// The replacement, and its format once it was opened.
    pub unit: AudioUnitOwner,
    pub format: AudioFormat,
}

/// The first step of a rebuild: tell the manager, close the old unit, and open
/// a new one.
#[derive(Clone, Copy, Debug, PartialEq, Eq, Structural)]
pub struct RebuildBegin {
    /// Tell the manager that the endpoint is gone.
    pub notify_invalidated: bool,
    /// The old unit, to be brought down and disposed of.
    pub closed: Option<AudioUnitOwner>,
    pub rebuild: Rebuild,
}

/// A native call on the replacement.
#[derive(Clone, Copy, Debug, PartialEq, Eq, Structural)]
pub enum RebuildCall {
    Start(UnitCall),
    Pause,
}

/// How a rebuild goes on.
#[derive(Clone, Copy, Debug, PartialEq, Eq, Structural)]
pub enum RebuildNext {
    Call(RebuildCall),
    /// Tell the manager that the replacement is ready.
    Recovered,
    /// Bring the replacement down and dispose of it; try again after a delay.
    Retry(Teardown),
}

pub open spec fn nothing_to_tear_down() -> Teardown {
    Teardown { stop: false, uninitialize: false }
}

impl EndpointStatus {
    /// The unit, if any, plays exactly while the device runs and is not paused,
    /// and only a rebuild leaves the device without one.
    pub open spec fn wf(&self) -> bool {
        &&& self.paused ==> self.running
        &&& self.unit is None ==> self.rebuilding
        &&& self.unit is Some ==> {
            &&& self.unit->0.wf()
            &&& self.unit->0.started == (self.running && !self.paused)
            &&& self.running ==> self.unit->0.initialized && self.unit->0.callback
        }
    }

    /// The device after the reply to a call of its start.
    pub open spec fn after_start(self, call: UnitCall, status: i32) -> EndpointStatus {
        let started = call == UnitCall::Start && status == NO_ERR;
        EndpointStatus {
            unit: Some(self.unit->0.after(call, status)),
            running: self.running || started,
            paused: self.paused && !started,
            ..self
        }
    }

    /// The device while its endpoint is replaced: there is no unit, and what it
    /// was doing is not forgotten.
    pub open spec fn rebuilding(self) -> EndpointStatus {
        EndpointStatus { unit: None, rebuilding: true, ..self }
    }

    /// The device once the replacement is ready.
    pub open spec fn recovered(self, rebuild: Rebuild) -> EndpointStatus {
        EndpointStatus {
            format: rebuild.format,
            unit: Some(rebuild.unit),
            running: rebuild.was_running,
            paused: rebuild.was_running && rebuild.was_paused,
            rebuilding: false,
        }
    }

    /// What the first step of an attempt to replace the endpoint comes to.
    pub open spec fn rebuild_begun(self) -> RebuildBegin {
        RebuildBegin {
            notify_invalidated: !self.rebuilding,
            closed: self.unit,
            rebuild: Rebuild {
                was_running: self.running,
                was_paused: self.paused,
                unit: AudioUnitOwner { initialized: false, started: false, callback: false },
                format: self.format,
            },
        }
    }

    /// Every reply to a call of a start keeps the device well-formed, and it runs
    /// exactly where the last call succeeded.
    pub proof fn law_starting_is_all_or_nothing(
        self,
        initialize: i32,
        callback: i32,
        start: i32,
    )
        requires
            self.wf(),
            self.unit is Some,
            !self.running,
        ensures
            ({
                let first = self.after_start(UnitCall::Initialize, initialize);
                let second = first.after_start(UnitCall::SetRenderCallback, callback);
                let third = second.after_start(UnitCall::Start, start);
                &&& first.wf() && !first.running
                &&& initialize == NO_ERR ==> second.wf() && !second.running
                &&& initialize == NO_ERR && callback == NO_ERR ==> third.wf() && (third.running
                    <==> start == NO_ERR) && !third.paused
            }),
    {
    }

    /// The replacement unit after native calls that all succeed.
    pub open spec fn replacement(self) -> AudioUnitOwner {
        let fresh = AudioUnitOwner { initialized: false, started: false, callback: false };
        if self.running {
            let started = fresh.after(UnitCall::Initialize, NO_ERR).after(
                UnitCall::SetRenderCallback,
                NO_ERR,
            ).after(UnitCall::Start, NO_ERR);
            AudioUnitOwner { started: started.started && !self.paused, ..started }
        } else {
            fresh
        }
    }

    /// The device after a number of attempts at a rebuild that failed.
    pub open spec fn after_failed_attempts(self, attempts: nat) -> EndpointStatus
        decreases attempts,
    {
        if attempts == 0 {
            self
        } else {
            self.after_failed_attempts((attempts - 1) as nat).rebuilding()
        }
    }

    /// A rebuild puts the device back into the state it was in, with the new
    /// format, however many attempts fail before the one whose native calls all
    /// succeed. Until then there is no unit, and the manager hears of the loss
    /// with the first attempt only.
    pub proof fn law_rebuilding_preserves_playback(self, format: AudioFormat, attempts: nat)
        requires
            self.wf(),
        ensures
            ({
                let lost = self.after_failed_attempts(attempts);
                let begin = lost.rebuild_begun();
                let rebuild = Rebuild { unit: self.replacement(), format, ..begin.rebuild };
                let after = lost.rebuilding().recovered(rebuild);
                &&& lost.wf() && lost.rebuilding().wf()
                &&& lost.rebuilding().unit is None
                &&& begin.notify_invalidated == (attempts == 0 && !self.rebuilding)
                &&& after.wf()
                &&& after.running == self.running
                &&& after.paused == self.paused
                &&& after.format == format
                &&& !after.rebuilding
            }),
        decreases attempts,
    {
        if attempts > 0 {
            self.law_rebuilding_preserves_playback(format, (attempts - 1) as nat);
        }
    }
}

impl View for CoreAudioState {
    type V = EndpointStatus;

    closed spec fn view(&self) -> EndpointStatus {
        self.status
    }
}

impl CoreAudioState {
    pub open spec fn wf(&self) -> bool {
        self@.wf()
    }

    /// A device whose unit was just opened.
    pub fn new(format: AudioFormat) -> (state: Self)
        ensures
            state@ == (EndpointStatus {
                format,
                unit: Some(
                    AudioUnitOwner { initialized: false, started: false, callback: false },
                ),
                running: false,
                paused: false,
                rebuilding: false,
            }),
            state.wf(),
    {
        CoreAudioState {
            status: EndpointStatus {
                format,
                unit: Some(AudioUnitOwner::new()),
                running: false,
                paused: false,
                rebuilding: false,
            },
        }
    }

    pub fn format(&self) -> (format: AudioFormat)
        ensures
            format == self@.format,
    {
        self.status.format
    }

    /// The first native call of a start, or `None` where the device runs.
    pub fn start(&self) -> (result: Result<Option<UnitCall>, AudioError>)
        ensures
            match self@.unit {
                None => result is Err && result->Err_0@ == ErrorView::DeviceNotFound,
                Some(unit) => result is Ok && result->Ok_0 == (if self@.running || unit.started {
                    None::<UnitCall>
                } else {
                    Some(UnitCall::Initialize)
                }),
            },
    {
        match &self.status.unit {
            None => Err(AudioError::DeviceNotFound),
            Some(unit) => {
                if self.status.running {
                    return Ok(None);
                }
                Ok(unit.start())
            },
        }
    }

    /// Decide how starting goes on after the reply to `call`.
    pub fn after_start_call(&mut self, call: UnitCall, status: i32) -> (step: UnitStep)
        requires
            old(self)@.unit is Some,
        ensures
            final(self)@ == old(self)@.after_start(call, status),
            step.teardown == (if AudioUnitOwner::unwinds(call, status) {
                old(self)@.unit->0.replied(call, status).teardown()
            } else {
                nothing_to_tear_down()
            }),
            match step.next {
                UnitNext::Failed(error) => status != NO_ERR && error@ == super::unit::start_error(
                    call,
                    status,
                ),
                UnitNext::Call(next) => status == NO_ERR && next == (match call {
                    UnitCall::Initialize => UnitCall::SetRenderCallback,
                    _ => UnitCall::Start,
                }) && call != UnitCall::Start,
                UnitNext::Started => status == NO_ERR && call == UnitCall::Start,
            },
    {
        let mut unit = self.status.unit.unwrap();
        let step = unit.after_start_call(call, status);
        self.status.unit = Some(unit);
        match step.next {
            UnitNext::Started => {
                self.status.running = true;
                self.status.paused = false;
            },
            _ => {},
        }
        step
    }

    /// Stop. Returns the native calls that this takes.
    pub fn stop(&mut self) -> (teardown: Teardown)
        ensures
            teardown == (match old(self)@.unit {
                Some(unit) => unit.teardown(),
                None => nothing_to_tear_down(),
            }),
            final(self)@ == (EndpointStatus {
                unit: match old(self)@.unit {
                    Some(unit) => Some(unit.torn_down()),
                    None => None,
                },
                running: false,
                paused: false,
                ..old(self)@
            }),
            old(self).wf() ==> final(self).wf(),
    {
        let teardown = match self.status.unit {
            Some(unit) => {
                let mut unit = unit;
                let teardown = unit.stop_and_uninitialize();
                self.status.unit = Some(unit);
                teardown
            },
            None => Teardown { stop: false, uninitialize: false },
        };
        self.status.running = false;
        self.status.paused = false;
        teardown
    }

    /// Pause. Where this returns `true` the unit has to be stopped, and the
    /// status goes to [`paused`](Self::paused).
    pub fn pause(&mut self) -> (native: bool)
        ensures
            native == (old(self)@.running && !old(self)@.paused && old(self)@.unit is Some && old(self)@.unit->0.started),
            final(self)@ == (EndpointStatus {
                paused: old(self)@.paused || (old(self)@.running && !native),
                ..old(self)@
            }),
    {
        if self.status.running && !self.status.paused {
            match &self.status.unit {
                Some(unit) => {
                    if unit.pause() {
                        return true;
                    }
                },
                None => {},
            }
            self.status.paused = true;
        }
        false
    }

    /// Record the status of the stop that pauses.
    pub fn paused(&mut self, status: i32) -> (result: Result<(), AudioError>)
        requires
            old(self)@.unit is Some,
        ensures
            result is Ok <==> status == NO_ERR,
            result is Err ==> result->Err_0@ == ErrorView::Backend(
                failed_text("AudioOutputUnitStop"@, status as int),
            ) && final(self)@ == old(self)@,
            result is Ok ==> final(self)@ == (EndpointStatus {
                unit: Some(AudioUnitOwner { started: false, ..old(self)@.unit->0 }),
                paused: true,
                ..old(self)@
            }),
            old(self).wf() && old(self)@.running ==> final(self).wf(),
    {
        let mut unit = self.status.unit.unwrap();
        let result = unit.paused(status);
        if result.is_ok() {
            self.status.unit = Some(unit);
            self.status.paused = true;
        }
        result
    }

    /// Resume. Where this returns `true` the unit has to be started, and the
    /// status goes to [`resumed`](Self::resumed).
    pub fn resume(&mut self) -> (native: bool)
        ensures
            native == (old(self)@.running && old(self)@.paused && old(self)@.unit is Some && !old(self)@.unit->0.started),
            final(self)@ == (EndpointStatus {
                paused: old(self)@.paused && (!old(self)@.running || native),
                ..old(self)@
            }),
    {
        if self.status.running && self.status.paused {
            match &self.status.unit {
                Some(unit) => {
                    if unit.resume() {
                        return true;
                    }
                },
                None => {},
            }
            self.status.paused = false;
        }
        false
    }

    /// Record the status of the start that resumes.
    pub fn resumed(&mut self, status: i32) -> (result: Result<(), AudioError>)
        requires
            old(self)@.unit is Some,
        ensures
            result is Ok <==> status == NO_ERR,
            result is Err ==> result->Err_0@ == ErrorView::Backend(
                failed_text("AudioOutputUnitStart"@, status as int),
            ) && final(self)@ == old(self)@,
            result is Ok ==> final(self)@ == (EndpointStatus {
                unit: Some(AudioUnitOwner { started: true, ..old(self)@.unit->0 }),
                paused: false,
                ..old(self)@
            }),
            old(self).wf() && old(self)@.running ==> final(self).wf(),
    {
        let mut unit = self.status.unit.unwrap();
        let result = unit.resumed(status);
        if result.is_ok() {
            self.status.unit = Some(unit);
            self.status.paused = false;
        }
        result
    }

    /// Begin to replace the endpoint. An attempt that fails changes nothing, so
    /// the next one restores what the first one was to restore.
    pub fn begin_rebuild(&mut self) -> (begin: RebuildBegin)
        ensures
            final(self)@ == old(self)@.rebuilding(),
            begin == old(self)@.rebuild_begun(),
            old(self).wf() ==> final(self).wf(),
    {
        let notify_invalidated = !self.status.rebuilding;
        self.status.rebuilding = true;
        let rebuild = Rebuild {
            was_running: self.status.running,
            was_paused: self.status.paused,
            unit: AudioUnitOwner::new(),
            format: self.status.format,
        };
        let closed = self.status.unit;
        self.status.unit = None;
        RebuildBegin { notify_invalidated, closed, rebuild }
    }

    fn finish_rebuild(&mut self, rebuild: &Rebuild) -> (next: RebuildNext)
        ensures
            next == RebuildNext::Recovered,
            final(self)@ == old(self)@.recovered(*rebuild),
    {
        self.status.running = rebuild.was_running;
        self.status.paused = rebuild.was_running && rebuild.was_paused;
        self.status.unit = Some(rebuild.unit);
        self.status.format = rebuild.format;
        self.status.rebuilding = false;
        RebuildNext::Recovered
    }

    /// Go on once the replacement was opened, with its format, or could not be.
    /// Where it was, the manager is told the format first.
    pub fn endpoint_opened(&mut self, rebuild: &mut Rebuild, opened: Option<AudioFormat>) -> (next:
        RebuildNext)
        ensures
            *final(rebuild) == (Rebuild {
                format: match opened {
                    Some(format) => format,
                    None => old(rebuild).format,
                },
                ..*old(rebuild)
            }),
            match opened {
                None => next == RebuildNext::Retry(nothing_to_tear_down()) && final(self)@ == old(self)@,
                Some(_) => if old(rebuild).was_running {
                    next == RebuildNext::Call(RebuildCall::Start(UnitCall::Initialize))
                        && final(self)@ == old(self)@
                } else {
                    next == RebuildNext::Recovered && final(self)@ == old(self)@.recovered(
                        *final(rebuild),
                    )
                },
            },
    {
        match opened {
            None => RebuildNext::Retry(Teardown { stop: false, uninitialize: false }),
            Some(format) => {
                rebuild.format = format;
                if rebuild.was_running {
                    RebuildNext::Call(RebuildCall::Start(UnitCall::Initialize))
                } else {
                    self.finish_rebuild(rebuild)
                }
            },
        }
    }

    /// Go on after the reply to a native call on the replacement.
    pub fn after_rebuild_call(
        &mut self,
        rebuild: &mut Rebuild,
        call: RebuildCall,
        status: i32,
    ) -> (next: RebuildNext)
        ensures
            *final(rebuild) == (Rebuild {
                unit: match call {
                    RebuildCall::Start(start) => old(rebuild).unit.after(start, status),
                    RebuildCall::Pause => AudioUnitOwner {
                        started: old(rebuild).unit.started && status != NO_ERR,
                        ..old(rebuild).unit
                    },
                },
                ..*old(rebuild)
            }),
            match call {
                RebuildCall::Start(start) => if status != NO_ERR {
                    next == RebuildNext::Retry(
                        if AudioUnitOwner::unwinds(start, status) {
                            old(rebuild).unit.replied(start, status).teardown()
                        } else {
                            nothing_to_tear_down()
                        },
                    ) && final(self)@ == old(self)@
                } else {
                    match start {
                        UnitCall::Initialize => next == RebuildNext::Call(
                            RebuildCall::Start(UnitCall::SetRenderCallback),
                        ) && final(self)@ == old(self)@,
                        UnitCall::SetRenderCallback => next == RebuildNext::Call(
                            RebuildCall::Start(UnitCall::Start),
                        ) && final(self)@ == old(self)@,
                        UnitCall::Start => if old(rebuild).was_paused {
                            next == RebuildNext::Call(RebuildCall::Pause) && final(self)@ == old(self)@
                        } else {
                            next == RebuildNext::Recovered && final(self)@ == old(self)@.recovered(
                                *final(rebuild),
                            )
                        },
                    }
                },
                RebuildCall::Pause => if status != NO_ERR {
                    next == RebuildNext::Retry(old(rebuild).unit.teardown()) && final(self)@
                        == old(self)@
                } else {
                    next == RebuildNext::Recovered && final(self)@ == old(self)@.recovered(
                        *final(rebuild),
                    )
                },
            },
    {
        match call {
            RebuildCall::Start(start) => {
                let step = rebuild.unit.after_start_call(start, status);
                match step.next {
                    UnitNext::Failed(_) => RebuildNext::Retry(step.teardown),
                    UnitNext::Call(next) => RebuildNext::Call(RebuildCall::Start(next)),
                    UnitNext::Started => {
                        if rebuild.was_paused {
                            RebuildNext::Call(RebuildCall::Pause)
                        } else {
                            self.finish_rebuild(rebuild)
                        }
                    },
                }
            },
            RebuildCall::Pause => {
                let unit = rebuild.unit;
                match rebuild.unit.paused(status) {
                    Err(_) => RebuildNext::Retry(
                        Teardown { stop: unit.started, uninitialize: unit.initialized },
                    ),
                    Ok(()) => self.finish_rebuild(rebuild),
                }
            },
        }
    }

    /// The endpoint and what it is meant to be doing.
    pub fn status(&self) -> (status: EndpointStatus)
        ensures
            status == self@,
    {
        self.status
    }
}

} // verus!
