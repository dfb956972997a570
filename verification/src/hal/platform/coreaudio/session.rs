//! The iOS audio session and the monitors of route changes.

use vstd::prelude::*;

use super::unit::NO_ERR;
use crate::error::{backend_error, backend_message, failed_text, AudioError, ErrorView};

verus! {

/// What to restore of a session that was changed. `N` is a native string.
pub struct SessionGuard<N> {
    pub changed: bool,
    pub previous_category: Option<N>,
    pub previous_mode: Option<N>,
    pub previous_options: usize,
}

/// The settings to put back, after which the session is deactivated.
pub struct SessionRestore<N> {
    pub category: N,
    pub mode: N,
    pub options: usize,
}

/// A native call on the way to a session that plays.
#[derive(Clone, Copy, Debug, PartialEq, Eq, Structural)]
pub enum SessionCall {
    /// Category, mode and options for playback.
    SetCategory,
    SetActive,
}

/// How preparing the session goes on.
pub enum SessionNext {
    Call(SessionCall),
    Prepared,
    /// Restore the session, then report the error.
    Failed(AudioError),
}

/// The category of a session that plays.
pub fn playback_category() -> (name: &'static str)
    ensures
        name@ == "AVAudioSessionCategoryPlayback"@,
{
    "AVAudioSessionCategoryPlayback"
}

/// The mode of a session that plays.
pub fn playback_mode() -> (name: &'static str)
    ensures
        name@ == "AVAudioSessionModeDefault"@,
{
    "AVAudioSessionModeDefault"
}

/// Whether there is a session class to ask.
pub fn session_found(found: bool) -> (result: Result<(), AudioError>)
    ensures
        result is Ok <==> found,
        result is Err ==> result->Err_0@ == ErrorView::DeviceNotFound,
{
    if found {
        Ok(())
    } else {
        Err(AudioError::DeviceNotFound)
    }
}

impl<N> SessionGuard<N> {
    /// The guard of a session that the host had activated: nothing is changed,
    /// so there is nothing to restore.
    pub fn untouched() -> (guard: Self)
        ensures
            guard == (SessionGuard::<N> {
                changed: false,
                previous_category: None,
                previous_mode: None,
                previous_options: 0,
            }),
    {
        SessionGuard {
            changed: false,
            previous_category: None,
            previous_mode: None,
            previous_options: 0,
        }
    }

    /// The guard of a session that is about to be changed.
    pub fn changing(category: N, mode: N, options: usize) -> (guard: Self)
        ensures
            guard == (SessionGuard::<N> {
                changed: true,
                previous_category: Some(category),
                previous_mode: Some(mode),
                previous_options: options,
            }),
    {
        SessionGuard {
            changed: true,
            previous_category: Some(category),
            previous_mode: Some(mode),
            previous_options: options,
        }
    }

    /// The first call that prepares the session, if any is needed.
    pub fn prepare(&self) -> (call: Option<SessionCall>)
        ensures
            call == (if self.changed {
                Some(SessionCall::SetCategory)
            } else {
                None::<SessionCall>
            }),
    {
        if self.changed {
            Some(SessionCall::SetCategory)
        } else {
            None
        }
    }

    /// What there is to restore.
    pub open spec fn settings(self) -> Option<SessionRestore<N>> {
        match (self.previous_category, self.previous_mode) {
            (Some(category), Some(mode)) => if self.changed {
                Some(SessionRestore { category, mode, options: self.previous_options })
            } else {
                None
            },
            _ => None,
        }
    }

    /// The guard once what there is to restore was taken out.
    pub open spec fn restored(self) -> SessionGuard<N> {
        SessionGuard {
            previous_category: if self.changed {
                None
            } else {
                self.previous_category
            },
            previous_mode: if self.changed && self.previous_category is Some {
                None
            } else {
                self.previous_mode
            },
            ..self
        }
    }

    /// A session that was changed is restored to what it was, and once; one that
    /// was not changed never is.
    pub proof fn law_sessions_are_restored_once(self, category: N, mode: N, options: usize)
        ensures
            (SessionGuard {
                changed: true,
                previous_category: Some(category),
                previous_mode: Some(mode),
                previous_options: options,
            }).settings() == Some(SessionRestore { category, mode, options }),
            self.restored().settings() is None,
            !self.changed ==> self.settings() is None && self.restored() == self,
    {
    }

    /// Take out what to restore. There is nothing where nothing was changed, or
    /// where it was taken before.
    pub fn restore(&mut self) -> (restore: Option<SessionRestore<N>>)
        ensures
            restore == old(self).settings(),
            *final(self) == old(self).restored(),
    {
        if !self.changed {
            return None;
        }
        let category = match self.previous_category.take() {
            Some(category) => category,
            None => {
                return None;
            },
        };
        let mode = match self.previous_mode.take() {
            Some(mode) => mode,
            None => {
                return None;
            },
        };
        Some(SessionRestore { category, mode, options: self.previous_options })
    }
}

/// Decide how preparing goes on after the reply to `call`.
pub fn after_session_call(call: SessionCall, success: bool) -> (next: SessionNext)
    ensures
        match next {
            SessionNext::Call(following) => success && call == SessionCall::SetCategory
                && following == SessionCall::SetActive,
            SessionNext::Prepared => success && call == SessionCall::SetActive,
            SessionNext::Failed(error) => !success && error@ == ErrorView::Backend(
                match call {
                    SessionCall::SetCategory => "AVAudioSession setCategory failed"@,
                    SessionCall::SetActive => "AVAudioSession setActive failed"@,
                },
            ),
        },
{
    match call {
        SessionCall::SetCategory => {
            if success {
                SessionNext::Call(SessionCall::SetActive)
            } else {
                SessionNext::Failed(backend_message("AVAudioSession setCategory failed"))
            }
        },
        SessionCall::SetActive => {
            if success {
                SessionNext::Prepared
            } else {
                SessionNext::Failed(backend_message("AVAudioSession setActive failed"))
            }
        },
    }
}

/// The notifications on which an iOS device is rebuilt.
pub fn route_notifications() -> (names: Vec<&'static str>)
    ensures
        names@.len() == 3,
        names@[0]@ == "AVAudioSessionRouteChangeNotification"@,
        names@[1]@ == "AVAudioSessionInterruptionNotification"@,
        names@[2]@ == "AVAudioSessionMediaServicesWereResetNotification"@,
{
    let mut names: Vec<&'static str> = Vec::new();
    names.push("AVAudioSessionRouteChangeNotification");
    names.push("AVAudioSessionInterruptionNotification");
    names.push("AVAudioSessionMediaServicesWereResetNotification");
    names
}

/// Where a native property is found.
#[derive(Clone, Copy, Debug, PartialEq, Eq, Structural)]
pub struct AudioObjectPropertyAddress {
    pub selector: u32,
    pub scope: u32,
    pub element: u32,
}

/// The object that stands for the audio system.
pub const AUDIO_OBJECT_SYSTEM_OBJECT: u32 = 1;

/// A four-character code, the first character in the highest byte.
pub open spec fn four_char_code(code: Seq<char>) -> int {
    ((code[0] as int * 0x100 + code[1] as int) * 0x100 + code[2] as int) * 0x100 + code[3] as int
}

/// The address of the default output device.
pub fn default_output_property_address() -> (address: AudioObjectPropertyAddress)
    ensures
        address.selector == four_char_code(seq!['d', 'O', 'u', 't']),
        address.scope == four_char_code(seq!['g', 'l', 'o', 'b']),
        address.element == 0,
{
    AudioObjectPropertyAddress { selector: 0x644f_7574, scope: 0x676c_6f62, element: 0 }
}

/// The outcome of registering the macOS route listener.
pub fn monitor_installed(status: i32) -> (result: Result<(), AudioError>)
    ensures
        result is Ok <==> status == NO_ERR,
        result is Err ==> result->Err_0@ == ErrorView::Backend(
            failed_text("AudioObjectAddPropertyListener"@, status as int),
        ),
{
    if status == NO_ERR {
        Ok(())
    } else {
        Err(backend_error("AudioObjectAddPropertyListener", status))
    }
}

} // verus!
