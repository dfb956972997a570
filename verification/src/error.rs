use vstd::prelude::*;
use vstd::string::*;

use crate::text::push_decimal;

verus! {

/// Failures of devices and streams.
#[derive(Debug)]
pub enum AudioError {
    DeviceNotFound,
    DeviceBusy,
    FormatNotSupported,
    BackendError(String),
    StreamError(String),
}

/// What an [`AudioError`] says, with its message as a character sequence.
pub enum ErrorView {
    DeviceNotFound,
    DeviceBusy,
    FormatNotSupported,
    Backend(Seq<char>),
    Stream(Seq<char>),
}

impl View for AudioError {
    type V = ErrorView;

    open spec fn view(&self) -> ErrorView {
        match self {
            AudioError::DeviceNotFound => ErrorView::DeviceNotFound,
            AudioError::DeviceBusy => ErrorView::DeviceBusy,
            AudioError::FormatNotSupported => ErrorView::FormatNotSupported,
            AudioError::BackendError(message) => ErrorView::Backend(message@),
            AudioError::StreamError(message) => ErrorView::Stream(message@),
        }
    }
}

/// The outcome of an operation, with its error as an [`ErrorView`].
pub open spec fn outcome<R>(result: Result<R, AudioError>) -> Result<R, ErrorView> {
    match result {
        Ok(value) => Ok(value),
        Err(error) => Err(error@),
    }
}

/// `"{operation} failed: {status}"`.
pub open spec fn failed_text(operation: Seq<char>, status: int) -> Seq<char> {
    operation + " failed: "@ + crate::text::decimal(status)
}

/// `"{what}: {status}"`.
pub open spec fn status_text(what: Seq<char>, status: int) -> Seq<char> {
    what + ": "@ + crate::text::decimal(status)
}

/// A backend failure with a fixed message.
pub fn backend_message(message: &str) -> (error: AudioError)
    ensures
        error@ == ErrorView::Backend(message@),
{
    AudioError::BackendError(message.to_owned())
}

/// A stream failure with a fixed message.
pub fn stream_message(message: &str) -> (error: AudioError)
    ensures
        error@ == ErrorView::Stream(message@),
{
    AudioError::StreamError(message.to_owned())
}

/// A native operation that returned a status other than success.
pub fn backend_error(operation: &str, status: i32) -> (error: AudioError)
    ensures
        error@ == ErrorView::Backend(failed_text(operation@, status as int)),
{
    let mut message = operation.to_owned();
    message.append(" failed: ");
    push_decimal(&mut message, status);
    AudioError::BackendError(message)
}

/// A native call described by `what` that returned `status`.
pub fn backend_status(what: &str, status: i32) -> (error: AudioError)
    ensures
        error@ == ErrorView::Backend(status_text(what@, status as int)),
{
    let mut message = what.to_owned();
    message.append(": ");
    push_decimal(&mut message, status);
    AudioError::BackendError(message)
}

/// A failure described by `what`, caused by the rendered error `cause`.
pub fn backend_cause(what: &str, cause: &str) -> (error: AudioError)
    ensures
        error@ == ErrorView::Backend(what@ + ": "@ + cause@),
{
    let mut message = what.to_owned();
    message.append(": ");
    message.append(cause);
    AudioError::BackendError(message)
}

/// An error says what failed and then with which status or cause, as it was given.
pub proof fn law_errors_say_what_failed(
    what: &str,
    status: i32,
    cause: &str,
    failed: AudioError,
    replied: AudioError,
    caused: AudioError,
)
    requires
        call_ensures(backend_error, (what, status), failed),
        call_ensures(backend_status, (what, status), replied),
        call_ensures(backend_cause, (what, cause), caused),
    ensures
        failed@ is Backend && replied@ is Backend && caused@ is Backend,
        failed@->Backend_0.take(what@.len() as int) == what@,
        failed@->Backend_0.skip(what@.len() + 9int) == crate::text::decimal(status as int),
        replied@->Backend_0.take(what@.len() as int) == what@,
        replied@->Backend_0.skip(what@.len() + 2int) == crate::text::decimal(status as int),
        caused@->Backend_0.take(what@.len() as int) == what@,
        caused@->Backend_0.skip(what@.len() + 2int) == cause@,
{
    reveal_strlit(" failed: ");
    reveal_strlit(": ");
    assert(failed@->Backend_0.take(what@.len() as int) =~= what@);
    assert(failed@->Backend_0.skip(what@.len() + 9int) =~= crate::text::decimal(status as int));
    assert(replied@->Backend_0.take(what@.len() as int) =~= what@);
    assert(replied@->Backend_0.skip(what@.len() + 2int) =~= crate::text::decimal(status as int));
    assert(caused@->Backend_0.take(what@.len() as int) =~= what@);
    assert(caused@->Backend_0.skip(what@.len() + 2int) =~= cause@);
}

} // verus!
