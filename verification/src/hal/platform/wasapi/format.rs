use vstd::prelude::*;
use vstd::string::*;

use crate::error::{AudioError, ErrorView};
use crate::types::AudioFormat;

verus! {

/// Format tag of plain float samples.
pub const WAVE_FORMAT_IEEE_FLOAT: u16 = 3;

/// Format tag of a format that goes on behind the common part.
pub const WAVE_FORMAT_EXTENSIBLE: u16 = 0xfffe;

/// Bytes of the common part of a native format.
pub const WAVE_FORMAT_BYTES: usize = 18;

/// Bytes of an extensible native format.
pub const WAVE_FORMAT_EXTENSIBLE_BYTES: usize = 40;

/// The sub-format of float samples.
pub const SUBTYPE_IEEE_FLOAT: u128 = 0x00000003_0000_0010_8000_00aa00389b71;

/// A native wave format.
#[derive(Clone, Copy, Debug, PartialEq, Eq, Structural)]
pub struct WaveFormat {
    pub format_tag: u16,
    pub channels: u16,
    pub samples_per_sec: u32,
    pub avg_bytes_per_sec: u32,
    pub block_align: u16,
    pub bits_per_sample: u16,
    /// Bytes behind the common part.
    pub extra_bytes: u16,
    /// The sub-format of an extensible format.
    pub sub_format: u128,
}

/// Whether the native format says how it goes on, and is long enough for it.
pub open spec fn is_extensible(format: WaveFormat) -> bool {
    format.format_tag == WAVE_FORMAT_EXTENSIBLE && format.extra_bytes + WAVE_FORMAT_BYTES
        >= WAVE_FORMAT_EXTENSIBLE_BYTES
}

/// Whether a native format is that of interleaved 32-bit float samples.
pub open spec fn is_interleaved_float(format: WaveFormat) -> bool {
    &&& format.format_tag == WAVE_FORMAT_IEEE_FLOAT || (is_extensible(format) && format.sub_format
        == SUBTYPE_IEEE_FLOAT)
    &&& format.bits_per_sample == 32
    &&& format.block_align == format.channels * 4
}

/// The format of the samples, where they are interleaved 32-bit floats. `None`
/// stands for a missing format.
pub fn parse_float_format(format: Option<WaveFormat>) -> (result: Result<AudioFormat, AudioError>)
    ensures
        match format {
            Some(wave) => (result is Ok <==> is_interleaved_float(wave) && wave.channels != 0
                && wave.samples_per_sec != 0) && (result is Ok ==> result->Ok_0 == (AudioFormat {
                sample_rate: wave.samples_per_sec,
                channels: wave.channels,
            })),
            None => result is Err,
        },
        result is Err ==> result->Err_0@ == ErrorView::FormatNotSupported,
{
    let wave = match format {
        Some(wave) => wave,
        None => {
            return Err(AudioError::FormatNotSupported);
        },
    };
    let block_align: u16 = match wave.channels.checked_mul(4) {
        Some(block_align) => block_align,
        None => {
            return Err(AudioError::FormatNotSupported);
        },
    };
    let is_float = if wave.format_tag == WAVE_FORMAT_IEEE_FLOAT {
        wave.bits_per_sample == 32 && wave.block_align == block_align
    } else if wave.format_tag == WAVE_FORMAT_EXTENSIBLE && wave.extra_bytes as usize
        + WAVE_FORMAT_BYTES >= WAVE_FORMAT_EXTENSIBLE_BYTES {
        wave.sub_format == SUBTYPE_IEEE_FLOAT && wave.bits_per_sample == 32 && wave.block_align
            == block_align
    } else {
        false
    };
    if !is_float || wave.channels == 0 || wave.samples_per_sec == 0 {
        return Err(AudioError::FormatNotSupported);
    }
    Ok(AudioFormat::new(wave.samples_per_sec, wave.channels))
}

/// `"WASAPI {operation}: {error}"`.
pub open spec fn wasapi_text(operation: Seq<char>, error: Seq<char>) -> Seq<char> {
    "WASAPI "@ + operation + ": "@ + error
}

/// A native operation that failed with the rendered error `error`.
pub fn wasapi_error(operation: &str, error: &str) -> (failure: AudioError)
    ensures
        failure@ == ErrorView::Backend(wasapi_text(operation@, error@)),
{
    let mut message = "WASAPI ".to_owned();
    message.append(operation);
    message.append(": ");
    message.append(error);
    AudioError::BackendError(message)
}

} // verus!
