//! What the native render callbacks do around a pull.

use vstd::prelude::*;

use super::manager::AudioManager;

verus! {

/// Bytes of one native sample.
pub const SAMPLE_BYTES: usize = 4;

/// Samples that a pull left valid in a buffer of `len` samples: none where it
/// failed, and never more than whole frames of the buffer.
pub open spec fn kept_samples(len: int, channels: int, pulled: Option<usize>) -> int {
    match pulled {
        Some(frames) => if frames < len / channels {
            frames * channels
        } else {
            (len / channels) * channels
        },
        None => 0,
    }
}

/// Whether `after` is `before` with everything behind the first `kept` samples
/// silenced.
pub open spec fn silenced_behind<T: Default>(before: Seq<T>, kept: int, after: Seq<T>) -> bool {
    &&& after.len() == before.len()
    &&& forall|i: int|
        0 <= i < before.len() ==> if i < kept {
            #[trigger] after[i] == before[i]
        } else {
            call_ensures(T::default, (), after[i])
        }
}

/// Settle a buffer after a pull: silence what the manager did not write.
///
/// `pulled` is the number of frames that the manager reported, or `None` where
/// there is no manager or it panicked. A report of more frames than the buffer
/// holds is clamped.
pub fn settle_output<T: Copy + Default>(output: &mut [T], channels: usize, pulled: Option<usize>)
    requires
        channels > 0,
    ensures
        silenced_behind(
            old(output)@,
            kept_samples(old(output)@.len() as int, channels as int, pulled),
            final(output)@,
        ),
{
    let room: usize = output.len();
    let whole: usize = room / channels;
    let frames: usize = match pulled {
        Some(frames) => if frames < whole {
            frames
        } else {
            whole
        },
        None => 0,
    };
    assert(frames * channels <= room && 0 * channels == 0) by (nonlinear_arith)
        requires
            frames <= whole,
            whole == room as int / channels as int,
            channels > 0,
    ;
    let kept: usize = frames * channels;
    let mut i: usize = kept;
    while i < room
        invariant
            kept <= i <= room == output@.len() == old(output)@.len(),
            forall|j: int| 0 <= j < kept ==> #[trigger] output@[j] == old(output)@[j],
            forall|j: int| kept <= j < i ==> call_ensures(T::default, (), #[trigger] output@[j]),
        decreases room - i,
    {
        output[i] = T::default();
        i = i + 1;
    }
}

/// Pull from the manager into a buffer, then settle it.
pub fn render<T: Copy + Default, M: AudioManager<T>>(
    manager: &M,
    output: &mut [T],
    channels: usize,
) -> (frames: usize)
    requires
        channels > 0,
    ensures
        final(output)@.len() == old(output)@.len(),
        exists|filled: Seq<T>| #[trigger]
            manager.pulls(old(output)@, filled, frames) && silenced_behind(
                filled,
                kept_samples(old(output)@.len() as int, channels as int, Some(frames)),
                final(output)@,
            ),
{
    let frames = manager.pull(output);
    let ghost filled = output@;
    settle_output(output, channels, Some(frames));
    assert(manager.pulls(old(output)@, filled, frames));
    frames
}

/// A pull never makes sound behind what it reported: everything after the
/// reported frames is silence, and a failed pull gives silence only.
pub proof fn law_unreported_samples_are_silent<T: Default>(
    before: Seq<T>,
    channels: int,
    pulled: Option<usize>,
    after: Seq<T>,
    index: int,
)
    requires
        channels > 0,
        silenced_behind(before, kept_samples(before.len() as int, channels, pulled), after),
        0 <= index < before.len(),
        pulled is Some ==> index >= pulled->0 * channels,
    ensures
        call_ensures(T::default, (), after[index]),
{
    if pulled is Some {
        let whole = before.len() as int / channels;
        if pulled->0 >= whole {
            assert(whole * channels <= pulled->0 * channels) by (nonlinear_arith)
                requires
                    whole <= pulled->0,
                    channels > 0,
            ;
        }
    }
    assert(kept_samples(before.len() as int, channels, pulled) <= index);
}

/// Samples that fit a native buffer of `bytes` bytes, at most `frames` frames,
/// in whole frames.
pub open spec fn whole_frame_samples(frames: int, channels: int, bytes: int) -> int {
    let available = bytes / SAMPLE_BYTES as int;
    let wanted = if frames * channels < available {
        frames * channels
    } else {
        available
    };
    (wanted / channels) * channels
}

/// Samples to render into a native buffer whose size is given in bytes and
/// whose length is asked for in frames. `None` where there is nothing to
/// render.
pub fn render_samples(frame_count: u32, channels: u32, bytes: u32) -> (samples: Option<usize>)
    ensures
        samples is Some <==> channels != 0 && frame_count * channels
            <= usize::MAX && whole_frame_samples(
            frame_count as int,
            channels as int,
            bytes as int,
        ) > 0,
        samples is Some ==> samples->0 == whole_frame_samples(
            frame_count as int,
            channels as int,
            bytes as int,
        ),
{
    let available: usize = bytes as usize / SAMPLE_BYTES;
    let width: usize = channels as usize;
    let requested: usize = match (frame_count as usize).checked_mul(width) {
        Some(value) => if width != 0 {
            value
        } else {
            return None;
        },
        None => {
            return None;
        },
    };
    let count: usize = if requested < available {
        requested
    } else {
        available
    };
    assert(count - count % width == (count as int / width as int) * width) by (nonlinear_arith)
        requires
            width > 0,
    ;
    let samples: usize = count - count % width;
    if samples == 0 {
        None
    } else {
        Some(samples)
    }
}

/// Samples of a native buffer whose size is given in bytes. `None` where it
/// does not hold a whole frame.
pub fn buffer_samples(buffer_len: i32, channels: usize) -> (samples: Option<usize>)
    requires
        channels > 0,
    ensures
        samples is Some <==> buffer_len > 0 && buffer_len as int / SAMPLE_BYTES as int
            >= channels,
        samples is Some ==> samples->0 == buffer_len as int / SAMPLE_BYTES as int,
{
    if buffer_len <= 0 {
        return None;
    }
    let samples: usize = buffer_len as usize / SAMPLE_BYTES;
    if samples == 0 {
        return None;
    }
    if samples / channels == 0 {
        assert(samples < channels) by (nonlinear_arith)
            requires
                samples as int / channels as int == 0,
                channels > 0,
        ;
        return None;
    }
    assert(samples >= channels) by (nonlinear_arith)
        requires
            samples as int / channels as int != 0,
            channels > 0,
            samples >= 0,
    ;
    Some(samples)
}

} // verus!
