//! Mixing one stream into the accumulation buffer.
//!
//! Fractions of a frame, weights and volumes are floating-point bit patterns that
//! the host's arithmetic interprets. A stream at the mixer's rate needs none of it
//! but to add samples up.

use vstd::prelude::*;

verus! {

/// Resample ratio: `stream_rate / mixer_rate`.
#[derive(Clone, Copy, Debug, PartialEq, Eq, Structural)]
pub struct ResampleRatio {
    pub stream_rate: u32,
    pub mixer_rate: u32,
}

/// Whether a stream has the mixer's rate.
pub open spec fn same_rate(ratio: ResampleRatio) -> bool {
    ratio.stream_rate == ratio.mixer_rate && ratio.mixer_rate > 0
}

fn has_same_rate(ratio: ResampleRatio) -> (same: bool)
    ensures
        same == same_rate(ratio),
{
    ratio.stream_rate == ratio.mixer_rate && ratio.mixer_rate > 0
}

/// A point in a source stream.
#[derive(Clone, Copy, Debug, PartialEq, Eq, Structural)]
pub struct Position {
    /// Whole source frames before it.
    pub frame: u64,
    /// Fraction of a frame behind them, as a bit pattern. Zero is no fraction.
    pub fraction: u64,
}

/// Where a stream starts.
pub open spec fn origin() -> Position {
    Position { frame: 0, fraction: 0 }
}

/// Where a run of output frames starts and ends in the source stream.
#[derive(Clone, Copy, Debug, PartialEq, Eq, Structural)]
pub struct Advance {
    /// Whole source frame of the first output frame.
    pub start_frame: u64,
    /// Fraction of a source frame behind `start_frame`, as a bit pattern.
    pub fraction: u64,
    /// First whole source frame at or behind the end of the run.
    pub end_frame: u64,
    /// Position behind the run, where the next one starts.
    pub next_position: Position,
}

/// A point between two source frames.
#[derive(Clone, Copy, Debug, PartialEq, Eq, Structural)]
pub struct Tap {
    /// Source frame at or before the point, relative to the first one of the run.
    pub index: usize,
    /// Weight of the frame behind it, as a bit pattern. Zero is no weight.
    pub weight: u64,
}

/// Arithmetic on stream positions and samples, supplied by the host.
pub trait MixMath<T> {
    /// Move `position` on by `frame_count` output frames, where the rates differ.
    fn advance(position: Position, ratio: ResampleRatio, frame_count: usize) -> Advance;

    /// Whether rates that differ are so close that nothing is resampled.
    fn is_unity(ratio: ResampleRatio) -> bool;

    /// Where output frame `out_frame` of a run lies in the `source_frames` frames
    /// from its start on, where the rates differ.
    fn tap(run: Advance, ratio: ResampleRatio, out_frame: usize, source_frames: usize) -> Tap;

    /// A sample between two neighbours.
    fn interpolate(before: T, behind: T, weight: u64) -> T;

    /// `sum` plus `sample` at the given volume.
    fn accumulate(sum: T, sample: T, volume: u32) -> T;
}

/// `frame` plus `count`, or the last frame that can be counted.
pub open spec fn frames_on(frame: u64, count: int) -> u64 {
    if frame + count > u64::MAX {
        u64::MAX
    } else {
        (frame + count) as u64
    }
}

/// A run of `frame_count` output frames at the mixer's rate: it moves by as many
/// source frames.
pub open spec fn run_at_rate(position: Position, frame_count: usize) -> Advance {
    let next = frames_on(position.frame, frame_count as int);
    Advance {
        start_frame: position.frame,
        fraction: position.fraction,
        end_frame: if position.fraction == 0 {
            next
        } else {
            frames_on(next, 1)
        },
        next_position: Position { frame: next, fraction: position.fraction },
    }
}

/// Whether `run` may be the run of `frame_count` output frames from `position`.
pub open spec fn runs<T, K: MixMath<T>>(
    position: Position,
    ratio: ResampleRatio,
    frame_count: usize,
    run: Advance,
) -> bool {
    if same_rate(ratio) {
        run == run_at_rate(position, frame_count)
    } else {
        call_ensures(K::advance, (position, ratio, frame_count), run)
    }
}

/// Move `position` on by `frame_count` output frames.
pub(super) fn plan_run<T, K: MixMath<T>>(
    position: Position,
    ratio: ResampleRatio,
    frame_count: usize,
) -> (run: Advance)
    ensures
        runs::<T, K>(position, ratio, frame_count, run),
{
    if !has_same_rate(ratio) {
        return K::advance(position, ratio, frame_count);
    }
    let next: u64 = position.frame.saturating_add(frame_count as u64);
    Advance {
        start_frame: position.frame,
        fraction: position.fraction,
        end_frame: if position.fraction == 0 {
            next
        } else {
            next.saturating_add(1)
        },
        next_position: Position { frame: next, fraction: position.fraction },
    }
}

/// Whether `unity` may say that a ratio needs no resampling.
pub open spec fn unity_says<T, K: MixMath<T>>(ratio: ResampleRatio, unity: bool) -> bool {
    if same_rate(ratio) {
        unity
    } else {
        call_ensures(K::is_unity, (ratio,), unity)
    }
}

/// Whether a ratio needs no resampling.
pub(super) fn needs_no_resampling<T, K: MixMath<T>>(ratio: ResampleRatio) -> (unity: bool)
    ensures
        unity_says::<T, K>(ratio, unity),
{
    if has_same_rate(ratio) {
        true
    } else {
        K::is_unity(ratio)
    }
}

/// Where output frame `out_frame` of a run at the mixer's rate lies: on the
/// source frame of that number or as far behind it as the run starts behind a
/// frame, but not behind the last of `source_frames` frames.
pub open spec fn tap_at_rate(run: Advance, out_frame: int, source_frames: int) -> Tap {
    if out_frame + 1 < source_frames {
        Tap { index: out_frame as usize, weight: run.fraction }
    } else {
        Tap { index: (source_frames - 1) as usize, weight: 0 }
    }
}

/// Whether `tap` may be where output frame `out_frame` of a run lies in
/// `source_frames` frames from its start on.
pub open spec fn taps_at<T, K: MixMath<T>>(
    run: Advance,
    ratio: ResampleRatio,
    out_frame: int,
    source_frames: int,
    tap: Tap,
) -> bool {
    if same_rate(ratio) {
        tap == tap_at_rate(run, out_frame, source_frames)
    } else {
        call_ensures(K::tap, (run, ratio, out_frame as usize, source_frames as usize), tap)
    }
}

fn find_tap<T, K: MixMath<T>>(
    run: Advance,
    ratio: ResampleRatio,
    out_frame: usize,
    source_frames: usize,
) -> (tap: Tap)
    requires
        source_frames > 0,
    ensures
        taps_at::<T, K>(run, ratio, out_frame as int, source_frames as int, tap),
{
    if !has_same_rate(ratio) {
        return K::tap(run, ratio, out_frame, source_frames);
    }
    if out_frame < source_frames - 1 {
        Tap { index: out_frame, weight: run.fraction }
    } else {
        Tap { index: source_frames - 1, weight: 0 }
    }
}

/// Whether `sample` may lie between two neighbours at the given weight. Without
/// weight it is the first.
pub open spec fn lies_between<T, K: MixMath<T>>(
    before: T,
    behind: T,
    weight: u64,
    sample: T,
) -> bool {
    if weight == 0 {
        sample == before
    } else {
        call_ensures(K::interpolate, (before, behind, weight), sample)
    }
}

fn sample_between<T: Copy, K: MixMath<T>>(before: T, behind: T, weight: u64) -> (sample: T)
    ensures
        lies_between::<T, K>(before, behind, weight, sample),
{
    if weight == 0 {
        before
    } else {
        K::interpolate(before, behind, weight)
    }
}

/// Source frames that a run covers: at least up to the end of the first one.
pub open spec fn frames_covered(run: Advance) -> int {
    (if run.end_frame == 0 {
        1
    } else {
        run.end_frame as int
    }) - run.start_frame
}

/// Source frames that a run still needs, where the first `held` of those that
/// it covers were read before.
pub open spec fn frames_needed(run: Advance, held: int) -> int {
    if frames_covered(run) > held {
        frames_covered(run) - held
    } else {
        0
    }
}

/// Whether a run covers a number of samples that a buffer can have.
pub open spec fn readable(run: Advance, channels: u16) -> bool {
    &&& 0 <= frames_covered(run) <= usize::MAX
    &&& frames_covered(run) * channels <= usize::MAX
}

/// Source frames to read for a run behind the `held` ones, where as many as it
/// covers can be read.
pub fn plan_read(run: Advance, channels: u16, held: usize) -> (frames: Option<usize>)
    ensures
        frames is Some <==> readable(run, channels),
        frames is Some ==> frames->0 == frames_needed(run, held as int),
{
    let end: u64 = if run.end_frame == 0 {
        1
    } else {
        run.end_frame
    };
    if end < run.start_frame {
        return None;
    }
    let frames: u64 = end - run.start_frame;
    if frames > usize::MAX as u64 {
        return None;
    }
    let covered: usize = frames as usize;
    match covered.checked_mul(channels as usize) {
        Some(_) => Some(
            if covered > held {
                covered - held
            } else {
                0
            },
        ),
        None => None,
    }
}

/// How many of `len` samples, the first of which belongs to the start of a run,
/// lie before the start of the next run.
pub open spec fn samples_passed(run: Advance, channels: int, len: int) -> int {
    let passed = (run.next_position.frame - run.start_frame) * channels;
    if passed < 0 {
        0
    } else if passed < len {
        passed
    } else {
        len
    }
}

/// Samples of a source of `len` samples that the next run does not need.
pub(super) fn count_passed(run: Advance, channels: usize, len: usize) -> (passed: usize)
    requires
        channels > 0,
    ensures
        passed == samples_passed(run, channels as int, len as int),
{
    if run.next_position.frame <= run.start_frame {
        assert((run.next_position.frame - run.start_frame) * channels <= 0) by (nonlinear_arith)
            requires
                run.next_position.frame <= run.start_frame,
        ;
        return 0;
    }
    let frames: u64 = run.next_position.frame - run.start_frame;
    assert(frames * channels >= frames) by (nonlinear_arith)
        requires
            channels > 0,
    ;
    if frames > usize::MAX as u64 {
        return len;
    }
    match (frames as usize).checked_mul(channels) {
        Some(passed) => if passed < len {
            passed
        } else {
            len
        },
        None => len,
    }
}

/// The source channel that feeds output channel `channel`: the same one, or
/// the last one where the source has fewer.
pub open spec fn source_channel(channel: int, source_channels: int) -> int {
    if channel < source_channels {
        channel
    } else {
        source_channels - 1
    }
}

/// `index`, but not behind the last of `count` frames.
pub open spec fn clamped(index: int, count: int) -> int {
    if index < count {
        index
    } else {
        count - 1
    }
}

/// Whether `after` may be `before` with the first `count` samples of `source`
/// added, as far as there is room.
pub open spec fn mixed_direct<T, K: MixMath<T>>(
    source: Seq<T>,
    count: int,
    volume: u32,
    before: Seq<T>,
    after: Seq<T>,
) -> bool {
    &&& after.len() == before.len()
    &&& forall|i: int|
        0 <= i < before.len() ==> if i < count {
            call_ensures(K::accumulate, (before[i], source[i], volume), #[trigger] after[i])
        } else {
            after[i] == before[i]
        }
}

/// Whether `after` may be the output sample that a tap adds to `before`: the
/// two source frames around it, interpolated, at the given volume.
pub open spec fn tapped<T, K: MixMath<T>>(
    source: Seq<T>,
    source_channels: int,
    source_frames: int,
    channel: int,
    tap: Tap,
    volume: u32,
    before: T,
    after: T,
) -> bool {
    let first = clamped(tap.index as int, source_frames);
    let second = clamped(first + 1, source_frames);
    let from = source_channel(channel, source_channels);
    exists|sample: T|
        lies_between::<T, K>(
            source[first * source_channels + from],
            source[second * source_channels + from],
            tap.weight,
            sample,
        ) && #[trigger] call_ensures(K::accumulate, (before, sample, volume), after)
}

/// Whether `after` may be `before` with `frame_count` resampled output frames
/// added, where `taps` says where each lies in the source. An empty source
/// adds nothing.
pub open spec fn mixed_resampled<T, K: MixMath<T>>(
    source: Seq<T>,
    source_channels: int,
    source_frames: int,
    channels: int,
    run: Advance,
    ratio: ResampleRatio,
    frame_count: int,
    volume: u32,
    before: Seq<T>,
    after: Seq<T>,
    taps: Seq<Tap>,
) -> bool {
    if source_frames == 0 {
        after == before
    } else {
        &&& taps.len() == frame_count
        &&& forall|f: int|
            0 <= f < frame_count ==> taps_at::<T, K>(
                run,
                ratio,
                f,
                source_frames,
                #[trigger] taps[f],
            )
        &&& after.len() == before.len()
        &&& forall|f: int, c: int|
            #![trigger after[f * channels + c]]
            0 <= f < frame_count && 0 <= c < channels ==> tapped::<T, K>(
                source,
                source_channels,
                source_frames,
                c,
                taps[f],
                volume,
                before[f * channels + c],
                after[f * channels + c],
            )
        &&& forall|i: int|
            frame_count * channels <= i < before.len() ==> #[trigger] after[i] == before[i]
    }
}

/// Fast path: no resampling, no channel conversion. Apply the volume and add.
pub(super) fn mix_direct<T: Copy, K: MixMath<T>>(
    source: &Vec<T>,
    target: &mut Vec<T>,
    count: usize,
    volume: u32,
)
    requires
        count <= source@.len(),
    ensures
        mixed_direct::<T, K>(source@, count as int, volume, old(target)@, final(target)@),
{
    let samples: usize = if count < target.len() {
        count
    } else {
        target.len()
    };
    let mut i: usize = 0;
    while i < samples
        invariant
            i <= samples <= source@.len(),
            samples <= target@.len() == old(target)@.len(),
            forall|j: int|
                0 <= j < i ==> call_ensures(
                    K::accumulate,
                    (old(target)@[j], source@[j], volume),
                    #[trigger] target@[j],
                ),
            forall|j: int| i <= j < target@.len() ==> #[trigger] target@[j] == old(target)@[j],
        decreases samples - i,
    {
        target[i] = K::accumulate(target[i], source[i], volume);
        i = i + 1;
    }
}

/// Mix a stream with resampling and channel conversion.
///
/// Uses linear interpolation. Extra source channels are trimmed, missing ones
/// are filled by repeating the last available one.
pub(super) fn mix_resampled<T: Copy, K: MixMath<T>>(
    source: &Vec<T>,
    target: &mut Vec<T>,
    source_channels: usize,
    channels: usize,
    ratio: ResampleRatio,
    frame_count: usize,
    run: Advance,
    source_frames: usize,
    volume: u32,
)
    requires
        source_channels > 0,
        source_frames * source_channels <= source@.len(),
        frame_count * channels <= old(target)@.len(),
    ensures
        final(target)@.len() == old(target)@.len(),
        exists|taps: Seq<Tap>| #[trigger]
            mixed_resampled::<T, K>(
                source@,
                source_channels as int,
                source_frames as int,
                channels as int,
                run,
                ratio,
                frame_count as int,
                volume,
                old(target)@,
                final(target)@,
                taps,
            ),
{
    let ghost mut taps: Seq<Tap> = Seq::empty();
    if source_frames == 0 {
        assert(mixed_resampled::<T, K>(
            source@,
            source_channels as int,
            source_frames as int,
            channels as int,
            run,
            ratio,
            frame_count as int,
            volume,
            target@,
            target@,
            taps,
        ));
        return ;
    }
    let available = source.len();
    let room = target.len();
    let mut f: usize = 0;
    let mut offset: usize = 0;
    while f < frame_count
        invariant
            f <= frame_count,
            offset == f * channels,
            source_channels > 0,
            source_frames > 0,
            source_frames * source_channels <= source@.len() == available,
            frame_count * channels <= target@.len() == old(target)@.len() == room,
            taps.len() == f,
            forall|g: int|
                0 <= g < f ==> taps_at::<T, K>(
                    run,
                    ratio,
                    g,
                    source_frames as int,
                    #[trigger] taps[g],
                ),
            forall|g: int, c: int|
                #![trigger target@[g * channels + c]]
                0 <= g < f && 0 <= c < channels ==> tapped::<T, K>(
                    source@,
                    source_channels as int,
                    source_frames as int,
                    c,
                    taps[g],
                    volume,
                    old(target)@[g * channels + c],
                    target@[g * channels + c],
                ),
            forall|i: int|
                f * channels <= i < target@.len() ==> #[trigger] target@[i] == old(target)@[i],
        decreases frame_count - f,
    {
        let tap = find_tap::<T, K>(run, ratio, f, source_frames);
        let first: usize = if tap.index < source_frames {
            tap.index
        } else {
            source_frames - 1
        };
        let second: usize = if first + 1 < source_frames {
            first + 1
        } else {
            source_frames - 1
        };
        assert(first * source_channels + source_channels <= available && second * source_channels
            + source_channels <= available) by (nonlinear_arith)
            requires
                first < source_frames,
                second < source_frames,
                source_frames * source_channels <= available,
        ;
        assert((f + 1) * channels == f * channels + channels && (f + 1) * channels <= frame_count
            * channels) by (nonlinear_arith)
            requires
                f < frame_count,
        ;
        let first_start: usize = first * source_channels;
        let second_start: usize = second * source_channels;
        let ghost before = target@;
        let mut c: usize = 0;
        while c < channels
            invariant
                c <= channels,
                offset == f * channels,
                offset + channels <= target@.len() == before.len() == room,
                source_channels > 0,
                source@.len() == available,
                first == clamped(tap.index as int, source_frames as int),
                second == clamped(first + 1, source_frames as int),
                first_start == first * source_channels,
                second_start == second * source_channels,
                first_start + source_channels <= available,
                second_start + source_channels <= available,
                forall|d: int|
                    #![trigger target@[offset + d]]
                    0 <= d < c ==> tapped::<T, K>(
                        source@,
                        source_channels as int,
                        source_frames as int,
                        d,
                        tap,
                        volume,
                        before[offset + d],
                        target@[offset + d],
                    ),
                forall|i: int|
                    0 <= i < target@.len() && !(offset <= i < offset + c) ==> #[trigger] target@[i]
                        == before[i],
            decreases channels - c,
        {
            let from: usize = if c < source_channels {
                c
            } else {
                source_channels - 1
            };
            let sample = sample_between::<T, K>(
                source[first_start + from],
                source[second_start + from],
                tap.weight,
            );
            let sum = target[offset + c];
            let mixed = K::accumulate(sum, sample, volume);
            target[offset + c] = mixed;
            proof {
                assert(call_ensures(K::accumulate, (sum, sample, volume), mixed));
                assert(tapped::<T, K>(
                    source@,
                    source_channels as int,
                    source_frames as int,
                    c as int,
                    tap,
                    volume,
                    before[offset + c],
                    target@[offset + c],
                ));
            }
            c = c + 1;
        }
        proof {
            let earlier = taps;
            taps = taps.push(tap);
            assert forall|g: int, c: int|
                #![trigger target@[g * channels + c]]
                0 <= g < f + 1 && 0 <= c < channels implies tapped::<T, K>(
                source@,
                source_channels as int,
                source_frames as int,
                c,
                taps[g],
                volume,
                old(target)@[g * channels + c],
                target@[g * channels + c],
            ) by {
                if g < f {
                    assert(0 <= g * channels + c < f * channels) by (nonlinear_arith)
                        requires
                            0 <= g < f,
                            0 <= c < channels,
                    ;
                    assert(target@[g * channels + c] == before[g * channels + c]);
                    assert(taps[g] == earlier[g]);
                } else {
                    assert(target@[offset + c] == target@[g * channels + c]);
                    assert(before[offset + c] == old(target)@[offset + c]);
                }
            }
        }
        f = f + 1;
        offset = offset + channels;
    }
    assert(mixed_resampled::<T, K>(
        source@,
        source_channels as int,
        source_frames as int,
        channels as int,
        run,
        ratio,
        frame_count as int,
        volume,
        old(target)@,
        target@,
        taps,
    ));
}

} // verus!
