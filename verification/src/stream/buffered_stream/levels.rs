//! How full buffers are kept, and what reads and refills do to the samples.

use core::time::Duration;

use vstd::arithmetic::div_mod::{
    lemma_fundamental_div_mod, lemma_fundamental_div_mod_converse, lemma_mod_bound,
};
use vstd::prelude::*;

use super::buffer::{
    buffer_capacity, buffer_capacity_of, frame_width, law_position_is_continuous_across_seek,
    nanoseconds_part, refilled, whole_seconds, BufferError, BufferedAudioStream, GroupFill,
    RefillPlan,
};
use super::ring::{AudioBuffer, FillLevel};
use super::worker::{
    acquire_worker_handle, fill_groups, fill_round, groups_without, settled, visited, Acquired,
    BufferGroup, FillRound, Wake, WorkerHandle, WorkerState, WorkerStep,
};
use crate::error::AudioError;
use crate::mixer::AudioStream;

verus! {

/// The watermark is a share of the capacity: a level is below it exactly where
/// less than sixty of a hundred parts are filled, and levels of the same
/// proportions are on the same side of it, whatever the capacity.
pub proof fn law_watermark_is_a_share(
    level: FillLevel,
    below: bool,
    times: int,
    scaled: FillLevel,
    scaled_below: bool,
)
    requires
        call_ensures(FillLevel::is_below_watermark, (&level,), below),
        call_ensures(FillLevel::is_below_watermark, (&scaled,), scaled_below),
        times > 0,
        scaled.filled == times * level.filled,
        scaled.capacity == times * level.capacity,
    ensures
        level.capacity > 0 ==> (below <==> 100 * level.filled < 60 * level.capacity),
        level.capacity == 0 ==> below,
        below == scaled_below,
{
    let filled = level.filled as int;
    let capacity = level.capacity as int;
    assert(100 * (times * filled) < 60 * (times * capacity) <==> 100 * filled < 60 * capacity)
        by (nonlinear_arith)
        requires
            times > 0,
    ;
    assert(times * capacity == 0 <==> capacity == 0) by (nonlinear_arith)
        requires
            times > 0,
    ;
}

/// The fill level of a buffer is what it holds of what it can hold, and the rest
/// is free.
pub proof fn law_levels_add_up<T: Copy>(
    buffer: AudioBuffer<T>,
    available: usize,
    free: usize,
    level: FillLevel,
)
    requires
        buffer.wf(),
        call_ensures(AudioBuffer::<T>::available, (&buffer,), available),
        call_ensures(AudioBuffer::<T>::free_space, (&buffer,), free),
        call_ensures(AudioBuffer::<T>::fill_level, (&buffer,), level),
    ensures
        available == buffer@.len(),
        available + free == buffer.capacity(),
        level.filled == available,
        level.capacity == buffer.capacity(),
{
    buffer.law_samples_are_conserved();
}

/// A write takes as many samples as fit and puts them behind those that are
/// queued, as they are.
pub proof fn law_writes_go_behind<T: Copy>(
    buffer: &mut AudioBuffer<T>,
    samples: &[T],
    count: usize,
)
    requires
        old(buffer).wf(),
        old(buffer).written() + samples@.len() <= u64::MAX,
        call_ensures(AudioBuffer::<T>::write, (buffer, samples), count),
    ensures
        count <= samples@.len(),
        old(buffer)@.len() + count <= old(buffer).capacity(),
        count == samples@.len() || old(buffer)@.len() + count == old(buffer).capacity(),
        final(buffer)@.len() == old(buffer)@.len() + count,
        forall|i: int|
            0 <= i < old(buffer)@.len() ==> #[trigger] final(buffer)@[i] == old(buffer)@[i],
        forall|i: int|
            0 <= i < count ==> final(buffer)@[old(buffer)@.len() + i] == #[trigger] samples@[i],
        final(buffer).capacity() == old(buffer).capacity(),
{
    old(buffer).law_samples_are_conserved();
}

/// A read takes as many of the oldest samples as are there and asked for, in their
/// order, and leaves the others queued.
pub proof fn law_reads_take_the_oldest<T: Copy>(
    buffer: &mut AudioBuffer<T>,
    output: &mut [T],
    count: usize,
)
    requires
        old(buffer).wf(),
        call_ensures(AudioBuffer::<T>::read, (buffer, output), count),
    ensures
        count <= old(output)@.len() && count <= old(buffer)@.len(),
        count == old(output)@.len() || count == old(buffer)@.len(),
        final(output)@.len() == old(output)@.len(),
        forall|i: int| 0 <= i < count ==> #[trigger] final(output)@[i] == old(buffer)@[i],
        forall|i: int|
            count <= i < old(output)@.len() ==> #[trigger] final(output)@[i] == old(output)@[i],
        final(buffer)@.len() == old(buffer)@.len() - count,
        forall|i: int|
            0 <= i < final(buffer)@.len() ==> #[trigger] final(buffer)@[i] == old(buffer)@[i
                + count],
        final(buffer).consumed() == old(buffer).consumed() + count,
        final(buffer).capacity() == old(buffer).capacity(),
{
}

/// A discard drops what is queued and nothing else: it counts as consumed.
pub proof fn law_discards_empty_the_queue<T: Copy>(buffer: &mut AudioBuffer<T>)
    requires
        old(buffer).wf(),
        call_ensures(AudioBuffer::<T>::discard_buffered_samples, (buffer,), ()),
    ensures
        final(buffer)@.len() == 0,
        final(buffer).consumed() == old(buffer).consumed() + old(buffer)@.len(),
        final(buffer).written() == old(buffer).written(),
        final(buffer).capacity() == old(buffer).capacity(),
{
    old(buffer).law_samples_are_conserved();
}

/// A buffered stream gives what it has queued, oldest first, and silence behind it.
/// It asks for the worker exactly where less than sixty of a hundred parts of its
/// buffer are filled then, or where that was asked for before.
pub proof fn law_reads_deliver_the_queue<T: Copy + Default, S: AudioStream<T>>(
    stream: &mut BufferedAudioStream<T, S>,
    output: &mut [T],
    frame_count: u64,
    count: usize,
)
    requires
        old(stream).wf(),
        call_ensures(BufferedAudioStream::<T, S>::read, (stream, output, frame_count), count),
    ensures
        count == old(output)@.len(),
        final(output)@.len() == count,
        forall|i: int|
            0 <= i < count && i < old(stream).queue().len() ==> #[trigger] final(output)@[i]
                == old(stream).queue()[i],
        forall|i: int|
            old(stream).queue().len() <= i < count ==> call_ensures(
                T::default,
                (),
                #[trigger] final(output)@[i],
            ),
        final(stream).queue() == (if count <= old(stream).queue().len() {
            old(stream).queue().skip(count as int)
        } else {
            Seq::empty()
        }),
        final(stream).consumed() + final(stream).queue().len() == old(stream).consumed() + old(stream).queue().len(),
        final(stream).capacity() == old(stream).capacity(),
        final(stream).capacity() > 0 ==> (final(stream).wake_pending() <==> old(stream).wake_pending()
            || 100 * final(stream).queue().len() < 60 * final(stream).capacity()),
{
    let queue = old(stream).queue();
    let given = if count <= queue.len() {
        count as int
    } else {
        queue.len() as int
    };
    assert forall|i: int| 0 <= i < given implies #[trigger] final(output)@[i] == queue[i] by {
        assert(final(output)@.take(given)[i] == queue.take(given)[i]);
    }
    assert(queue.skip(queue.len() as int) =~= Seq::empty());
}

/// After a pass that settled every stream, each of them has at least sixty of a
/// hundred parts of its buffer filled or says that it has ended.
pub proof fn law_settled_streams_are_above_the_watermark<T: Copy + Default, S: AudioStream<T>>(
    streams: &mut Vec<BufferedAudioStream<T, S>>,
    temp: &mut Vec<T>,
    round: FillRound,
    index: int,
)
    requires
        call_ensures(fill_groups::<T, S>, (streams, temp), round),
        round.all_settled,
        0 <= index < old(streams)@.len(),
    ensures
        final(streams)@.len() == old(streams)@.len(),
        100 * final(streams)@[index].queue().len() >= 60 * final(streams)@[index].capacity()
            || call_ensures(S::is_eof, (&final(streams)@[index].inner(),), true),
{
    assert(settled(final(streams)@[index]));
}

/// After a pass that did not settle every stream, nothing came from any of them in
/// its last round.
pub proof fn law_passes_go_on_while_streams_give<T: Copy + Default, S: AudioStream<T>>(
    streams: &mut Vec<BufferedAudioStream<T, S>>,
    temp: &mut Vec<T>,
    round: FillRound,
)
    requires
        call_ensures(fill_groups::<T, S>, (streams, temp), round),
        !round.all_settled,
    ensures
        exists|last: Seq<BufferedAudioStream<T, S>>|
            {
                &&& #[trigger] last.len() == final(streams)@.len()
                &&& forall|i: int|
                    0 <= i < last.len() ==> visited(#[trigger] last[i], final(streams)@[i])
                        && last[i].queue().len() >= final(streams)@[i].queue().len()
            },
{
    let history = choose|history: Seq<Seq<BufferedAudioStream<T, S>>>| #[trigger]
        super::worker::pass_done(old(streams)@, final(streams)@, history)
            && super::worker::pass_came_to(history, round);
    let last = history[history.len() - 2];
    assert(super::worker::round_done(history[history.len() - 2], history[history.len() - 1]));
    assert forall|i: int| 0 <= i < last.len() implies visited(
        #[trigger] last[i],
        final(streams)@[i],
    ) && last[i].queue().len() >= final(streams)@[i].queue().len() by {
        assert(visited(last[i], final(streams)@[i]));
    }
    assert(last.len() == final(streams)@.len());
}

/// A visit asks the stream for as many whole frames as fit, and puts as many of the
/// samples that it provides as fit behind those that are queued.
pub proof fn law_refills_go_behind<T: Copy + Default, S: AudioStream<T>>(
    stream: &mut BufferedAudioStream<T, S>,
    temp: &mut Vec<T>,
    fill: Option<GroupFill>,
)
    requires
        old(stream).wf(),
        old(stream).consumed() + old(stream).capacity() <= u64::MAX,
        call_ensures(BufferedAudioStream::<T, S>::refill, (stream, temp), fill),
    ensures
        fill is None <==> old(stream).queue().len() == old(stream).capacity(),
        final(stream).consumed() == old(stream).consumed(),
        fill is None ==> final(stream).queue() == old(stream).queue(),
        fill is Some ==> exists|channels: u16, offered: Seq<T>, provided: Seq<T>| #[trigger]
            refills_with(
                *old(stream),
                final(stream).queue(),
                fill->0.samples_read,
                channels,
                offered,
                provided,
            ),
        fill is Some ==> (fill->0.settled ==> call_ensures(
            S::is_eof,
            (&old(stream).inner(),),
            true,
        ) || 100 * final(stream).queue().len() >= 60 * final(stream).capacity()),
        fill is Some ==> (!fill->0.settled ==> 100 * final(stream).queue().len() < 60 * final(stream).capacity()
            || final(stream).capacity() == 0),
{
    if fill is Some {
        let (channels, offered, provided) = choose|
            channels: u16,
            offered: Seq<T>,
            provided: Seq<T>,
        | #[trigger]
            refilled(
                *old(stream),
                final(stream).queue(),
                channels,
                offered,
                provided,
                fill->0.samples_read,
            );
        old(stream).law_samples_are_conserved();
        let free = old(stream).capacity() - old(stream).queue().len();
        let width = frame_width(channels) as int;
        lemma_fundamental_div_mod(free, width);
        lemma_mod_bound(free, width);
        assert((free / width) * width <= free < (free / width + 1) * width) by (nonlinear_arith)
            requires
                free == width * (free / width) + free % width,
                0 <= free % width < width,
        ;
        assert(refills_with(
            *old(stream),
            final(stream).queue(),
            fill->0.samples_read,
            channels,
            offered,
            provided,
        ));
    }
}

/// A visit of a pass is such a refill, or leaves a full buffer alone.
pub proof fn law_visits_refill<T, S: AudioStream<T>>(
    before: BufferedAudioStream<T, S>,
    after: BufferedAudioStream<T, S>,
)
    requires
        before.wf(),
        visited(before, after),
    ensures
        after.inner() == before.inner(),
        after.capacity() == before.capacity(),
        after.consumed() == before.consumed(),
        before.queue().len() == before.capacity() ==> after.queue() == before.queue(),
        before.queue().len() < before.capacity() ==> exists|
            count: usize,
            channels: u16,
            offered: Seq<T>,
            provided: Seq<T>,
        | #[trigger]
            refills_with(before, after.queue(), count, channels, offered, provided),
{
    before.law_samples_are_conserved();
    if before.queue().len() < before.capacity() {
        let (channels, offered, provided, count) = choose|
            channels: u16,
            offered: Seq<T>,
            provided: Seq<T>,
            count: usize,
        | #[trigger]
            refilled(before, after.queue(), channels, offered, provided, count);
        let free = before.capacity() - before.queue().len();
        let width = frame_width(channels) as int;
        lemma_fundamental_div_mod(free, width);
        lemma_mod_bound(free, width);
        assert((free / width) * width <= free < (free / width + 1) * width) by (nonlinear_arith)
            requires
                free == width * (free / width) + free % width,
                0 <= free % width < width,
        ;
        assert(free / width <= free) by (nonlinear_arith)
            requires
                (free / width) * width <= free,
                width >= 1,
                free >= 0,
                free / width >= 0,
        ;
        assert(refills_with(before, after.queue(), count, channels, offered, provided));
    }
}

/// Whether a visit may leave `queue` where the stream said that it provided `count`
/// samples: it was asked for as many whole frames as fit into what is free.
pub open spec fn refills_with<T, S: AudioStream<T>>(
    stream: BufferedAudioStream<T, S>,
    queue: Seq<T>,
    count: usize,
    channels: u16,
    offered: Seq<T>,
    provided: Seq<T>,
) -> bool {
    let free = stream.capacity() - stream.queue().len();
    let width = if channels == 0 {
        1int
    } else {
        channels as int
    };
    let taken = if count < free {
        count as int
    } else {
        free
    };
    &&& call_ensures(S::channels, (&stream.inner(),), channels)
    &&& offered.len() == free && provided.len() == free
    &&& exists|frames: u64|
        frames * width <= free < (frames + 1) * width && #[trigger] stream.inner().provides(
            frames,
            offered,
            provided,
            count,
        )
    &&& queue.len() == stream.queue().len() + taken
    &&& forall|i: int| 0 <= i < stream.queue().len() ==> #[trigger] queue[i] == stream.queue()[i]
    &&& forall|i: int|
        0 <= i < taken ==> queue[stream.queue().len() + i] == #[trigger] provided[i]
}

/// A plan asks for what is free, in whole frames, and belongs to the present
/// position.
pub proof fn law_plans_ask_for_what_is_free<T: Copy + Default, S: AudioStream<T>>(
    stream: BufferedAudioStream<T, S>,
    channels: u16,
    plan: Option<RefillPlan>,
)
    requires
        stream.wf(),
        channels > 0,
        call_ensures(BufferedAudioStream::<T, S>::plan_refill, (&stream, channels), plan),
    ensures
        plan is Some <==> stream.queue().len() < stream.capacity(),
        plan is Some ==> {
            &&& plan->0.samples == stream.capacity() - stream.queue().len()
            &&& plan->0.frames * channels <= plan->0.samples < (plan->0.frames + 1) * channels
            &&& plan->0.seeks == stream.seeks()
        },
{
    stream.law_samples_are_conserved();
    if plan is Some {
        let free = plan->0.samples as int;
        let width = channels as int;
        let frames = plan->0.frames as int;
        lemma_fundamental_div_mod(free, width);
        lemma_mod_bound(free, width);
        assert(frames * width <= free < (frames + 1) * width) by (nonlinear_arith)
            requires
                frames == free / width,
                free == width * (free / width) + free % width,
                0 <= free % width < width,
        ;
    }
}

/// What was read for a plan is queued behind what is there, as far as it fits and
/// was provided, where the plan still belongs to the position; otherwise nothing
/// changes.
pub proof fn law_accepted_samples_are_queued<T: Copy + Default, S: AudioStream<T>>(
    stream: &mut BufferedAudioStream<T, S>,
    plan: RefillPlan,
    samples: &[T],
    samples_read: usize,
    ended: bool,
    fill: Option<GroupFill>,
)
    requires
        old(stream).wf(),
        old(stream).consumed() + old(stream).capacity() <= u64::MAX,
        call_ensures(
            BufferedAudioStream::<T, S>::accept_refill,
            (stream, plan, samples, samples_read, ended),
            fill,
        ),
        samples_read <= samples@.len() <= old(stream).capacity() - old(stream).queue().len(),
    ensures
        fill is Some <==> plan.seeks == old(stream).seeks(),
        final(stream).queue() == (if fill is Some {
            old(stream).queue() + samples@.take(samples_read as int)
        } else {
            old(stream).queue()
        }),
        fill is Some && old(stream).capacity() > 0 ==> fill->0.samples_read == samples_read && (
        fill->0.settled <==> ended || 100 * final(stream).queue().len() >= 60 * final(stream).capacity()),
        final(stream).consumed() == old(stream).consumed(),
{
}

/// A seek brings the position to its frame: nothing is queued then, the worker is
/// asked for, and the position that is told is the frame, plus the whole frames
/// that are consumed from there on.
pub proof fn law_seeks_set_the_position<T: Copy + Default, S: AudioStream<T>>(
    stream: &mut BufferedAudioStream<T, S>,
    frame: u64,
    channels: u16,
    position: u64,
)
    requires
        old(stream).wf(),
        channels > 0,
        call_ensures(BufferedAudioStream::<T, S>::inner_sought, (stream, frame, channels), ()),
        call_ensures(
            BufferedAudioStream::<T, S>::position_for,
            (&*final(stream), channels),
            position,
        ),
    ensures
        position == frame,
        final(stream).queue().len() == 0,
        final(stream).wake_pending(),
        final(stream).capacity() == old(stream).capacity(),
        final(stream).seeks() != old(stream).seeks(),
{
    let consumed = old(stream).written();
    assert(0nat % frame_width(channels) == 0 && 0nat / frame_width(channels) == 0)
        by (nonlinear_arith)
        requires
            frame_width(channels) > 0,
    ;
    lemma_mod_bound(consumed as int, frame_width(channels) as int);
    law_position_is_continuous_across_seek(frame, consumed, channels, 0);
}

/// A failed seek changes nothing, and every seek asks the inner stream for its
/// frame.
pub proof fn law_seeks_ask_the_inner_stream<T: Copy + Default, S: AudioStream<T>>(
    stream: &mut BufferedAudioStream<T, S>,
    frame: u64,
    result: Result<(), AudioError>,
)
    requires
        old(stream).wf(),
        call_ensures(BufferedAudioStream::<T, S>::seek, (stream, frame), result),
    ensures
        call_ensures(S::seek, (&old(stream).inner(), frame), result),
        result is Err ==> *final(stream) == *old(stream),
        result is Ok ==> final(stream).queue().len() == 0 && final(stream).wake_pending(),
        result is Ok ==> final(stream).consumed() == old(stream).consumed() + old(stream).queue().len(),
        result is Ok ==> exists|channels: u16|
            #[trigger] call_ensures(S::channels, (&old(stream).inner(),), channels) && (channels > 0
                ==> (final(stream).base() + final(stream).consumed() / (channels as nat))
                % 0x1_0000_0000_0000_0000 == frame),
        final(stream).inner() == old(stream).inner(),
        final(stream).capacity() == old(stream).capacity(),
{
    old(stream).law_samples_are_conserved();
    if result is Ok {
        let channels = choose|channels: u16| #[trigger]
            call_ensures(S::channels, (&old(stream).inner(),), channels) && final(stream).base()
                == super::buffer::seek_base(frame, old(stream).written(), channels);
        if channels > 0 {
            let consumed = old(stream).written();
            let width = frame_width(channels);
            assert(0nat % width == 0 && 0nat / width == 0) by (nonlinear_arith)
                requires
                    width > 0,
            ;
            lemma_mod_bound(consumed as int, width as int);
            law_position_is_continuous_across_seek(frame, consumed, channels, 0);
        }
        assert(call_ensures(S::channels, (&old(stream).inner(),), channels));
    }
}

/// A buffered stream has ended once its inner stream has and nothing is queued.
pub proof fn law_end_comes_behind_the_queue<T: Copy + Default, S: AudioStream<T>>(
    stream: BufferedAudioStream<T, S>,
    eof: bool,
)
    requires
        stream.wf(),
        call_ensures(BufferedAudioStream::<T, S>::is_eof, (&stream,), eof),
    ensures
        stream.queue().len() > 0 ==> !eof,
        eof ==> call_ensures(S::is_eof, (&stream.inner(),), true),
        stream.queue().len() == 0 && !eof ==> call_ensures(S::is_eof, (&stream.inner(),), false),
{
}

/// A buffer of a duration holds as many samples as that much audio has, rounded
/// down once, whatever the split into seconds and nanoseconds; it cannot be made
/// where that is nothing or more than can be counted.
pub proof fn law_capacity_is_the_duration(
    sample_rate: u32,
    channels: u16,
    seconds: u64,
    nanoseconds: u32,
    capacity: Result<usize, BufferError>,
)
    requires
        call_ensures(
            buffer_capacity_of,
            (sample_rate, channels, seconds, nanoseconds),
            capacity,
        ),
    ensures
        capacity is Ok ==> capacity->Ok_0 > 0 && capacity->Ok_0 as int == (sample_rate * channels
            * (seconds * 1_000_000_000 + nanoseconds)) / 1_000_000_000,
        capacity is Err ==> {
            ||| (sample_rate * channels * (seconds * 1_000_000_000 + nanoseconds)) / 1_000_000_000
                == 0
            ||| sample_rate * channels > usize::MAX
            ||| seconds > usize::MAX
            ||| sample_rate * channels * seconds > usize::MAX
            ||| sample_rate * channels * nanoseconds > usize::MAX
            ||| (sample_rate * channels * (seconds * 1_000_000_000 + nanoseconds)) / 1_000_000_000
                > usize::MAX
        },
{
    let per_second = sample_rate * channels;
    let whole = per_second * seconds;
    let scaled = per_second * nanoseconds;
    let total = per_second * (seconds * 1_000_000_000 + nanoseconds);
    assert(total == whole * 1_000_000_000 + scaled && scaled >= 0 && whole >= 0)
        by (nonlinear_arith)
        requires
            per_second >= 0,
            whole == per_second * seconds,
            scaled == per_second * nanoseconds,
            total == per_second * (seconds * 1_000_000_000 + nanoseconds),
    ;
    assert(per_second >= 0) by (nonlinear_arith)
        requires
            per_second == sample_rate * channels,
    ;
    lemma_fundamental_div_mod(scaled, 1_000_000_000);
    lemma_fundamental_div_mod_converse(
        total,
        1_000_000_000,
        whole + scaled / 1_000_000_000,
        scaled % 1_000_000_000,
    );
}

/// A duration is taken by its whole seconds and the nanoseconds behind them.
pub proof fn law_durations_are_taken_whole(
    sample_rate: u32,
    channels: u16,
    duration: Duration,
    capacity: Result<usize, BufferError>,
    split: Result<usize, BufferError>,
)
    requires
        call_ensures(buffer_capacity, (sample_rate, channels, duration), capacity),
        call_ensures(
            buffer_capacity_of,
            (sample_rate, channels, whole_seconds(duration), nanoseconds_part(duration)),
            split,
        ),
    ensures
        capacity == split,
{
}

/// A refill that is asked for is made: while a handle is left, the next step after
/// a notification is to fill all groups that are registered, in their order, and
/// after it the worker waits until it is notified again.
pub proof fn law_notifications_are_served<G: Clone>(
    handle: WorkerHandle,
    registry: &mut WorkerState<G>,
    wake: Wake,
    served: &mut WorkerState<G>,
    step: WorkerStep<G>,
    waiting: &mut WorkerState<G>,
    next: WorkerStep<G>,
)
    requires
        old(registry).wf(),
        old(registry).handles() > 0,
        call_ensures(WorkerHandle::notify::<G>, (&handle, registry), wake),
        *old(served) == *final(registry),
        call_ensures(WorkerState::<G>::next_step, (served,), step),
        *old(waiting) == *final(served),
        call_ensures(WorkerState::<G>::next_step, (waiting,), next),
    ensures
        wake == Wake::One,
        step is Fill,
        step->Fill_0@.len() == old(registry).groups().len(),
        forall|i: int|
            0 <= i < old(registry).groups().len() ==> cloned::<G>(
                (#[trigger] old(registry).groups()[i]).resources,
                step->Fill_0@[i],
            ),
        next is Wait,
        final(waiting).groups() == old(registry).groups(),
        final(waiting).handles() == old(registry).handles(),
{
}

/// The worker lives exactly while a handle is left: the first one spawns it, the
/// last one that is given back wakes it, and then it leaves.
pub proof fn law_worker_lives_while_handles_are_left<G: Clone>(
    registry: &mut WorkerState<G>,
    acquired: Acquired,
    released: &mut WorkerState<G>,
    wake: Wake,
    left: &mut WorkerState<G>,
    step: WorkerStep<G>,
)
    requires
        old(registry).wf(),
        old(registry).handles() < usize::MAX,
        call_ensures(acquire_worker_handle::<G>, (registry,), acquired),
        *old(released) == *final(registry),
        call_ensures(WorkerHandle::release::<G>, (acquired.handle, released), wake),
        *old(left) == *final(released),
        call_ensures(WorkerState::<G>::next_step, (left,), step),
    ensures
        acquired.spawn <==> !old(registry).worker_runs(),
        final(registry).worker_runs(),
        final(registry).handles() == old(registry).handles() + 1,
        final(released).handles() == old(registry).handles(),
        wake == Wake::Everybody <==> old(registry).handles() == 0,
        wake == Wake::Nobody <==> old(registry).handles() > 0,
        step is Exit <==> old(registry).handles() == 0,
        step is Exit ==> !final(left).worker_runs() && !final(left).refill_pending(),
{
}

/// A group that is registered is filled from then on, behind those that were there;
/// one that is removed is not, and no other is affected.
pub proof fn law_groups_come_and_go<G>(
    handle: WorkerHandle,
    registry: &mut WorkerState<G>,
    resources: G,
    added: (u64, Wake),
    reduced: &mut WorkerState<G>,
    id: u64,
    group: BufferGroup<G>,
)
    requires
        old(registry).wf(),
        old(registry).next_group() < u64::MAX,
        call_ensures(WorkerHandle::add_buffer_group::<G>, (&handle, registry, resources), added),
        *old(reduced) == *final(registry),
        call_ensures(WorkerHandle::remove_buffer_group::<G>, (&handle, reduced, id), ()),
    ensures
        added.1 == Wake::One,
        final(registry).refill_pending(),
        final(registry).groups().len() == old(registry).groups().len() + 1,
        final(registry).groups().last() == (BufferGroup { id: added.0, resources }),
        forall|i: int|
            0 <= i < old(registry).groups().len() ==> #[trigger] final(registry).groups()[i]
                == old(registry).groups()[i],
        final(reduced).groups().contains(group) <==> final(registry).groups().contains(group)
            && group.id != id,
{
    lemma_groups_left(final(registry).groups(), id, group);
}

proof fn lemma_groups_left<G>(groups: Seq<BufferGroup<G>>, id: u64, group: BufferGroup<G>)
    ensures
        groups_without(groups, id).contains(group) <==> groups.contains(group) && group.id != id,
    decreases groups.len(),
{
    reveal(Seq::filter);
    let kept = groups_without(groups, id);
    if groups.len() > 0 {
        let rest = groups.drop_last();
        let left = groups_without(rest, id);
        lemma_groups_left(rest, id, group);
        if groups.contains(group) && group.id != id {
            let i = choose|i: int| 0 <= i < groups.len() && groups[i] == group;
            if i < rest.len() {
                assert(rest[i] == group);
                let j = choose|j: int| 0 <= j < left.len() && left[j] == group;
                assert(kept[j] == group);
            } else {
                assert(kept.last() == group);
            }
        }
        if kept.contains(group) {
            let j = choose|j: int| 0 <= j < kept.len() && kept[j] == group;
            if j < left.len() {
                assert(left[j] == group);
                let i = choose|i: int| 0 <= i < rest.len() && rest[i] == group;
                assert(groups[i] == group);
            } else {
                assert(groups.last() == group);
            }
        }
    }
}

/// The position that is told is that of the last seek, plus a frame for every full
/// set of samples consumed since creation, one for each channel.
pub proof fn law_positions_count_frames<T: Copy + Default, S: AudioStream<T>>(
    stream: BufferedAudioStream<T, S>,
    channels: u16,
    position: u64,
)
    requires
        channels > 0,
        call_ensures(
            BufferedAudioStream::<T, S>::position_for,
            (&stream, channels),
            position,
        ),
        stream.base() + stream.consumed() <= u64::MAX,
    ensures
        position >= stream.base(),
        (position - stream.base()) * channels <= stream.consumed() < (position - stream.base() + 1)
            * channels,
{
    let consumed = stream.consumed() as int;
    let width = channels as int;
    let frames = consumed / width;
    lemma_fundamental_div_mod(consumed, width);
    lemma_mod_bound(consumed, width);
    assert(0 <= frames <= consumed && frames * width <= consumed < (frames + 1) * width)
        by (nonlinear_arith)
        requires
            width >= 1,
            consumed >= 0,
            frames == consumed / width,
            consumed == width * frames + consumed % width,
            0 <= consumed % width < width,
    ;
    assert(position == stream.base() + frames);
}

/// The position is told for the channels of the inner stream.
pub proof fn law_positions_are_of_the_inner_stream<T: Copy + Default, S: AudioStream<T>>(
    stream: BufferedAudioStream<T, S>,
    position: u64,
)
    requires
        call_ensures(BufferedAudioStream::<T, S>::consumed_frames, (&stream,), position),
        stream.base() + stream.consumed() <= u64::MAX,
    ensures
        exists|channels: u16|
            #[trigger] call_ensures(S::channels, (&stream.inner(),), channels) && (channels > 0
                ==> (position - stream.base()) * channels <= stream.consumed() < (position
                - stream.base() + 1) * channels),
{
    let channels = choose|channels: u16| #[trigger]
        call_ensures(S::channels, (&stream.inner(),), channels) && position
            == super::buffer::stream_position(stream.base(), stream.consumed(), channels);
    if channels > 0 {
        let consumed = stream.consumed() as int;
        let width = channels as int;
        let frames = consumed / width;
        lemma_fundamental_div_mod(consumed, width);
        lemma_mod_bound(consumed, width);
        assert(0 <= frames <= consumed && frames * width <= consumed < (frames + 1) * width)
            by (nonlinear_arith)
            requires
                width >= 1,
                consumed >= 0,
                frames == consumed / width,
                consumed == width * frames + consumed % width,
                0 <= consumed % width < width,
        ;
        assert(position == stream.base() + frames);
    }
    assert(call_ensures(S::channels, (&stream.inner(),), channels));
}

/// A new stream has the capacity of its duration at the rate and with the channels
/// of its inner stream; nothing is queued and its position is the beginning.
pub proof fn law_new_streams_are_empty<T: Copy + Default, S: AudioStream<T>>(
    inner: S,
    duration: Duration,
    result: Result<BufferedAudioStream<T, S>, BufferError>,
)
    requires
        call_ensures(BufferedAudioStream::<T, S>::new, (inner, duration), result),
    ensures
        exists|rate: u32, channels: u16|
            #[trigger] call_ensures(S::sample_rate, (&inner,), rate) && #[trigger] call_ensures(
                S::channels,
                (&inner,),
                channels,
            ) && (result is Ok ==> {
                &&& result->Ok_0.capacity() > 0
                &&& result->Ok_0.capacity() == (rate * channels * (whole_seconds(duration)
                    * 1_000_000_000 + nanoseconds_part(duration))) / 1_000_000_000
            }),
        result is Ok ==> {
            &&& result->Ok_0.wf()
            &&& result->Ok_0.inner() == inner
            &&& result->Ok_0.queue().len() == 0
            &&& result->Ok_0.consumed() == 0
            &&& result->Ok_0.base() == 0
        },
{
    let (rate, channels) = choose|rate: u32, channels: u16| #[trigger]
        call_ensures(S::sample_rate, (&inner,), rate) && #[trigger] call_ensures(
            S::channels,
            (&inner,),
            channels,
        ) && match super::buffer::capacity_of(
            rate,
            channels,
            whole_seconds(duration),
            nanoseconds_part(duration),
        ) {
            Ok(capacity) => match result {
                Ok(new) => {
                    &&& new.wf()
                    &&& new.inner() == inner
                    &&& new.capacity() == capacity
                    &&& new.queue() == Seq::<T>::empty()
                    &&& new.consumed() == 0
                    &&& new.written() == 0
                    &&& new.base() == 0
                    &&& !new.wake_pending()
                    &&& new.seeks() == 0
                },
                Err(_) => false,
            },
            Err(error) => result == Err::<BufferedAudioStream<T, S>, BufferError>(error),
        };
    lemma_capacity_is_the_duration(
        rate,
        channels,
        whole_seconds(duration),
        nanoseconds_part(duration),
    );
}

proof fn lemma_capacity_is_the_duration(
    sample_rate: u32,
    channels: u16,
    seconds: u64,
    nanoseconds: u32,
)
    ensures
        match super::buffer::capacity_of(sample_rate, channels, seconds, nanoseconds) {
            Ok(capacity) => capacity > 0 && capacity as int == (sample_rate * channels * (seconds
                * 1_000_000_000 + nanoseconds)) / 1_000_000_000,
            Err(_) => true,
        },
{
    let per_second = sample_rate * channels;
    let whole = per_second * seconds;
    let scaled = per_second * nanoseconds;
    let total = per_second * (seconds * 1_000_000_000 + nanoseconds);
    assert(per_second >= 0) by (nonlinear_arith)
        requires
            per_second == sample_rate * channels,
    ;
    assert(total == whole * 1_000_000_000 + scaled && scaled >= 0 && whole >= 0)
        by (nonlinear_arith)
        requires
            per_second >= 0,
            whole == per_second * seconds,
            scaled == per_second * nanoseconds,
            total == per_second * (seconds * 1_000_000_000 + nanoseconds),
    ;
    lemma_fundamental_div_mod(scaled, 1_000_000_000);
    lemma_fundamental_div_mod_converse(
        total,
        1_000_000_000,
        whole + scaled / 1_000_000_000,
        scaled % 1_000_000_000,
    );
}

/// A round says that something is left to do exactly where some buffer was not full,
/// is below sixty of a hundred parts and has a stream that says it has not ended, and
/// that something came exactly where some queue grew.
pub proof fn law_rounds_tell_what_is_left<T: Copy + Default, S: AudioStream<T>>(
    streams: &mut Vec<BufferedAudioStream<T, S>>,
    temp: &mut Vec<T>,
    round: FillRound,
)
    requires
        super::worker::fillable(old(streams)@),
        call_ensures(fill_round::<T, S>, (streams, temp), round),
    ensures
        final(streams)@.len() == old(streams)@.len(),
        !round.all_settled ==> exists|i: int|
            0 <= i < old(streams)@.len() && (#[trigger] old(streams)@[i]).queue().len() < old(streams)@[i].capacity()
                && 100 * (#[trigger] final(streams)@[i]).queue().len() < 60
                * final(streams)@[i].capacity() && call_ensures(
                S::is_eof,
                (&final(streams)@[i].inner(),),
                false,
            ),
        round.all_settled ==> forall|i: int|
            0 <= i < final(streams)@.len() ==> 100 * (#[trigger] final(streams)@[i]).queue().len()
                >= 60 * final(streams)@[i].capacity() || call_ensures(
                S::is_eof,
                (&final(streams)@[i].inner(),),
                true,
            ),
        round.made_progress <==> exists|i: int|
            0 <= i < old(streams)@.len() && (#[trigger] old(streams)@[i]).queue().len() < (
            #[trigger] final(streams)@[i]).queue().len(),
{
    if !round.all_settled {
        let i = choose|i: int|
            0 <= i < old(streams)@.len() && super::worker::unsettled(
                #[trigger] old(streams)@[i],
                #[trigger] final(streams)@[i],
            );
        old(streams)@[i].law_samples_are_conserved();
        assert(visited(old(streams)@[i], final(streams)@[i]));
        assert(final(streams)@[i].capacity() > 0);
    }
    if round.all_settled {
        assert forall|i: int| 0 <= i < final(streams)@.len() implies 100 * (
        #[trigger] final(streams)@[i]).queue().len() >= 60 * final(streams)@[i].capacity()
            || call_ensures(S::is_eof, (&final(streams)@[i].inner(),), true) by {
            assert(settled(final(streams)@[i]));
        }
    }
}

/// A pass ends with the round that has nothing left to do or in which nothing came.
pub proof fn law_last_round_is_told(round: FillRound, last: bool)
    requires
        call_ensures(FillRound::is_last, (&round,), last),
    ensures
        last <==> round.all_settled || !round.made_progress,
{
}

/// A request to wake the worker is taken once, and a full buffer more can be counted
/// where the counter has room for it.
pub proof fn law_wakes_are_taken_once<T: Copy + Default, S: AudioStream<T>>(
    stream: &mut BufferedAudioStream<T, S>,
    wake: bool,
    again: &mut BufferedAudioStream<T, S>,
    repeated: bool,
    headroom: bool,
)
    requires
        old(stream).wf(),
        call_ensures(BufferedAudioStream::<T, S>::take_wake, (stream,), wake),
        *old(again) == *final(stream),
        call_ensures(BufferedAudioStream::<T, S>::take_wake, (again,), repeated),
        call_ensures(BufferedAudioStream::<T, S>::has_headroom, (&*old(stream),), headroom),
    ensures
        wake == old(stream).wake_pending(),
        !repeated,
        final(again).queue() == old(stream).queue(),
        final(again).consumed() == old(stream).consumed(),
        headroom <==> old(stream).consumed() + old(stream).capacity() <= u64::MAX,
{
}

/// A handle whose worker could not be spawned is given back: nothing runs then.
pub proof fn law_failed_spawns_are_undone<G>(
    registry: &mut WorkerState<G>,
    acquired: Acquired,
    undone: &mut WorkerState<G>,
)
    requires
        old(registry).wf(),
        old(registry).handles() == 0,
        !old(registry).worker_runs(),
        call_ensures(acquire_worker_handle::<G>, (registry,), acquired),
        *old(undone) == *final(registry),
        call_ensures(super::worker::spawn_failed::<G>, (acquired.handle, undone), ()),
    ensures
        acquired.spawn,
        final(undone).handles() == 0,
        !final(undone).worker_runs(),
        final(undone).groups() == old(registry).groups(),
{
}

} // verus!
