use core::time::Duration;

use vstd::arithmetic::div_mod::{lemma_fundamental_div_mod, lemma_fundamental_div_mod_converse};
use vstd::prelude::*;

use super::ring::{below_watermark, deliverable, delivered, queue_after_read, AudioBuffer};
use crate::error::AudioError;
use crate::mixer::AudioStream;

verus! {

/// Why a ring buffer could not be sized.
#[derive(Clone, Copy, Debug, PartialEq, Eq, Structural)]
pub enum BufferError {
    FormatTooLarge,
    DurationTooLarge,
    CapacityTooLarge,
    NoSamples,
}

impl BufferError {
    /// The message that describes the failure.
    pub open spec fn spec_message(&self) -> Seq<char> {
        match self {
            BufferError::FormatTooLarge => "audio format is too large"@,
            BufferError::DurationTooLarge => "buffer duration is too large for this platform"@,
            BufferError::CapacityTooLarge => "buffer capacity is too large"@,
            BufferError::NoSamples => "buffer duration must contain at least one sample"@,
        }
    }

    pub fn message(&self) -> (text: &'static str)
        ensures
            text@ == self.spec_message(),
    {
        match self {
            BufferError::FormatTooLarge => "audio format is too large",
            BufferError::DurationTooLarge => "buffer duration is too large for this platform",
            BufferError::CapacityTooLarge => "buffer capacity is too large",
            BufferError::NoSamples => "buffer duration must contain at least one sample",
        }
    }
}

/// What `core::time::Duration::as_secs` returns.
pub uninterp spec fn whole_seconds(duration: Duration) -> u64;

/// What `core::time::Duration::subsec_nanos` returns.
pub uninterp spec fn nanoseconds_part(duration: Duration) -> u32;

/// `core::time::Duration::as_secs`: the number of whole seconds. What that
/// number is for a given duration is left to the name.
pub assume_specification[ Duration::as_secs ](duration: &Duration) -> (seconds: u64)
    ensures
        seconds == whole_seconds(*duration),
;

/// `core::time::Duration::subsec_nanos`: the part below one second, in
/// nanoseconds, always less than a billion.
pub assume_specification[ Duration::subsec_nanos ](duration: &Duration) -> (nanoseconds: u32)
    ensures
        nanoseconds == nanoseconds_part(*duration),
        nanoseconds < 1_000_000_000,
;

/// Samples that `seconds` and `nanoseconds` of audio hold, or why that many
/// cannot be buffered.
pub open spec fn capacity_of(
    sample_rate: u32,
    channels: u16,
    seconds: u64,
    nanoseconds: u32,
) -> Result<usize, BufferError> {
    let per_second = sample_rate * channels;
    let whole = per_second * seconds;
    let scaled = per_second * nanoseconds;
    let capacity = whole + scaled / 1_000_000_000;
    if per_second > usize::MAX {
        Err(BufferError::FormatTooLarge)
    } else if seconds > usize::MAX {
        Err(BufferError::DurationTooLarge)
    } else if whole > usize::MAX || scaled > usize::MAX || capacity > usize::MAX {
        Err(BufferError::CapacityTooLarge)
    } else if capacity == 0 {
        Err(BufferError::NoSamples)
    } else {
        Ok(capacity as usize)
    }
}

/// Size of a ring buffer that holds `seconds` plus `nanoseconds` of audio.
pub fn buffer_capacity_of(
    sample_rate: u32,
    channels: u16,
    seconds: u64,
    nanoseconds: u32,
) -> (capacity: Result<usize, BufferError>)
    ensures
        capacity == capacity_of(sample_rate, channels, seconds, nanoseconds),
{
    let ghost rate = sample_rate as int;
    assert(rate * channels >= 0 && rate * channels * seconds >= 0 && rate * channels * nanoseconds
        >= 0) by (nonlinear_arith)
        requires
            rate >= 0,
    ;
    assert(nanoseconds <= usize::MAX);
    let per_second = match (sample_rate as usize).checked_mul(channels as usize) {
        Some(value) => value,
        None => return Err(BufferError::FormatTooLarge),
    };
    if seconds > usize::MAX as u64 {
        return Err(BufferError::DurationTooLarge);
    }
    let whole = match per_second.checked_mul(seconds as usize) {
        Some(value) => value,
        None => return Err(BufferError::CapacityTooLarge),
    };
    let scaled = match per_second.checked_mul(nanoseconds as usize) {
        Some(value) => value,
        None => return Err(BufferError::CapacityTooLarge),
    };
    let capacity = match whole.checked_add(scaled / 1_000_000_000) {
        Some(value) => value,
        None => return Err(BufferError::CapacityTooLarge),
    };
    if capacity == 0 {
        return Err(BufferError::NoSamples);
    }
    Ok(capacity)
}

/// Size of a ring buffer that holds `duration` of audio.
pub fn buffer_capacity(sample_rate: u32, channels: u16, duration: Duration) -> (capacity: Result<
    usize,
    BufferError,
>)
    ensures
        capacity == capacity_of(
            sample_rate,
            channels,
            whole_seconds(duration),
            nanoseconds_part(duration),
        ),
{
    buffer_capacity_of(sample_rate, channels, duration.as_secs(), duration.subsec_nanos())
}

/// `max(channels, 1)`: a stream that reports no channels counts as one.
pub open spec fn frame_width(channels: u16) -> nat {
    if channels == 0 {
        1
    } else {
        channels as nat
    }
}

/// Absolute frame that playback has reached: the seek base plus the frames
/// consumed since creation, modulo the range of the counter.
pub open spec fn stream_position(base: u64, consumed: nat, channels: u16) -> u64 {
    ((base + consumed / frame_width(channels)) % 0x1_0000_0000_0000_0000) as u64
}

/// The seek base that makes the position `frame` after `consumed` samples.
pub open spec fn seek_base(frame: u64, consumed: nat, channels: u16) -> u64 {
    ((frame - consumed / frame_width(channels)) % 0x1_0000_0000_0000_0000) as u64
}

/// Right after a seek the position is the frame that was asked for, however
/// much was consumed before. `samples` further samples move it by the whole frames
/// that they make up, as long as they complete no frame that was begun before.
pub proof fn law_position_is_continuous_across_seek(
    frame: u64,
    consumed: nat,
    channels: u16,
    samples: nat,
)
    requires
        frame + samples / frame_width(channels) <= u64::MAX,
        consumed % frame_width(channels) + samples % frame_width(channels) < frame_width(channels),
    ensures
        stream_position(seek_base(frame, consumed, channels), consumed, channels) == frame,
        stream_position(
            seek_base(frame, consumed, channels),
            consumed + samples,
            channels,
        ) == frame + samples / frame_width(channels),
{
    let width = frame_width(channels) as int;
    let done = consumed as int / width;
    let frames = samples as int / width;
    lemma_fundamental_div_mod(consumed as int, width);
    lemma_fundamental_div_mod(samples as int, width);
    let rest = consumed as int % width + samples as int % width;
    assert(consumed + samples == (done + frames) * width + rest) by (nonlinear_arith)
        requires
            consumed == width * done + consumed as int % width,
            samples == width * frames + samples as int % width,
            rest == consumed as int % width + samples as int % width,
    ;
    lemma_fundamental_div_mod_converse((consumed + samples) as int, width, done + frames, rest);
    let range = 0x1_0000_0000_0000_0000int;
    let base = (frame - done) % range;
    assert((base + done) % range == frame as int) by (nonlinear_arith)
        requires
            base == (frame - done) % range,
            range == 0x1_0000_0000_0000_0000int,
            0 <= frame < range,
    ;
    assert((base + (done + frames)) % range == frame + frames) by (nonlinear_arith)
        requires
            base == (frame - done) % range,
            range == 0x1_0000_0000_0000_0000int,
            0 <= frame + frames < range,
    ;
}

/// What one visit of the worker did for a stream.
#[derive(Clone, Copy, Debug, PartialEq, Eq, Structural)]
pub struct GroupFill {
    /// Samples that the inner stream said it provided.
    pub samples_read: usize,
    /// Whether the stream needs no further visit: it has ended, or its buffer
    /// is not below the watermark.
    pub settled: bool,
}

/// How much to read ahead.
#[derive(Clone, Copy, Debug, PartialEq, Eq, Structural)]
pub struct RefillPlan {
    /// Samples that fit.
    pub samples: usize,
    /// Whole frames of them, to ask the inner stream for.
    pub frames: u64,
    /// Seeks that were counted when the plan was made.
    pub seeks: u64,
}

/// The count of seeks after `count` further ones, modulo the range of the
/// counter.
pub open spec fn seeks_after(seeks: u64, count: nat) -> u64 {
    ((seeks + count) % 0x1_0000_0000_0000_0000) as u64
}

/// A stream wrapper that maintains a bounded ring buffer filled ahead of time.
///
/// The consumer reads from the ring buffer while the worker keeps it above the
/// watermark by reading ahead from `inner`.
pub struct BufferedAudioStream<T, S> {
    inner: S,
    buffer: AudioBuffer<T>,
    /// Seek base: the position is this plus the frames consumed so far. A seek
    /// moves the base and leaves the consumer's counter alone, so the position
    /// stays continuous.
    consumed_base_frames: u64,
    /// Whether the worker is to be woken.
    wake_worker: bool,
    /// Counts successful seeks, so that samples of an older position can be told.
    seeks: u64,
}

impl<T, S> BufferedAudioStream<T, S> {
    pub closed spec fn inner(&self) -> S {
        self.inner
    }

    /// Samples read ahead, oldest first.
    pub closed spec fn queue(&self) -> Seq<T> {
        self.buffer@
    }

    pub closed spec fn capacity(&self) -> nat {
        self.buffer.capacity()
    }

    /// Samples delivered or discarded since creation.
    pub closed spec fn consumed(&self) -> nat {
        self.buffer.consumed()
    }

    /// Samples read ahead since creation.
    pub closed spec fn written(&self) -> nat {
        self.buffer.written()
    }

    pub closed spec fn base(&self) -> u64 {
        self.consumed_base_frames
    }

    /// Whether a request to wake the worker is waiting to be taken.
    pub closed spec fn wake_pending(&self) -> bool {
        self.wake_worker
    }

    /// Successful seeks, modulo the range of the counter.
    pub closed spec fn seeks(&self) -> u64 {
        self.seeks
    }

    /// Whether samples that were read for `plan` are taken in: the stream was not
    /// sought since it was made.
    pub open spec fn accepts(&self, plan: RefillPlan) -> bool {
        plan.seeks == self.seeks()
    }

    pub closed spec fn wf(&self) -> bool {
        self.buffer.wf()
    }

    /// What was read ahead before a seek is never queued after it: where a plan
    /// was made for `planned`, and the stream was sought any number of times since
    /// that the counter can tell apart, what is read for the plan is not taken in.
    pub proof fn law_seeking_outdates_plans(
        &self,
        planned: &Self,
        plan: RefillPlan,
        count: nat,
    )
        requires
            planned.accepts(plan),
            0 < count <= u64::MAX,
            self.seeks() == seeks_after(planned.seeks(), count),
        ensures
            !self.accepts(plan),
    {
    }

    /// What every buffered stream keeps: no more is queued than fits, and
    /// every sample read ahead is queued, delivered or discarded.
    pub proof fn law_samples_are_conserved(&self)
        requires
            self.wf(),
        ensures
            self.queue().len() <= self.capacity() <= usize::MAX,
            self.written() == self.consumed() + self.queue().len(),
    {
        self.buffer.law_samples_are_conserved();
    }

    /// The inner stream and the capacity are as in `other`.
    pub open spec fn same_setup(&self, other: &Self) -> bool {
        &&& self.inner() == other.inner()
        &&& self.capacity() == other.capacity()
    }
}

/// How many of `count` samples fit behind `queued` others.
pub open spec fn fitting(capacity: nat, queued: nat, count: nat) -> nat {
    if count < capacity - queued {
        count
    } else {
        (capacity - queued) as nat
    }
}

/// The samples that a visit of the worker leaves behind `queue`, where the
/// inner stream was asked for the `free` samples that fit, answered `count`
/// and left `provided` in the buffer it was given.
pub open spec fn queue_after_refill<T>(
    queue: Seq<T>,
    free: nat,
    provided: Seq<T>,
    count: usize,
) -> Seq<T> {
    queue + provided.take(if count < free {
        count as int
    } else {
        free as int
    })
}

/// What changes the queue of a stream between two seeks.
pub enum QueueEvent<T> {
    /// The consumer asks for a number of samples.
    Read { count: nat },
    /// The worker hands over what was read for a plan.
    Refill { plan: RefillPlan, samples: Seq<T>, samples_read: usize },
}

/// The queue after `events`, from a seek on that brought the count to `seeks`.
pub open spec fn queue_since_seek<T>(
    capacity: nat,
    seeks: u64,
    events: Seq<QueueEvent<T>>,
) -> Seq<T>
    decreases events.len(),
{
    if events.len() == 0 {
        Seq::empty()
    } else {
        let queue = queue_since_seek(capacity, seeks, events.drop_last());
        match events.last() {
            QueueEvent::Read { count } => queue_after_read(queue, count),
            QueueEvent::Refill { plan, samples, samples_read } => if plan.seeks == seeks {
                queue_after_refill(
                    queue,
                    fitting(capacity, queue.len(), samples.len()),
                    samples,
                    samples_read,
                )
            } else {
                queue
            },
        }
    }
}

/// Whether an event hands over `sample`, read for a plan that was made since the
/// seek which brought the count to `seeks`.
pub open spec fn hands_over<T>(event: QueueEvent<T>, seeks: u64, sample: T) -> bool {
    match event {
        QueueEvent::Read { .. } => false,
        QueueEvent::Refill { plan, samples, .. } => plan.seeks == seeks && samples.contains(sample),
    }
}

/// No stale sample is published after a seek: whatever the consumer and the
/// worker do, every sample that is queued then was read for a plan that was made
/// since the seek.
pub proof fn law_samples_after_a_seek_are_fresh<T>(
    capacity: nat,
    seeks: u64,
    events: Seq<QueueEvent<T>>,
    index: int,
)
    requires
        0 <= index < queue_since_seek(capacity, seeks, events).len(),
    ensures
        queue_since_seek(capacity, seeks, events).len() <= capacity,
        exists|i: int|
            0 <= i < events.len() && hands_over(
                #[trigger] events[i],
                seeks,
                queue_since_seek(capacity, seeks, events)[index],
            ),
    decreases events.len(),
{
    let rest = events.drop_last();
    let last = events.len() - 1;
    let queue = queue_since_seek(capacity, seeks, rest);
    let sample = queue_since_seek(capacity, seeks, events)[index];
    lemma_queue_since_seek_fits(capacity, seeks, rest);
    lemma_queue_since_seek_fits(capacity, seeks, events);
    let origin = match events.last() {
        QueueEvent::Read { count } => index + deliverable(queue.len(), count),
        QueueEvent::Refill { .. } => index,
    };
    if origin < queue.len() {
        law_samples_after_a_seek_are_fresh(capacity, seeks, rest, origin);
        assert(queue[origin] == sample);
        let i = choose|i: int| 0 <= i < rest.len() && hands_over(#[trigger] rest[i], seeks, sample);
        assert(hands_over(events[i], seeks, sample));
    } else {
        assert(hands_over(events[last], seeks, sample)) by {
            match events.last() {
                QueueEvent::Read { count } => {},
                QueueEvent::Refill { plan, samples, samples_read } => {
                    assert(samples[index - queue.len()] == sample);
                },
            }
        }
    }
}

proof fn lemma_queue_since_seek_fits<T>(capacity: nat, seeks: u64, events: Seq<QueueEvent<T>>)
    ensures
        queue_since_seek(capacity, seeks, events).len() <= capacity,
    decreases events.len(),
{
    if events.len() > 0 {
        lemma_queue_since_seek_fits(capacity, seeks, events.drop_last());
    }
}

/// A visit of the worker turned the queue of `stream` into `queue`: the inner
/// stream was asked for as many whole frames as fit, given a buffer of all the
/// free samples, and answered `count`.
pub open spec fn refilled<T, S: AudioStream<T>>(
    stream: BufferedAudioStream<T, S>,
    queue: Seq<T>,
    channels: u16,
    before: Seq<T>,
    provided: Seq<T>,
    count: usize,
) -> bool {
    let free = (stream.capacity() - stream.queue().len()) as nat;
    &&& call_ensures(S::channels, (&stream.inner(),), channels)
    &&& before.len() == free
    &&& provided.len() == free
    &&& stream.inner().provides((free / frame_width(channels)) as u64, before, provided, count)
    &&& queue == queue_after_refill(stream.queue(), free, provided, count)
}

impl<T: Copy + Default, S: AudioStream<T>> BufferedAudioStream<T, S> {
    /// Wrap `inner` with a ring buffer of `buffer_duration`.
    pub fn new(inner: S, buffer_duration: Duration) -> (stream: Result<Self, BufferError>)
        ensures
            exists|rate: u32, channels: u16| #[trigger]
                call_ensures(S::sample_rate, (&inner,), rate) && #[trigger] call_ensures(
                    S::channels,
                    (&inner,),
                    channels,
                ) && match capacity_of(
                    rate,
                    channels,
                    whole_seconds(buffer_duration),
                    nanoseconds_part(buffer_duration),
                ) {
                    Ok(capacity) => match stream {
                        Ok(new) => {
                            &&& new.wf()
                            &&& new.inner() == inner
                            &&& new.capacity() == capacity
                            &&& new.queue() == Seq::<T>::empty()
                            &&& new.consumed() == 0
                            &&& new.written() == 0
                            &&& new.base() == 0
                            &&& !new.wake_pending()
                            &&& new.seeks() == 0
                        },
                        Err(_) => false,
                    },
                    Err(error) => stream == Err::<Self, BufferError>(error),
                },
    {
        let rate = inner.sample_rate();
        let channels = inner.channels();
        match buffer_capacity(rate, channels, buffer_duration) {
            Ok(capacity) => Ok(
                BufferedAudioStream {
                    inner,
                    buffer: AudioBuffer::new(capacity),
                    consumed_base_frames: 0,
                    wake_worker: false,
                    seeks: 0,
                },
            ),
            Err(error) => Err(error),
        }
    }

    /// Frames actually consumed, in stream time. An underrun does not advance
    /// this value, so a clock based on it waits for the audio.
    pub fn consumed_frames(&self) -> (frames: u64)
        ensures
            exists|channels: u16| #[trigger]
                call_ensures(S::channels, (&self.inner(),), channels) && frames
                    == stream_position(self.base(), self.consumed(), channels),
    {
        let channels = self.inner.channels();
        assert(call_ensures(S::channels, (&self.inner(),), channels));
        self.position_for(channels)
    }

    /// [`consumed_frames`](Self::consumed_frames) for a known channel count.
    pub fn position_for(&self, channels: u16) -> (frames: u64)
        ensures
            frames == stream_position(self.base(), self.consumed(), channels),
    {
        let width: u64 = if channels == 0 {
            1
        } else {
            channels as u64
        };
        self.consumed_base_frames.wrapping_add(self.buffer.total_consumed_samples() / width)
    }

    /// Read interleaved samples from the ring buffer.
    ///
    /// Samples that cannot be satisfied from the buffer are filled with
    /// silence. If after reading the fill level is below the watermark, the
    /// worker is to be woken to top up.
    ///
    /// Always writes exactly `buffer.len()` samples.
    pub fn read(&mut self, buffer: &mut [T], _frame_count: u64) -> (count: usize)
        requires
            old(self).wf(),
        ensures
            final(self).wf(),
            count == old(buffer)@.len(),
            final(buffer)@.len() == old(buffer)@.len(),
            final(buffer)@.take(deliverable(old(self).queue().len(), count as nat) as int)
                == delivered(old(self).queue(), count as nat),
            forall|i: int|
                deliverable(old(self).queue().len(), count as nat) <= i < count ==> call_ensures(
                    T::default,
                    (),
                    #[trigger] final(buffer)@[i],
                ),
            final(self).queue() == queue_after_read(old(self).queue(), count as nat),
            final(self).consumed() == old(self).consumed() + deliverable(
                old(self).queue().len(),
                count as nat,
            ),
            final(self).written() == old(self).written(),
            final(self).same_setup(old(self)),
            final(self).base() == old(self).base(),
            final(self).seeks() == old(self).seeks(),
            final(self).wake_pending() == (old(self).wake_pending() || below_watermark(
                final(self).queue().len(),
                final(self).capacity(),
            )),
    {
        let provided = self.buffer.read(buffer);
        let ghost head = buffer@;
        let total = buffer.len();
        let mut i = provided;
        while i < total
            invariant
                provided <= i <= total,
                buffer@.len() == total,
                head.len() == total,
                forall|j: int| 0 <= j < provided ==> buffer@[j] == #[trigger] head[j],
                forall|j: int|
                    provided <= j < i ==> call_ensures(T::default, (), #[trigger] buffer@[j]),
            decreases total - i,
        {
            buffer[i] = T::default();
            i = i + 1;
        }
        assert(buffer@.take(provided as int) =~= head.take(provided as int));
        assert(head.take(provided as int) =~= delivered(old(self).queue(), total as nat));
        if self.buffer.fill_level().is_below_watermark() {
            self.wake_worker = true;
        }
        total
    }

    /// Seek the inner stream to `frame` and discard buffered data so the
    /// worker refills from the new position.
    ///
    /// The consumer's counter is not reset: only the base of the position
    /// moves. Samples that were asked for before are not taken in afterwards.
    pub fn seek(&mut self, frame: u64) -> (result: Result<(), AudioError>)
        requires
            old(self).wf(),
        ensures
            final(self).wf(),
            call_ensures(S::seek, (&old(self).inner(), frame), result),
            final(self).same_setup(old(self)),
            final(self).written() == old(self).written(),
            match result {
                Ok(_) => {
                    &&& final(self).queue() == Seq::<T>::empty()
                    &&& final(self).consumed() == old(self).written()
                    &&& final(self).wake_pending()
                    &&& final(self).seeks() == seeks_after(old(self).seeks(), 1)
                    &&& exists|channels: u16| #[trigger]
                        call_ensures(S::channels, (&old(self).inner(),), channels)
                            && final(self).base() == seek_base(
                            frame,
                            old(self).written(),
                            channels,
                        )
                },
                Err(_) => *final(self) == *old(self),
            },
    {
        match self.inner.seek(frame) {
            Ok(done) => {
                let channels = self.inner.channels();
                self.inner_sought(frame, channels);
                Ok(done)
            },
            Err(error) => Err(error),
        }
    }

    /// Take in that the inner stream, which has the given number of channels, was
    /// sought to `frame`: discard buffered data and refill from the new position.
    pub fn inner_sought(&mut self, frame: u64, channels: u16)
        requires
            old(self).wf(),
        ensures
            final(self).wf(),
            final(self).same_setup(old(self)),
            final(self).written() == old(self).written(),
            final(self).queue() == Seq::<T>::empty(),
            final(self).consumed() == old(self).written(),
            final(self).wake_pending(),
            final(self).seeks() == seeks_after(old(self).seeks(), 1),
            final(self).base() == seek_base(frame, old(self).written(), channels),
    {
        self.buffer.discard_buffered_samples();
        let width: u64 = if channels == 0 {
            1
        } else {
            channels as u64
        };
        self.consumed_base_frames = frame.wrapping_sub(
            self.buffer.total_consumed_samples() / width,
        );
        self.wake_worker = true;
        self.seeks = self.seeks.wrapping_add(1);
    }

    /// `true` when the inner stream has ended and the ring buffer has been
    /// fully consumed.
    pub fn is_eof(&self) -> (eof: bool)
        requires
            self.wf(),
        ensures
            exists|ended: bool| #[trigger]
                call_ensures(S::is_eof, (&self.inner(),), ended) && eof == (ended
                    && self.queue().len() == 0),
    {
        let ended = self.inner.is_eof();
        assert(call_ensures(S::is_eof, (&self.inner(),), ended));
        ended && self.buffer.available() == 0
    }

    pub fn channels(&self) -> (channels: u16)
        ensures
            call_ensures(S::channels, (&self.inner(),), channels),
    {
        self.inner.channels()
    }

    pub fn sample_rate(&self) -> (rate: u32)
        ensures
            call_ensures(S::sample_rate, (&self.inner(),), rate),
    {
        self.inner.sample_rate()
    }

    /// Whether the worker is to be woken; taking the request clears it.
    pub fn take_wake(&mut self) -> (wake: bool)
        ensures
            wake == old(self).wake_pending(),
            !final(self).wake_pending(),
            final(self).wf() == old(self).wf(),
            final(self).same_setup(old(self)),
            final(self).queue() == old(self).queue(),
            final(self).consumed() == old(self).consumed(),
            final(self).written() == old(self).written(),
            final(self).base() == old(self).base(),
            final(self).seeks() == old(self).seeks(),
    {
        let wake = self.wake_worker;
        self.wake_worker = false;
        wake
    }

    /// Whether another full buffer of samples can be counted.
    pub fn has_headroom(&self) -> (headroom: bool)
        requires
            self.wf(),
        ensures
            headroom == (self.consumed() + self.capacity() <= u64::MAX),
    {
        let level = self.buffer.fill_level();
        let consumed = self.buffer.total_consumed_samples();
        consumed <= u64::MAX - level.capacity as u64
    }

    /// Plan a visit of the worker: how much to ask an inner stream with the given
    /// number of channels for. `None` where the buffer is full.
    pub fn plan_refill(&self, channels: u16) -> (plan: Option<RefillPlan>)
        requires
            self.wf(),
        ensures
            plan is None <==> self.queue().len() == self.capacity(),
            plan is Some ==> plan->0.samples == self.capacity() - self.queue().len(),
            plan is Some ==> plan->0.frames == (self.capacity() - self.queue().len()) as nat
                / frame_width(channels),
            plan is Some ==> self.accepts(plan->0),
    {
        let free = self.buffer.free_space();
        proof {
            self.buffer.law_samples_are_conserved();
        }
        if free == 0 {
            return None;
        }
        let width: u64 = if channels == 0 {
            1
        } else {
            channels as u64
        };
        Some(RefillPlan { samples: free, frames: (free as u64) / width, seeks: self.seeks })
    }

    /// Take in what the inner stream provided for a plan: it said that it provided
    /// `samples_read` of `samples`, and whether it has ended. What does not fit is
    /// dropped. `None` where the stream was sought since the plan was made: then
    /// the samples belong to another position, and nothing is taken in.
    pub fn accept_refill(
        &mut self,
        plan: RefillPlan,
        samples: &[T],
        samples_read: usize,
        ended: bool,
    ) -> (fill: Option<GroupFill>)
        requires
            old(self).wf(),
            old(self).consumed() + old(self).capacity() <= u64::MAX,
        ensures
            final(self).wf(),
            final(self).same_setup(old(self)),
            final(self).consumed() == old(self).consumed(),
            final(self).base() == old(self).base(),
            final(self).wake_pending() == old(self).wake_pending(),
            final(self).seeks() == old(self).seeks(),
            final(self).written() == old(self).written() + final(self).queue().len() - old(self).queue().len(),
            if old(self).accepts(plan) {
                &&& final(self).queue() == queue_after_refill(
                    old(self).queue(),
                    fitting(old(self).capacity(), old(self).queue().len(), samples@.len()),
                    samples@,
                    samples_read,
                )
                &&& fill == Some(
                    GroupFill {
                        samples_read,
                        settled: ended || !below_watermark(
                            final(self).queue().len(),
                            final(self).capacity(),
                        ),
                    },
                )
            } else {
                fill is None && final(self).queue() == old(self).queue()
            },
    {
        if plan.seeks != self.seeks {
            return None;
        }
        proof {
            self.buffer.law_samples_are_conserved();
        }
        let free = self.buffer.free_space();
        let fits: usize = if samples.len() < free {
            samples.len()
        } else {
            free
        };
        let usable: usize = if samples_read < fits {
            samples_read
        } else {
            fits
        };
        let (ready, _spare) = samples.split_at(usable);
        self.buffer.write(ready);
        assert(self.queue() =~= queue_after_refill(
            old(self).queue(),
            fits as nat,
            samples@,
            samples_read,
        ));
        let below = self.buffer.fill_level().is_below_watermark();
        Some(GroupFill { samples_read, settled: ended || !below })
    }

    /// Read ahead from the inner stream into the free part of the buffer.
    ///
    /// Returns `None` where the buffer is full. `temp` is scratch space that
    /// grows on demand.
    pub fn refill(&mut self, temp: &mut Vec<T>) -> (fill: Option<GroupFill>)
        requires
            old(self).wf(),
            old(self).consumed() + old(self).capacity() <= u64::MAX,
        ensures
            final(self).wf(),
            final(self).same_setup(old(self)),
            final(self).consumed() == old(self).consumed(),
            final(self).base() == old(self).base(),
            final(self).wake_pending() == old(self).wake_pending(),
            final(self).seeks() == old(self).seeks(),
            fill is None <==> old(self).queue().len() == old(self).capacity(),
            fill is None ==> final(self).queue() == old(self).queue(),
            fill is Some ==> exists|channels: u16, before: Seq<T>, provided: Seq<T>| #[trigger]
                refilled(
                    *old(self),
                    final(self).queue(),
                    channels,
                    before,
                    provided,
                    fill->0.samples_read,
                ),
            fill is Some ==> exists|ended: bool| #[trigger]
                call_ensures(S::is_eof, (&old(self).inner(),), ended) && fill->0.settled == (ended
                    || !below_watermark(final(self).queue().len(), final(self).capacity())),
            final(self).written() == old(self).written() + final(self).queue().len() - old(self).queue().len(),
    {
        let channels = self.inner.channels();
        let plan = match self.plan_refill(channels) {
            Some(plan) => plan,
            None => {
                return None;
            },
        };
        let free: usize = plan.samples;
        if free > temp.len() {
            temp.resize(free, T::default());
        }
        let (samples, _rest) = temp.as_mut_slice().split_at_mut(free);
        let ghost before = samples@;
        let samples_read = self.inner.read(samples, plan.frames);
        let ghost provided = samples@;
        let ended = self.inner.is_eof();
        let fill = self.accept_refill(plan, samples, samples_read, ended);
        let ghost queue = self.queue();
        assert(refilled(*old(self), queue, channels, before, provided, samples_read));
        assert(call_ensures(S::is_eof, (&old(self).inner(),), ended));
        assert(fill->0.samples_read == samples_read);
        fill
    }
}

} // verus!
