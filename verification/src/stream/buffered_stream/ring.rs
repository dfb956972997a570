//! The sample queue between a stream's reader and its consumer.

use vstd::arithmetic::div_mod::lemma_fundamental_div_mod;
use vstd::prelude::*;

verus! {

/// Percentage of the ring buffer that must be filled before the worker stops
/// topping up.
pub const BUFFER_WATERMARK_PERCENT: u8 = 60;

/// How many of `samples` a queue of `capacity` that holds `queued` takes.
pub open spec fn accepted(queued: nat, capacity: nat, samples: nat) -> nat {
    if samples <= capacity - queued {
        samples
    } else {
        (capacity - queued) as nat
    }
}

/// The queue after `samples` were offered to it.
pub open spec fn queue_after_write<T>(queue: Seq<T>, capacity: nat, samples: Seq<T>) -> Seq<T> {
    queue + samples.take(accepted(queue.len(), capacity, samples.len()) as int)
}

/// How many samples a request for `wanted` gets from a queue.
pub open spec fn deliverable(queued: nat, wanted: nat) -> nat {
    if wanted <= queued {
        wanted
    } else {
        queued
    }
}

/// What a request for `wanted` samples gets from `queue`.
pub open spec fn delivered<T>(queue: Seq<T>, wanted: nat) -> Seq<T> {
    queue.take(deliverable(queue.len(), wanted) as int)
}

/// The queue after a request for `wanted` samples.
pub open spec fn queue_after_read<T>(queue: Seq<T>, wanted: nat) -> Seq<T> {
    queue.skip(deliverable(queue.len(), wanted) as int)
}

/// Whether a queue of `capacity` that holds `queued` samples is below the
/// watermark. An empty buffer of no capacity is.
pub open spec fn below_watermark(queued: nat, capacity: nat) -> bool {
    capacity == 0 || 100 * queued < BUFFER_WATERMARK_PERCENT * capacity
}

/// Fill level as a fraction: `filled` of `capacity` samples.
#[derive(Clone, Copy, Debug, PartialEq, Eq, Structural)]
pub struct FillLevel {
    pub filled: usize,
    pub capacity: usize,
}

impl FillLevel {
    /// Whether the level is below [`BUFFER_WATERMARK_PERCENT`].
    pub fn is_below_watermark(&self) -> (below: bool)
        ensures
            below == below_watermark(self.filled as nat, self.capacity as nat),
    {
        self.capacity == 0 || 100 * (self.filled as u128) < (BUFFER_WATERMARK_PERCENT as u128) * (
        self.capacity as u128)
    }
}

/// A bounded first-in first-out queue of audio samples.
///
/// The producer calls [`write`](AudioBuffer::write) and the consumer calls
/// [`read`](AudioBuffer::read). Pointers are monotonically increasing; the
/// slot of a pointer is `ptr % capacity`.
pub struct AudioBuffer<T> {
    data: Vec<T>,
    read_ptr: u64,
    write_ptr: u64,
    discard_before: u64,
    capacity: usize,
}

impl<T> AudioBuffer<T> {
    /// Total number of samples the buffer can hold.
    pub closed spec fn capacity(&self) -> nat {
        self.capacity as nat
    }

    /// Samples accepted since creation.
    pub closed spec fn written(&self) -> nat {
        self.write_ptr as nat
    }

    /// Samples consumed or discarded since creation.
    pub closed spec fn consumed(&self) -> nat {
        self.effective_read()
    }

    spec fn effective_read(&self) -> nat {
        if self.read_ptr < self.discard_before {
            self.discard_before as nat
        } else {
            self.read_ptr as nat
        }
    }

    /// Every accepted sample is either consumed or queued, and no more are
    /// queued than fit.
    pub closed spec fn wf(&self) -> bool {
        &&& self.data@.len() == self.capacity
        &&& self.effective_read() <= self.write_ptr
        &&& self.write_ptr - self.effective_read() <= self.capacity
    }

    /// What every buffer keeps: the queue fits, and every sample accepted so
    /// far is either queued or gone.
    pub proof fn law_samples_are_conserved(&self)
        requires
            self.wf(),
        ensures
            self@.len() <= self.capacity() <= usize::MAX,
            self.written() == self.consumed() + self@.len(),
    {
    }
}

impl<T> View for AudioBuffer<T> {
    type V = Seq<T>;

    /// The queued samples, oldest first.
    closed spec fn view(&self) -> Seq<T> {
        Seq::new(
            (self.write_ptr - self.effective_read()) as nat,
            |k: int| self.data@[((self.effective_read() + k) % (self.capacity as int))],
        )
    }
}

/// Two pointers less than `capacity` apart never share a slot.
proof fn lemma_slots_differ(a: int, b: int, capacity: int)
    requires
        0 <= a < b < a + capacity,
    ensures
        a % capacity != b % capacity,
{
    lemma_fundamental_div_mod(a, capacity);
    lemma_fundamental_div_mod(b, capacity);
    if a % capacity == b % capacity {
        let qa = a / capacity;
        let qb = b / capacity;
        assert(b - a == capacity * (qb - qa)) by (nonlinear_arith)
            requires
                a == capacity * qa + a % capacity,
                b == capacity * qb + b % capacity,
                a % capacity == b % capacity,
        ;
        assert(false) by (nonlinear_arith)
            requires
                b - a == capacity * (qb - qa),
                0 < b - a < capacity,
        ;
    }
}

impl<T: Copy> AudioBuffer<T> {
    /// Create an empty ring buffer that holds `size` samples.
    pub fn new(size: usize) -> (buffer: Self) where T: Default
        ensures
            buffer.wf(),
            buffer.capacity() == size,
            buffer.written() == 0,
            buffer.consumed() == 0,
            buffer@ == Seq::<T>::empty(),
    {
        let mut data: Vec<T> = Vec::with_capacity(size);
        while data.len() < size
            invariant
                data@.len() <= size,
            decreases size - data@.len(),
        {
            data.push(T::default());
        }
        let buffer = AudioBuffer {
            data,
            read_ptr: 0,
            write_ptr: 0,
            discard_before: 0,
            capacity: size,
        };
        assert(buffer@ =~= Seq::<T>::empty());
        buffer
    }

    fn effective_read_ptr(&self) -> (ptr: u64)
        ensures
            ptr == self.consumed(),
    {
        if self.read_ptr < self.discard_before {
            self.discard_before
        } else {
            self.read_ptr
        }
    }

    /// Number of samples currently available to read.
    ///
    /// Samples that a discard request covers do not count, whether or not the
    /// consumer has caught up with the request.
    pub fn available(&self) -> (count: usize)
        requires
            self.wf(),
        ensures
            count == self@.len(),
    {
        (self.write_ptr - self.effective_read_ptr()) as usize
    }

    /// Number of sample slots that can still be written.
    pub fn free_space(&self) -> (count: usize)
        requires
            self.wf(),
        ensures
            count == self.capacity() - self@.len(),
    {
        self.capacity - self.available()
    }

    /// Fill level as a fraction between zero and one.
    pub fn fill_level(&self) -> (level: FillLevel)
        requires
            self.wf(),
        ensures
            level.filled == self@.len(),
            level.capacity == self.capacity(),
            level.filled <= level.capacity,
    {
        FillLevel { filled: self.available(), capacity: self.capacity }
    }

    /// Total samples consumed since creation.
    ///
    /// A seek does not reset this counter: callers combine it with their own
    /// seek base to obtain an absolute stream position.
    pub fn total_consumed_samples(&self) -> (count: u64)
        ensures
            count == self.consumed(),
    {
        self.effective_read_ptr()
    }

    /// Append samples. Returns the number of samples taken, which is less than
    /// `samples.len()` where the buffer is nearly full.
    pub fn write(&mut self, samples: &[T]) -> (count: usize)
        requires
            old(self).wf(),
            old(self).written() + samples@.len() <= u64::MAX,
        ensures
            final(self).wf(),
            count == accepted(old(self)@.len(), old(self).capacity(), samples@.len()),
            final(self)@ == queue_after_write(old(self)@, old(self).capacity(), samples@),
            final(self).capacity() == old(self).capacity(),
            final(self).consumed() == old(self).consumed(),
            final(self).written() == old(self).written() + count,
    {
        let free = self.free_space();
        let count: usize = if samples.len() < free {
            samples.len()
        } else {
            free
        };
        if count == 0 {
            assert(self@ =~= queue_after_write(old(self)@, old(self).capacity(), samples@));
            return 0;
        }
        let capacity = self.capacity;
        let start = self.write_ptr;
        let ghost read = self.effective_read() as int;
        let ghost queue = self@;
        let mut k: usize = 0;
        while k < count
            invariant
                k <= count <= samples@.len(),
                capacity > 0,
                self.capacity == capacity,
                self.data@.len() == capacity,
                self.write_ptr == start,
                self.read_ptr == old(self).read_ptr,
                self.discard_before == old(self).discard_before,
                self.effective_read() == read,
                start + samples@.len() <= u64::MAX,
                read <= start,
                start - read == queue.len(),
                queue.len() + count <= capacity,
                forall|j: int|
                    0 <= j < queue.len() ==> self.data@[(read + j) % (capacity as int)]
                        == #[trigger] queue[j],
                forall|j: int|
                    0 <= j < k ==> self.data@[(start + j) % (capacity as int)]
                        == #[trigger] samples@[j],
            decreases count - k,
        {
            let slot = ((start + k as u64) % (capacity as u64)) as usize;
            let ghost before = self.data@;
            self.data[slot] = samples[k];
            proof {
                assert forall|j: int| 0 <= j < queue.len() implies self.data@[(read + j) % (
                capacity as int)] == #[trigger] queue[j] by {
                    lemma_slots_differ(read + j, start + k, capacity as int);
                    assert(before[(read + j) % (capacity as int)] == queue[j]);
                }
                assert forall|j: int| 0 <= j < k + 1 implies self.data@[(start + j) % (
                capacity as int)] == #[trigger] samples@[j] by {
                    if j < k {
                        lemma_slots_differ(start + j, start + k, capacity as int);
                        assert(before[(start + j) % (capacity as int)] == samples@[j]);
                    }
                }
            }
            k = k + 1;
        }
        self.write_ptr = start + count as u64;
        proof {
            let expected = queue_after_write(queue, old(self).capacity(), samples@);
            assert(self@.len() == expected.len());
            assert forall|i: int| 0 <= i < expected.len() implies self@[i] == expected[i] by {
                if i < queue.len() {
                    assert(queue[i] == expected[i]);
                } else {
                    let j = i - queue.len();
                    assert(samples@[j] == expected[i]);
                    assert(read + i == start + j);
                }
            }
            assert(self@ =~= expected);
        }
        count
    }

    /// Move samples out into the front of `buffer`. Returns the number of
    /// samples copied, which is less than `buffer.len()` where not enough are
    /// available; the rest of `buffer` is left alone.
    pub fn read(&mut self, buffer: &mut [T]) -> (count: usize)
        requires
            old(self).wf(),
        ensures
            final(self).wf(),
            count == deliverable(old(self)@.len(), old(buffer)@.len()),
            final(buffer)@ == delivered(old(self)@, old(buffer)@.len()) + old(buffer)@.skip(
                count as int,
            ),
            final(self)@ == queue_after_read(old(self)@, old(buffer)@.len()),
            final(self).capacity() == old(self).capacity(),
            final(self).consumed() == old(self).consumed() + count,
            final(self).written() == old(self).written(),
    {
        let available = self.available();
        let count: usize = if buffer.len() < available {
            buffer.len()
        } else {
            available
        };
        if count == 0 {
            assert(buffer@ =~= delivered(old(self)@, old(buffer)@.len()) + old(buffer)@.skip(0));
            assert(self@ =~= queue_after_read(old(self)@, old(buffer)@.len()));
            return 0;
        }
        let capacity = self.capacity;
        let start = self.effective_read_ptr();
        let ghost queue = self@;
        let mut k: usize = 0;
        while k < count
            invariant
                k <= count <= buffer@.len(),
                buffer@.len() == old(buffer)@.len(),
                capacity > 0,
                self.data@.len() == capacity,
                count <= queue.len(),
                start + queue.len() <= u64::MAX,
                forall|j: int|
                    0 <= j < queue.len() ==> self.data@[(start + j) % (capacity as int)]
                        == #[trigger] queue[j],
                forall|j: int| 0 <= j < k ==> buffer@[j] == #[trigger] queue[j],
                forall|j: int| k <= j < buffer@.len() ==> buffer@[j] == old(buffer)@[j],
            decreases count - k,
        {
            let slot = ((start + k as u64) % (capacity as u64)) as usize;
            assert(self.data@[slot as int] == queue[k as int]);
            buffer[k] = self.data[slot];
            k = k + 1;
        }
        self.read_ptr = start + count as u64;
        proof {
            assert(buffer@ =~= delivered(queue, old(buffer)@.len()) + old(buffer)@.skip(
                count as int,
            ));
            let expected = queue_after_read(queue, old(buffer)@.len());
            assert(self@.len() == expected.len());
            assert forall|i: int| 0 <= i < expected.len() implies self@[i] == expected[i] by {
                assert(queue[i + count] == expected[i]);
                assert(start + (i + count) == (start + count) + i);
            }
            assert(self@ =~= expected);
        }
        count
    }

    /// Drop every sample queued at the time of this call. Samples written
    /// later are not affected.
    ///
    /// The consumer's own pointer is not moved: the request only records how
    /// far the queue is to be skipped.
    pub fn discard_buffered_samples(&mut self)
        requires
            old(self).wf(),
        ensures
            final(self).wf(),
            final(self)@ == Seq::<T>::empty(),
            final(self).capacity() == old(self).capacity(),
            final(self).consumed() == old(self).written(),
            final(self).written() == old(self).written(),
    {
        if self.discard_before < self.write_ptr {
            self.discard_before = self.write_ptr;
        }
        assert(self@ =~= Seq::<T>::empty());
    }
}

/// What a read gives back is what a write put in: samples written to an empty
/// buffer that has room come out as they were, in one read of their number.
pub proof fn law_read_returns_what_was_written<T>(capacity: nat, samples: Seq<T>)
    requires
        samples.len() <= capacity,
    ensures
        delivered(queue_after_write(Seq::<T>::empty(), capacity, samples), samples.len())
            == samples,
        queue_after_read(
            queue_after_write(Seq::<T>::empty(), capacity, samples),
            samples.len(),
        ) == Seq::<T>::empty(),
{
    let queue = queue_after_write(Seq::<T>::empty(), capacity, samples);
    assert(queue =~= samples);
    assert(delivered(queue, samples.len()) =~= samples);
    assert(queue_after_read(queue, samples.len()) =~= Seq::<T>::empty());
}

/// Samples leave in the order they came: a read takes the oldest ones and
/// leaves the rest as they were, and a later write goes behind them.
pub proof fn law_first_in_first_out<T>(
    queue: Seq<T>,
    capacity: nat,
    wanted: nat,
    samples: Seq<T>,
)
    requires
        queue.len() <= capacity,
    ensures
        delivered(queue, wanted) + queue_after_read(queue, wanted) == queue,
        delivered(queue, wanted) + queue_after_write(
            queue_after_read(queue, wanted),
            capacity,
            samples,
        ) == queue + samples.take(
            accepted(queue_after_read(queue, wanted).len(), capacity, samples.len()) as int,
        ),
{
    assert(delivered(queue, wanted) + queue_after_read(queue, wanted) =~= queue);
    let taken = accepted(queue_after_read(queue, wanted).len(), capacity, samples.len()) as int;
    assert(delivered(queue, wanted) + queue_after_write(
        queue_after_read(queue, wanted),
        capacity,
        samples,
    ) =~= queue + samples.take(taken));
}

/// Two writes in a row are one write of both, and two reads in a row are one
/// read of both.
pub proof fn law_transfers_compose<T>(
    queue: Seq<T>,
    capacity: nat,
    first: Seq<T>,
    second: Seq<T>,
    wanted: nat,
    more: nat,
)
    requires
        queue.len() <= capacity,
    ensures
        queue.len() + first.len() <= capacity ==> queue_after_write(
            queue_after_write(queue, capacity, first),
            capacity,
            second,
        ) == queue_after_write(queue, capacity, first + second),
        queue_after_read(queue_after_read(queue, wanted), more) == queue_after_read(
            queue,
            wanted + more,
        ),
        delivered(queue, wanted) + delivered(queue_after_read(queue, wanted), more) == delivered(
            queue,
            wanted + more,
        ),
{
    if queue.len() + first.len() <= capacity {
        assert(queue_after_write(queue_after_write(queue, capacity, first), capacity, second)
            =~= queue_after_write(queue, capacity, first + second));
    }
    assert(queue_after_read(queue_after_read(queue, wanted), more) =~= queue_after_read(
        queue,
        wanted + more,
    ));
    assert(delivered(queue, wanted) + delivered(queue_after_read(queue, wanted), more)
        =~= delivered(queue, wanted + more));
}

/// A discard preserves what is published after it: whatever was queued, the
/// next samples read are the ones written after the latest request.
pub proof fn law_discard_preserves_later_samples<T>(capacity: nat, samples: Seq<T>, wanted: nat)
    requires
        samples.len() <= capacity,
        wanted <= samples.len(),
    ensures
        delivered(queue_after_write(Seq::<T>::empty(), capacity, samples), wanted)
            == samples.take(wanted as int),
{
    let queue = queue_after_write(Seq::<T>::empty(), capacity, samples);
    assert(queue =~= samples);
}

} // verus!
