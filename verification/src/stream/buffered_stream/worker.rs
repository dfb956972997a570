//! The registry of the read-ahead worker and the worker's filling pass.

use vstd::prelude::*;

use super::buffer::{refilled, BufferedAudioStream, GroupFill};
use super::ring::below_watermark;
use crate::mixer::AudioStream;

verus! {

/// A registered stream and buffer.
pub struct BufferGroup<G> {
    pub id: u64,
    pub resources: G,
}

/// State shared by the control threads and the one buffer-filling thread.
///
/// It only records registry and lifecycle changes. The worker takes a snapshot
/// of the groups before it reads streams, so slow stream I/O never holds up
/// construction, destruction or seek notifications.
pub struct WorkerState<G> {
    handle_count: usize,
    running: bool,
    refill_requested: bool,
    groups: Vec<BufferGroup<G>>,
    next_id: u64,
}

/// Which waiting threads a registry change has to wake.
#[derive(Clone, Copy, Debug, PartialEq, Eq, Structural)]
pub enum Wake {
    Nobody,
    One,
    Everybody,
}

/// What the worker thread does next.
pub enum WorkerStep<G> {
    /// Sleep until woken, then ask again.
    Wait,
    /// Leave the thread: no handle is left.
    Exit,
    /// Fill these groups, then ask again.
    Fill(Vec<G>),
}

/// Keeps the shared worker thread alive while a buffered stream exists.
pub struct WorkerHandle {}

/// A handle, and whether the worker thread has to be spawned for it.
pub struct Acquired {
    pub handle: WorkerHandle,
    pub spawn: bool,
}

impl<G> WorkerState<G> {
    /// Handles that were taken and not given back.
    pub closed spec fn handles(&self) -> usize {
        self.handle_count
    }

    /// Whether a worker thread runs or is being spawned.
    pub closed spec fn worker_runs(&self) -> bool {
        self.running
    }

    /// Whether a refill was requested since the last pass began.
    pub closed spec fn refill_pending(&self) -> bool {
        self.refill_requested
    }

    /// The registered groups, in the order they were added.
    pub closed spec fn groups(&self) -> Seq<BufferGroup<G>> {
        self.groups@
    }

    /// The id of the next group.
    pub closed spec fn next_group(&self) -> u64 {
        self.next_id
    }

    pub open spec fn same_groups(&self, other: &Self) -> bool {
        self.groups() == other.groups() && self.next_group() == other.next_group()
    }

    /// While a handle exists a worker runs, and ids are handed out once.
    pub closed spec fn wf(&self) -> bool {
        &&& self.handle_count > 0 ==> self.running
        &&& forall|i: int|
            0 <= i < self.groups@.len() ==> #[trigger] self.groups@[i].id < self.next_id
        &&& forall|i: int, j: int|
            0 <= i < j < self.groups@.len() ==> (#[trigger] self.groups@[i]).id != (
            #[trigger] self.groups@[j]).id
    }

    /// While a handle exists a worker runs. No two groups share an id, and the id
    /// of the next one is none of theirs.
    pub proof fn law_registry_is_consistent(&self)
        requires
            self.wf(),
        ensures
            self.handles() > 0 ==> self.worker_runs(),
            forall|i: int|
                0 <= i < self.groups().len() ==> (#[trigger] self.groups()[i]).id
                    < self.next_group(),
            forall|i: int, j: int|
                0 <= i < j < self.groups().len() ==> (#[trigger] self.groups()[i]).id != (
                #[trigger] self.groups()[j]).id,
    {
    }

    /// Number of handles.
    pub fn handle_count(&self) -> (count: usize)
        ensures
            count == self.handles(),
    {
        self.handle_count
    }

    /// Whether a worker thread runs or is being spawned.
    pub fn is_running(&self) -> (running: bool)
        ensures
            running == self.worker_runs(),
    {
        self.running
    }

    /// Whether there is an id left for another group.
    pub fn has_free_id(&self) -> (free: bool)
        ensures
            free == (self.next_group() < u64::MAX),
    {
        self.next_id < u64::MAX
    }

    pub fn new() -> (state: Self)
        ensures
            state.wf(),
            state.handles() == 0,
            !state.worker_runs(),
            !state.refill_pending(),
            state.groups() == Seq::<BufferGroup<G>>::empty(),
            state.next_group() == 0,
    {
        WorkerState {
            handle_count: 0,
            running: false,
            refill_requested: false,
            groups: Vec::new(),
            next_id: 0,
        }
    }

    /// Decide what the worker thread does next, and record that it does.
    ///
    /// A refill request is consumed by the pass that serves it.
    pub fn next_step(&mut self) -> (step: WorkerStep<G>) where G: Clone
        requires
            old(self).wf(),
        ensures
            final(self).wf(),
            final(self).same_groups(old(self)),
            final(self).handles() == old(self).handles(),
            step is Exit <==> old(self).handles() == 0,
            step is Fill <==> old(self).handles() != 0 && old(self).refill_pending(),
            step is Wait <==> old(self).handles() != 0 && !old(self).refill_pending(),
            !final(self).refill_pending(),
            final(self).worker_runs() == (old(self).worker_runs() && !(step is Exit)),
            step is Fill ==> step->Fill_0@.len() == old(self).groups().len(),
            step is Fill ==> forall|i: int|
                0 <= i < old(self).groups().len() ==> cloned::<G>(
                    (#[trigger] old(self).groups()[i]).resources,
                    step->Fill_0@[i],
                ),
    {
        if self.handle_count == 0 {
            self.running = false;
            self.refill_requested = false;
            return WorkerStep::Exit;
        }
        if !self.refill_requested {
            return WorkerStep::Wait;
        }
        self.refill_requested = false;
        let mut snapshot: Vec<G> = Vec::new();
        let mut i: usize = 0;
        while i < self.groups.len()
            invariant
                i <= self.groups@.len(),
                snapshot@.len() == i,
                forall|j: int|
                    0 <= j < i ==> cloned::<G>(
                        (#[trigger] self.groups@[j]).resources,
                        snapshot@[j],
                    ),
            decreases self.groups@.len() - i,
        {
            snapshot.push(self.groups[i].resources.clone());
            i = i + 1;
        }
        WorkerStep::Fill(snapshot)
    }
}

/// Take a handle. Where no worker runs yet, one has to be spawned; if that
/// fails, [`spawn_failed`] undoes the acquisition.
pub fn acquire_worker_handle<G>(registry: &mut WorkerState<G>) -> (acquired: Acquired)
    requires
        old(registry).wf(),
        old(registry).handles() < usize::MAX,
    ensures
        final(registry).wf(),
        acquired.spawn == !old(registry).worker_runs(),
        final(registry).worker_runs(),
        final(registry).handles() == old(registry).handles() + 1,
        final(registry).refill_pending() == old(registry).refill_pending(),
        final(registry).same_groups(old(registry)),
{
    registry.handle_count = registry.handle_count + 1;
    let spawn = !registry.running;
    registry.running = true;
    Acquired { handle: WorkerHandle {  }, spawn }
}

/// Give back the first handle, whose worker thread could not be spawned.
pub fn spawn_failed<G>(handle: WorkerHandle, registry: &mut WorkerState<G>)
    requires
        old(registry).wf(),
        old(registry).handles() == 1,
    ensures
        final(registry).wf(),
        !final(registry).worker_runs(),
        final(registry).handles() == 0,
        final(registry).refill_pending() == old(registry).refill_pending(),
        final(registry).same_groups(old(registry)),
{
    registry.handle_count = registry.handle_count - 1;
    registry.running = false;
}

impl WorkerHandle {
    /// Have the worker thread re-evaluate watermark levels.
    pub fn notify<G>(&self, registry: &mut WorkerState<G>) -> (wake: Wake)
        requires
            old(registry).wf(),
        ensures
            final(registry).wf(),
            wake == Wake::One,
            final(registry).refill_pending(),
            final(registry).worker_runs() == old(registry).worker_runs(),
            final(registry).handles() == old(registry).handles(),
            final(registry).same_groups(old(registry)),
    {
        registry.refill_requested = true;
        Wake::One
    }

    /// Register a stream and buffer for background filling. Returns the id
    /// under which the group can be removed, and whom to wake.
    pub fn add_buffer_group<G>(&self, registry: &mut WorkerState<G>, resources: G) -> (added: (
        u64,
        Wake,
    ))
        requires
            old(registry).wf(),
            old(registry).next_group() < u64::MAX,
        ensures
            final(registry).wf(),
            added.1 == Wake::One,
            added.0 == old(registry).next_group(),
            final(registry).groups() == old(registry).groups().push(
                BufferGroup { id: added.0, resources },
            ),
            final(registry).next_group() == old(registry).next_group() + 1,
            final(registry).refill_pending(),
            final(registry).worker_runs() == old(registry).worker_runs(),
            final(registry).handles() == old(registry).handles(),
    {
        let id = registry.next_id;
        registry.groups.push(BufferGroup { id, resources });
        registry.next_id = id + 1;
        registry.refill_requested = true;
        (id, Wake::One)
    }

    /// Unregister the group with the given id.
    pub fn remove_buffer_group<G>(&self, registry: &mut WorkerState<G>, id: u64)
        requires
            old(registry).wf(),
        ensures
            final(registry).wf(),
            final(registry).groups() == groups_without(old(registry).groups(), id),
            final(registry).next_group() == old(registry).next_group(),
            final(registry).refill_pending() == old(registry).refill_pending(),
            final(registry).worker_runs() == old(registry).worker_runs(),
            final(registry).handles() == old(registry).handles(),
    {
        let ghost before = registry.groups@;
        let mut i: usize = 0;
        while i < registry.groups.len() && registry.groups[i].id != id
            invariant
                i <= registry.groups@.len(),
                registry.groups@ == before,
                forall|j: int| 0 <= j < i ==> (#[trigger] before[j]).id != id,
            decreases registry.groups@.len() - i,
        {
            i = i + 1;
        }
        if i < registry.groups.len() {
            registry.groups.remove(i);
            proof {
                lemma_groups_without_present(before, id, i as int);
            }
        } else {
            proof {
                lemma_groups_without_absent(before, id);
            }
        }
    }

    /// Give the handle back. The last one wakes the worker so that it leaves.
    pub fn release<G>(self, registry: &mut WorkerState<G>) -> (wake: Wake)
        requires
            old(registry).wf(),
            old(registry).handles() > 0,
        ensures
            final(registry).wf(),
            final(registry).handles() == old(registry).handles() - 1,
            wake == (if old(registry).handles() == 1 {
                Wake::Everybody
            } else {
                Wake::Nobody
            }),
            final(registry).worker_runs() == old(registry).worker_runs(),
            final(registry).refill_pending() == old(registry).refill_pending(),
            final(registry).same_groups(old(registry)),
    {
        registry.handle_count = registry.handle_count - 1;
        if registry.handle_count == 0 {
            Wake::Everybody
        } else {
            Wake::Nobody
        }
    }
}

/// Registering a group and removing it again leaves the others as they were.
pub proof fn law_removal_undoes_registration<G>(
    groups: Seq<BufferGroup<G>>,
    id: u64,
    resources: G,
)
    requires
        forall|i: int| 0 <= i < groups.len() ==> (#[trigger] groups[i]).id != id,
    ensures
        groups_without(groups.push(BufferGroup { id, resources }), id) == groups,
{
    let with = groups.push(BufferGroup { id, resources });
    let last = groups.len() as int;
    assert(with.remove(last) =~= groups);
    assert forall|j: int| 0 <= j < with.len() && j != last implies (#[trigger] with[j]).id
        != id by {
        assert(with[j] == groups[j]);
    }
    lemma_groups_without_present(with, id, last);
}

/// The groups other than the one with the given id, in their order.
pub open spec fn groups_without<G>(groups: Seq<BufferGroup<G>>, id: u64) -> Seq<BufferGroup<G>> {
    groups.filter(|group: BufferGroup<G>| group.id != id)
}

proof fn lemma_groups_without_absent<G>(groups: Seq<BufferGroup<G>>, id: u64)
    requires
        forall|j: int| 0 <= j < groups.len() ==> (#[trigger] groups[j]).id != id,
    ensures
        groups_without(groups, id) == groups,
    decreases groups.len(),
{
    reveal(Seq::filter);
    if groups.len() > 0 {
        lemma_groups_without_absent(groups.drop_last(), id);
        assert(groups.last().id != id);
        assert(groups =~= groups.drop_last().push(groups.last()));
    } else {
        assert(groups_without(groups, id) =~= groups);
    }
}

proof fn lemma_groups_without_present<G>(groups: Seq<BufferGroup<G>>, id: u64, index: int)
    requires
        0 <= index < groups.len(),
        groups[index].id == id,
        forall|j: int| 0 <= j < groups.len() && j != index ==> (#[trigger] groups[j]).id != id,
    ensures
        groups_without(groups, id) == groups.remove(index),
    decreases groups.len(),
{
    reveal(Seq::filter);
    let rest = groups.drop_last();
    if index == groups.len() - 1 {
        lemma_groups_without_absent(rest, id);
        assert(groups.remove(index) =~= rest);
    } else {
        lemma_groups_without_present(rest, id, index);
        assert(groups.last().id != id);
        assert(groups.remove(index) =~= rest.remove(index).push(groups.last()));
    }
}

/// What one round over all groups has come to so far.
#[derive(Clone, Copy, Debug, PartialEq, Eq, Structural)]
pub struct FillRound {
    /// No group visited so far needs another visit.
    pub all_settled: bool,
    /// Some group has taken samples.
    pub made_progress: bool,
}

impl FillRound {
    pub fn start() -> (round: Self)
        ensures
            round == (FillRound { all_settled: true, made_progress: false }),
    {
        FillRound { all_settled: true, made_progress: false }
    }

    /// Add what the visit of one group came to. A full group changes nothing.
    pub fn record(&mut self, fill: Option<GroupFill>)
        ensures
            final(self).all_settled == (old(self).all_settled && (fill is None
                || fill->0.settled)),
            final(self).made_progress == (old(self).made_progress || (fill is Some
                && fill->0.samples_read > 0)),
    {
        if let Some(done) = fill {
            if done.samples_read > 0 {
                self.made_progress = true;
            }
            if !done.settled {
                self.all_settled = false;
            }
        }
    }

    /// Whether the pass ends with this round: every buffer is served, or no
    /// stream has anything to give.
    pub fn is_last(&self) -> (last: bool)
        ensures
            last == (self.all_settled || !self.made_progress),
    {
        self.all_settled || !self.made_progress
    }
}

/// Whether a stream needs no further visit: its buffer is full or not below
/// the watermark, or the inner stream has ended.
pub open spec fn settled<T, S: AudioStream<T>>(stream: BufferedAudioStream<T, S>) -> bool {
    ||| stream.queue().len() == stream.capacity()
    ||| exists|ended: bool| #[trigger]
        call_ensures(S::is_eof, (&stream.inner(),), ended) && (ended || !below_watermark(
            stream.queue().len(),
            stream.capacity(),
        ))
}

/// `after` is `before` with samples read ahead and nothing else changed.
pub open spec fn only_filled<T, S: AudioStream<T>>(
    before: BufferedAudioStream<T, S>,
    after: BufferedAudioStream<T, S>,
) -> bool {
    &&& after.wf()
    &&& after.same_setup(&before)
    &&& after.consumed() == before.consumed()
    &&& after.base() == before.base()
    &&& after.wake_pending() == before.wake_pending()
    &&& after.seeks() == before.seeks()
    &&& before.queue().is_prefix_of(after.queue())
}

/// Every stream of `after` is the one of `before`, filled.
pub open spec fn all_only_filled<T, S: AudioStream<T>>(
    before: Seq<BufferedAudioStream<T, S>>,
    after: Seq<BufferedAudioStream<T, S>>,
) -> bool {
    &&& after.len() == before.len()
    &&& forall|i: int|
        0 <= i < before.len() ==> only_filled(#[trigger] before[i], #[trigger] after[i])
}

/// One visit of the worker turned `before` into `after`: a full buffer is left
/// alone, any other gets what its inner stream provides.
pub open spec fn visited<T, S: AudioStream<T>>(
    before: BufferedAudioStream<T, S>,
    after: BufferedAudioStream<T, S>,
) -> bool {
    &&& only_filled(before, after)
    &&& if before.queue().len() == before.capacity() {
        after.queue() == before.queue()
    } else {
        exists|channels: u16, offered: Seq<T>, provided: Seq<T>, count: usize| #[trigger]
            refilled(before, after.queue(), channels, offered, provided, count)
    }
}

/// One round turned `before` into `after`: every stream was visited once.
pub open spec fn round_done<T, S: AudioStream<T>>(
    before: Seq<BufferedAudioStream<T, S>>,
    after: Seq<BufferedAudioStream<T, S>>,
) -> bool {
    &&& after.len() == before.len()
    &&& forall|i: int| 0 <= i < before.len() ==> visited(#[trigger] before[i], #[trigger] after[i])
}

/// Whether some stream has more samples in `after` than in `before`.
pub open spec fn grew<T, S>(
    before: Seq<BufferedAudioStream<T, S>>,
    after: Seq<BufferedAudioStream<T, S>>,
) -> bool {
    exists|i: int|
        0 <= i < before.len() && (#[trigger] before[i]).queue().len() < (
        #[trigger] after[i]).queue().len()
}

/// Whether a visit that turned `before` into `after` leaves something to do:
/// the buffer was not full, is still below the watermark, and the inner stream
/// said that it has not ended.
pub open spec fn unsettled<T, S: AudioStream<T>>(
    before: BufferedAudioStream<T, S>,
    after: BufferedAudioStream<T, S>,
) -> bool {
    &&& before.queue().len() != before.capacity()
    &&& below_watermark(after.queue().len(), after.capacity())
    &&& call_ensures(S::is_eof, (&after.inner(),), false)
}

/// Whether a round that turned `before` into `after` leaves something to do for
/// some stream.
pub open spec fn some_unsettled<T, S: AudioStream<T>>(
    before: Seq<BufferedAudioStream<T, S>>,
    after: Seq<BufferedAudioStream<T, S>>,
) -> bool {
    exists|i: int| 0 <= i < before.len() && unsettled(#[trigger] before[i], #[trigger] after[i])
}

/// Whether a round that turned `before` into `after` may have come to `round`.
pub open spec fn round_came_to<T, S: AudioStream<T>>(
    before: Seq<BufferedAudioStream<T, S>>,
    after: Seq<BufferedAudioStream<T, S>>,
    round: FillRound,
) -> bool {
    &&& round.made_progress <==> grew(before, after)
    &&& if round.all_settled {
        forall|i: int| 0 <= i < after.len() ==> settled(#[trigger] after[i])
    } else {
        some_unsettled(before, after)
    }
}

/// `history` is what the rounds of a pass from `before` to `after` left behind.
pub open spec fn pass_done<T, S: AudioStream<T>>(
    before: Seq<BufferedAudioStream<T, S>>,
    after: Seq<BufferedAudioStream<T, S>>,
    history: Seq<Seq<BufferedAudioStream<T, S>>>,
) -> bool {
    &&& history.len() >= 2
    &&& history.first() == before
    &&& history.last() == after
    &&& forall|k: int|
        0 <= k < history.len() - 1 ==> round_done(#[trigger] history[k], history[k + 1])
}

/// The pass of `history` ended as it should: each round but the last took
/// samples and left something to do, and the last came to `round`.
pub open spec fn pass_came_to<T, S: AudioStream<T>>(
    history: Seq<Seq<BufferedAudioStream<T, S>>>,
    round: FillRound,
) -> bool {
    &&& forall|k: int|
        0 <= k < history.len() - 2 ==> grew(#[trigger] history[k], history[k + 1])
            && some_unsettled(history[k], history[k + 1])
    &&& round_came_to(history[history.len() - 2], history.last(), round)
}

/// Streams that can be filled without exhausting the sample counters.
pub open spec fn fillable<T, S: AudioStream<T>>(streams: Seq<BufferedAudioStream<T, S>>) -> bool {
    forall|i: int|
        0 <= i < streams.len() ==> (#[trigger] streams[i]).wf() && streams[i].consumed()
            + streams[i].capacity() <= u64::MAX
}

/// Free sample slots in all buffers together.
spec fn total_free<T, S>(streams: Seq<BufferedAudioStream<T, S>>) -> int
    decreases streams.len(),
{
    if streams.len() == 0 {
        0
    } else {
        total_free(streams.drop_last()) + streams.last().capacity() - streams.last().queue().len()
    }
}

proof fn lemma_total_free<T, S: AudioStream<T>>(
    before: Seq<BufferedAudioStream<T, S>>,
    after: Seq<BufferedAudioStream<T, S>>,
)
    requires
        all_only_filled(before, after),
    ensures
        0 <= total_free(after) <= total_free(before),
        (exists|i: int|
            0 <= i < before.len() && (#[trigger] before[i]).queue().len() < (
            #[trigger] after[i]).queue().len()) ==> total_free(after) < total_free(before),
    decreases before.len(),
{
    if before.len() > 0 {
        let last = before.len() - 1;
        assert(only_filled(before[last], after[last]));
        after[last].law_samples_are_conserved();
        assert forall|i: int| 0 <= i < last implies only_filled(
            #[trigger] before.drop_last()[i],
            #[trigger] after.drop_last()[i],
        ) by {
            assert(only_filled(before[i], after[i]));
        }
        lemma_total_free(before.drop_last(), after.drop_last());
        if exists|i: int|
            0 <= i < before.len() && (#[trigger] before[i]).queue().len() < (
            #[trigger] after[i]).queue().len() {
            let i = choose|i: int|
                0 <= i < before.len() && (#[trigger] before[i]).queue().len() < (
                #[trigger] after[i]).queue().len();
            if i < last {
                assert(before.drop_last()[i] == before[i]);
                assert(after.drop_last()[i] == after[i]);
            }
        }
    }
}

/// Visit every stream once.
pub fn fill_round<T: Copy + Default, S: AudioStream<T>>(
    streams: &mut Vec<BufferedAudioStream<T, S>>,
    temp: &mut Vec<T>,
) -> (round: FillRound)
    requires
        fillable(old(streams)@),
    ensures
        fillable(final(streams)@),
        round_done(old(streams)@, final(streams)@),
        round_came_to(old(streams)@, final(streams)@, round),
{
    let mut round = FillRound::start();
    let mut i: usize = 0;
    while i < streams.len()
        invariant
            i <= streams@.len(),
            fillable(streams@),
            all_only_filled(old(streams)@, streams@),
            forall|j: int| 0 <= j < i ==> visited(#[trigger] old(streams)@[j], streams@[j]),
            forall|j: int| i <= j < streams@.len() ==> streams@[j] == old(streams)@[j],
            round.all_settled ==> forall|j: int| 0 <= j < i ==> settled(#[trigger] streams@[j]),
            !round.all_settled ==> exists|j: int|
                0 <= j < i && unsettled(#[trigger] old(streams)@[j], #[trigger] streams@[j]),
            round.made_progress <==> exists|j: int|
                0 <= j < i && (#[trigger] old(streams)@[j]).queue().len() < (
                #[trigger] streams@[j]).queue().len(),
        decreases streams@.len() - i,
    {
        let ghost before = streams@;
        let ghost earlier = round;
        let stream = &mut streams[i];
        let fill = stream.refill(temp);
        round.record(fill);
        proof {
            let visited_stream = streams@[i as int];
            assert(before[i as int] == old(streams)@[i as int]);
            assert(before[i as int].queue().is_prefix_of(visited_stream.queue()));
            assert(only_filled(old(streams)@[i as int], visited_stream));
            assert forall|j: int| 0 <= j < streams@.len() implies only_filled(
                #[trigger] old(streams)@[j],
                #[trigger] streams@[j],
            ) by {
                if j != i {
                    assert(streams@[j] == before[j]);
                }
            }
            assert(visited(old(streams)@[i as int], visited_stream));
            assert forall|j: int| 0 <= j < i + 1 implies visited(
                #[trigger] old(streams)@[j],
                streams@[j],
            ) by {
                if j < i {
                    assert(streams@[j] == before[j]);
                }
            }
            if fill is Some {
                before[i as int].law_samples_are_conserved();
                assert((fill->0.samples_read > 0) == (before[i as int].queue().len()
                    < visited_stream.queue().len()));
            } else {
                assert(settled(visited_stream));
            }
            if round.all_settled {
                assert forall|j: int| 0 <= j < i + 1 implies settled(#[trigger] streams@[j]) by {
                    if j < i {
                        assert(streams@[j] == before[j]);
                    } else if fill is Some {
                        assert(fill->0.settled);
                    }
                }
            }
            if !earlier.all_settled {
                let j = choose|j: int|
                    0 <= j < i && unsettled(#[trigger] old(streams)@[j], #[trigger] before[j]);
                assert(unsettled(old(streams)@[j], streams@[j]));
            } else if !round.all_settled {
                assert(unsettled(old(streams)@[i as int], streams@[i as int]));
            }
            if earlier.made_progress {
                let j = choose|j: int|
                    0 <= j < i && (#[trigger] old(streams)@[j]).queue().len() < (
                    #[trigger] before[j]).queue().len();
                assert(streams@[j] == before[j]);
            }
            if round.made_progress && !earlier.made_progress {
                assert(old(streams)@[i as int].queue().len() < streams@[i as int].queue().len());
            }
            if !round.made_progress {
                assert forall|j: int| 0 <= j < i + 1 implies !((#[trigger] old(streams)@[j]).queue().len() < (#[trigger] streams@[j]).queue().len()) by {
                    if j < i {
                        assert(streams@[j] == before[j]);
                    }
                }
            }
        }
        i = i + 1;
    }
    round
}

/// Keep filling until every buffer is served or no stream has anything to
/// give. Returns the round that ended the pass.
///
/// Each round but the last takes samples, so the pass ends once the free
/// space is used up at the latest.
#[verifier::spinoff_prover]
#[verifier::rlimit(40)]
pub fn fill_groups<T: Copy + Default, S: AudioStream<T>>(
    streams: &mut Vec<BufferedAudioStream<T, S>>,
    temp: &mut Vec<T>,
) -> (round: FillRound)
    requires
        fillable(old(streams)@),
    ensures
        fillable(final(streams)@),
        all_only_filled(old(streams)@, final(streams)@),
        exists|history: Seq<Seq<BufferedAudioStream<T, S>>>| #[trigger]
            pass_done(old(streams)@, final(streams)@, history) && pass_came_to(history, round),
        round.all_settled || !round.made_progress,
{
    let mut round = fill_round(streams, temp);
    let ghost mut history = seq![old(streams)@, streams@];
    while !round.is_last()
        invariant
            fillable(streams@),
            all_only_filled(old(streams)@, streams@),
            pass_done(old(streams)@, streams@, history),
            pass_came_to(history, round),
        decreases total_free(streams@), if round.made_progress { 1int } else { 0int },
    {
        let ghost before = streams@;
        round = fill_round(streams, temp);
        proof {
            assert(all_only_filled(before, streams@));
            lemma_total_free(before, streams@);
            let earlier = history;
            history = history.push(streams@);
            assert forall|k: int| 0 <= k < history.len() - 2 implies grew(
                #[trigger] history[k],
                history[k + 1],
            ) && some_unsettled(history[k], history[k + 1]) by {
                assert(earlier[k] == history[k] && earlier[k + 1] == history[k + 1]);
            }
            assert forall|i: int| 0 <= i < streams@.len() implies only_filled(
                #[trigger] old(streams)@[i],
                #[trigger] streams@[i],
            ) by {
                assert(only_filled(old(streams)@[i], before[i]));
                assert(only_filled(before[i], streams@[i]));
            }
        }
    }
    round
}

} // verus!
