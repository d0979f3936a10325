//! The playback side: what the device asks for comes out of the queue and
//! through the filter, and silence stands in where the queue has nothing.
use crate::capture::{admitted, CaptureSink};
use crate::filter::{Filter, FilterView};
use crate::kernel::{Kernel, SILENCE};
use crate::ring::{ring_items, ring_paired, ring_pop};
use ringbuf::{Consumer, Producer};
use vstd::prelude::*;

verus! {

/// Whether `y` may stand in an output slot for which the queue gave `taken`:
/// an output of the filter on the sample taken, or silence where nothing was
/// taken.
pub open spec fn slot_output<L, M, C>(
    pre: FilterView,
    taken: Option<u32>,
    kernel: Kernel<L, M, C>,
    y: u32,
) -> bool where
    L: Fn(u64, u32, u32) -> usize,
    M: Fn(u32, u32, u32) -> u32,
    C: Fn(u32, u32, u32) -> u32,
 {
    match taken {
        Some(sample) => pre.output(sample, kernel, y),
        None => y == SILENCE,
    }
}

/// The filter after an output slot that was filled with `y`: one step on
/// where a sample was taken, and as it was where nothing was taken.
pub open spec fn slot_after(pre: FilterView, taken: Option<u32>, y: u32) -> FilterView {
    match taken {
        Some(_) => pre.after(y),
        None => pre,
    }
}

/// The filter after a run of output slots, for which the queue gave `taken`
/// and which were filled with `outs`.
pub open spec fn run_after(pre: FilterView, taken: Seq<Option<u32>>, outs: Seq<u32>) -> FilterView
    decreases taken.len(),
{
    if taken.len() == 0 {
        pre
    } else {
        slot_after(
            run_after(pre, taken.drop_last(), outs.drop_last()),
            taken.last(),
            outs.last(),
        )
    }
}

/// Whether `outs` may be the output slots of a run for which the queue gave
/// `taken`: each slot is filled as `slot_output` says, by the filter as the
/// slots before have left it.
#[verifier::opaque]
pub open spec fn rendered<L, M, C>(
    pre: FilterView,
    taken: Seq<Option<u32>>,
    kernel: Kernel<L, M, C>,
    outs: Seq<u32>,
) -> bool where
    L: Fn(u64, u32, u32) -> usize,
    M: Fn(u32, u32, u32) -> u32,
    C: Fn(u32, u32, u32) -> u32,
 {
    &&& outs.len() == taken.len()
    &&& forall|i: int|
        0 <= i < taken.len() ==> slot_output(
            run_after(pre, taken.take(i), outs.take(i)),
            #[trigger] taken[i],
            kernel,
            outs[i],
        )
}

/// The number of slots of a run for which a sample was taken.
pub open spec fn samples_in(taken: Seq<Option<u32>>) -> nat
    decreases taken.len(),
{
    if taken.len() == 0 {
        0
    } else {
        samples_in(taken.drop_last()) + if taken.last() is Some {
            1nat
        } else {
            0nat
        }
    }
}

/// What a queue gives to a run of `slots` output slots when nothing is
/// appended meanwhile: the samples that wait, in their order, and then
/// nothing.
pub open spec fn supply(waiting: Seq<u32>, slots: nat) -> Seq<Option<u32>> {
    Seq::new(
        slots,
        |i: int|
            if i < waiting.len() {
                Some(waiting[i])
            } else {
                None
            },
    )
}

/// A run that is one slot longer: the slot is judged by the filter as the
/// run has left it.
pub proof fn lemma_run_push<L, M, C>(
    pre: FilterView,
    taken: Seq<Option<u32>>,
    kernel: Kernel<L, M, C>,
    outs: Seq<u32>,
    next: Option<u32>,
    y: u32,
) where L: Fn(u64, u32, u32) -> usize, M: Fn(u32, u32, u32) -> u32, C: Fn(u32, u32, u32) -> u32
    requires
        rendered(pre, taken, kernel, outs),
        slot_output(run_after(pre, taken, outs), next, kernel, y),
    ensures
        rendered(pre, taken.push(next), kernel, outs.push(y)),
        run_after(pre, taken.push(next), outs.push(y)) == slot_after(
            run_after(pre, taken, outs),
            next,
            y,
        ),
        samples_in(taken.push(next)) == samples_in(taken) + if next is Some {
            1nat
        } else {
            0nat
        },
{
    reveal(rendered);
    let taken2 = taken.push(next);
    let outs2 = outs.push(y);
    assert(taken2.drop_last() =~= taken);
    assert(outs2.drop_last() =~= outs);
    assert forall|i: int| 0 <= i < taken2.len() implies slot_output(
        run_after(pre, taken2.take(i), outs2.take(i)),
        #[trigger] taken2[i],
        kernel,
        outs2[i],
    ) by {
        if i < taken.len() {
            assert(taken2.take(i) =~= taken.take(i));
            assert(outs2.take(i) =~= outs.take(i));
            assert(taken2[i] == taken[i]);
        } else {
            assert(taken2.take(i) =~= taken);
            assert(outs2.take(i) =~= outs);
        }
    }
}

/// Fills one output slot: with the output of the filter on the sample taken
/// from the queue, or, where nothing was taken, with silence. Then the filter
/// is not touched.
pub fn render_slot<L, M, C>(filter: &mut Filter, taken: Option<u32>, kernel: &Kernel<L, M, C>) -> (y:
    u32) where
    L: Fn(u64, u32, u32) -> usize,
    M: Fn(u32, u32, u32) -> u32,
    C: Fn(u32, u32, u32) -> u32,

    requires
        old(filter).wf(),
        kernel.total(),
    ensures
        final(filter).wf(),
        slot_output(old(filter)@, taken, *kernel, y),
        final(filter)@ == slot_after(old(filter)@, taken, y),
        taken is None ==> *final(filter) == *old(filter),
{
    match taken {
        Some(sample) => filter.apply(sample, kernel),
        None => SILENCE,
    }
}

/// Fills every slot of `out`, each from one attempt to take a sample from
/// the ring, and returns how many samples were taken.
///
/// With the other half lent in `writer`, the ring gives the samples that
/// wait, in their order, and then nothing.
pub(crate) fn pop_each<L, M, C>(
    c: &mut Consumer<u32>,
    writer: Option<&Producer<u32>>,
    filter: &mut Filter,
    out: &mut [u32],
    kernel: &Kernel<L, M, C>,
) -> (r: (usize, Ghost<Seq<Option<u32>>>)) where
    L: Fn(u64, u32, u32) -> usize,
    M: Fn(u32, u32, u32) -> u32,
    C: Fn(u32, u32, u32) -> u32,

    requires
        old(filter).wf(),
        kernel.total(),
    ensures
        final(filter).wf(),
        final(out)@.len() == old(out)@.len(),
        r.1@.len() == old(out)@.len(),
        r.0 == samples_in(r.1@),
        rendered(old(filter)@, r.1@, *kernel, final(out)@),
        final(filter)@ == run_after(old(filter)@, r.1@, final(out)@),
        match writer {
            Some(p) => ring_paired(*p, *old(c)) ==> {
                &&& ring_paired(*p, *final(c))
                &&& r.1@ == supply(ring_items(*p, *old(c)), old(out)@.len())
                &&& r.0 == admitted(
                    ring_items(*p, *old(c)).len() as int,
                    old(out)@.len() as int,
                )
                &&& ring_items(*p, *final(c)) == ring_items(*p, *old(c)).skip(r.0 as int)
            },
            None => true,
        },
{
    let ghost mut events: Seq<Option<u32>> = Seq::empty();
    proof {
        reveal(rendered);
    }
    let slots = out.len();
    let mut taken: usize = 0;
    let mut i: usize = 0;
    while i < slots
        invariant
            out@.len() == slots == old(out)@.len(),
            i <= slots,
            taken <= i,
            filter.wf(),
            kernel.total(),
            events.len() == i,
            taken == samples_in(events),
            rendered(old(filter)@, events, *kernel, out@.take(i as int)),
            filter@ == run_after(old(filter)@, events, out@.take(i as int)),
            match writer {
                Some(p) => ring_paired(*p, *old(c)) ==> {
                    &&& ring_paired(*p, *c)
                    &&& events == supply(ring_items(*p, *old(c)), i as nat)
                    &&& taken <= ring_items(*p, *old(c)).len()
                    &&& taken < i ==> taken == ring_items(*p, *old(c)).len()
                    &&& ring_items(*p, *c) == ring_items(*p, *old(c)).skip(taken as int)
                },
                None => true,
            },
        decreases slots - i,
    {
        let ghost before = out@.take(i as int);
        let ghost seen = events;
        let next = ring_pop(c, writer);
        let y = render_slot(filter, next, kernel);
        out[i] = y;
        if next.is_some() {
            taken += 1;
        }
        i += 1;
        proof {
            events = seen.push(next);
            lemma_run_push(old(filter)@, seen, *kernel, before, next, y);
            assert(out@.take(i as int) =~= before.push(y));
            match writer {
                Some(p) => {
                    if ring_paired(*p, *old(c)) {
                        let waiting = ring_items(*p, *old(c));
                        assert(events =~= supply(waiting, i as nat));
                        if next is Some {
                            assert(waiting.skip(taken - 1).drop_first() =~= waiting.skip(
                                taken as int,
                            ));
                        }
                    }
                },
                None => {},
            }
        }
    }
    assert(out@.take(slots as int) =~= out@);
    (taken, Ghost(events))
}

/// A run of `slots` output slots for which the queue gave nothing.
pub open spec fn starved(slots: nat) -> Seq<Option<u32>> {
    Seq::new(slots, |i: int| None::<u32>)
}

/// `slots` output slots of silence.
pub open spec fn silence(slots: nat) -> Seq<u32> {
    Seq::new(slots, |i: int| SILENCE)
}

/// Whether a run of the playback side on `outs.len()` slots may have filled
/// them with `outs`, taken `count` samples and left the filter as `post`,
/// when the queue gave `taken`.
pub open spec fn played<L, M, C>(
    pre: FilterView,
    taken: Seq<Option<u32>>,
    kernel: Kernel<L, M, C>,
    outs: Seq<u32>,
    post: FilterView,
    count: nat,
) -> bool where
    L: Fn(u64, u32, u32) -> usize,
    M: Fn(u32, u32, u32) -> u32,
    C: Fn(u32, u32, u32) -> u32,
 {
    &&& rendered(pre, taken, kernel, outs)
    &&& post == run_after(pre, taken, outs)
    &&& count == samples_in(taken)
}

/// The end of a queue that the playback callback holds, with the filter. The
/// other end may be written at any moment, from another thread.
pub struct PlaybackSource {
    consumer: Consumer<u32>,
    filter: Filter,
}

impl PlaybackSource {
    /// The filter is well formed.
    pub closed spec fn wf(&self) -> bool {
        self.filter.wf()
    }

    /// What the filter is.
    pub closed spec fn filter(&self) -> FilterView {
        self.filter@
    }

    /// Whether `sink` is the other end of the queue that this source reads.
    pub closed spec fn fed_by(&self, sink: &CaptureSink) -> bool {
        ring_paired(sink.half(), self.consumer)
    }

    /// The samples that wait between `sink` and this source, the oldest
    /// first, at a moment at which both are at rest.
    pub closed spec fn waiting(&self, sink: &CaptureSink) -> Seq<u32> {
        ring_items(sink.half(), self.consumer)
    }

    /// The half of the ring that the source reads from.
    pub(crate) closed spec fn half(&self) -> Consumer<u32> {
        self.consumer
    }

    /// What `fed_by` and `waiting` say of the two halves.
    pub(crate) proof fn lemma_unfold(&self, sink: &CaptureSink)
        ensures
            self.fed_by(sink) == ring_paired(sink.half(), self.half()),
            self.waiting(sink) == ring_items(sink.half(), self.half()),
    {
    }

    /// The source on the consuming half of a ring, with its filter.
    pub(crate) fn on(consumer: Consumer<u32>, filter: Filter) -> (source: PlaybackSource)
        requires
            filter.wf(),
        ensures
            source.wf(),
            source.filter() == filter@,
            source.half() == consumer,
    {
        PlaybackSource { consumer, filter }
    }

    /// Fills every slot of `out` and returns how many samples were taken from
    /// the queue. For each slot one sample is asked of the queue: where one
    /// comes, the slot gets the output of the filter on it, and where none
    /// comes, the slot gets silence and the filter is left alone.
    pub fn fill<L, M, C>(&mut self, out: &mut [u32], kernel: &Kernel<L, M, C>) -> (count:
        usize) where
        L: Fn(u64, u32, u32) -> usize,
        M: Fn(u32, u32, u32) -> u32,
        C: Fn(u32, u32, u32) -> u32,

        requires
            old(self).wf(),
            kernel.total(),
        ensures
            final(self).wf(),
            final(out)@.len() == old(out)@.len(),
            count <= old(out)@.len(),
            exists|taken: Seq<Option<u32>>|
                #![trigger samples_in(taken)]
                played(
                    old(self).filter(),
                    taken,
                    *kernel,
                    final(out)@,
                    final(self).filter(),
                    count as nat,
                ),
            count == 0 ==> final(out)@ == silence(old(out)@.len()) && final(self).filter() == old(
                self,
            ).filter(),
    {
        let (count, Ghost(taken)) = pop_each(&mut self.consumer, None, &mut self.filter, out, kernel);
        proof {
            lemma_samples_bound(taken);
            if count == 0 {
                lemma_none_taken(taken);
                lemma_underrun(old(self).filter(), *kernel, taken.len(), out@);
            }
            assert(played(
                old(self).filter(),
                taken,
                *kernel,
                out@,
                self.filter(),
                samples_in(taken),
            ));
        }
        count
    }
}

/// An empty queue gives nothing to any slot.
pub proof fn lemma_empty_supply(slots: nat)
    ensures
        supply(Seq::<u32>::empty(), slots) == starved(slots),
{
    assert(supply(Seq::<u32>::empty(), slots) =~= starved(slots));
}

/// No more samples are taken in a run than it has slots.
pub proof fn lemma_samples_bound(taken: Seq<Option<u32>>)
    ensures
        samples_in(taken) <= taken.len(),
    decreases taken.len(),
{
    if taken.len() > 0 {
        lemma_samples_bound(taken.drop_last());
    }
}

/// A run in which no sample was taken is a run for which the queue gave
/// nothing.
pub proof fn lemma_none_taken(taken: Seq<Option<u32>>)
    requires
        samples_in(taken) == 0,
    ensures
        taken == starved(taken.len()),
    decreases taken.len(),
{
    if taken.len() > 0 {
        lemma_none_taken(taken.drop_last());
        assert(taken =~= taken.drop_last().push(taken.last()));
    }
    assert(taken =~= starved(taken.len()));
}

/// Underrun: when the queue gives nothing, every slot asked for is filled
/// with silence, and the filter is afterwards what it was before.
pub proof fn lemma_underrun<L, M, C>(
    pre: FilterView,
    kernel: Kernel<L, M, C>,
    slots: nat,
    outs: Seq<u32>,
) where L: Fn(u64, u32, u32) -> usize, M: Fn(u32, u32, u32) -> u32, C: Fn(u32, u32, u32) -> u32
    requires
        rendered(pre, starved(slots), kernel, outs),
    ensures
        outs == silence(slots),
        run_after(pre, starved(slots), outs) == pre,
{
    reveal(rendered);
    lemma_starved_prefix(pre, slots, outs, slots);
    assert(starved(slots).take(slots as int) =~= starved(slots));
    assert(outs.take(slots as int) =~= outs);
    assert forall|i: int| 0 <= i < slots implies outs[i] == SILENCE by {
        lemma_starved_prefix(pre, slots, outs, i as nat);
        assert(starved(slots)[i] is None);
    }
    assert(outs =~= silence(slots));
}

/// A filter is not changed by slots for which the queue gave nothing.
proof fn lemma_starved_prefix(pre: FilterView, slots: nat, outs: Seq<u32>, i: nat)
    requires
        i <= slots,
        outs.len() == slots,
    ensures
        run_after(pre, starved(slots).take(i as int), outs.take(i as int)) == pre,
    decreases i,
{
    if i > 0 {
        lemma_starved_prefix(pre, slots, outs, (i - 1) as nat);
        assert(starved(slots).take(i as int).drop_last() =~= starved(slots).take(i - 1));
        assert(outs.take(i as int).drop_last() =~= outs.take(i - 1));
    }
}

/// Underrun leaves no trace: a run that starts with `gap` slots for which
/// the queue gave nothing fills those slots with silence, and fills the slots
/// behind them, and leaves the filter, as the run without the gap does.
pub proof fn lemma_underrun_leaves_no_trace<L, M, C>(
    pre: FilterView,
    kernel: Kernel<L, M, C>,
    gap: nat,
    taken: Seq<Option<u32>>,
    outs: Seq<u32>,
) where L: Fn(u64, u32, u32) -> usize, M: Fn(u32, u32, u32) -> u32, C: Fn(u32, u32, u32) -> u32
    requires
        rendered(pre, starved(gap) + taken, kernel, outs),
    ensures
        outs.take(gap as int) == silence(gap),
        rendered(pre, taken, kernel, outs.skip(gap as int)),
        run_after(pre, starved(gap) + taken, outs) == run_after(pre, taken, outs.skip(gap as int)),
{
    reveal(rendered);
    let all = starved(gap) + taken;
    let rest = outs.skip(gap as int);
    assert forall|i: int| 0 <= i < gap implies outs.take(gap as int)[i] == SILENCE by {
        lemma_gap_prefix(pre, gap, taken, outs, i as nat);
        assert(all[i] is None);
    }
    assert(outs.take(gap as int) =~= silence(gap));
    assert forall|j: int| 0 <= j < taken.len() implies slot_output(
        run_after(pre, taken.take(j), rest.take(j)),
        #[trigger] taken[j],
        kernel,
        rest[j],
    ) by {
        lemma_gap_suffix(pre, gap, taken, outs, j as nat);
        assert(all[gap + j] == taken[j]);
    }
    lemma_gap_suffix(pre, gap, taken, outs, taken.len());
    assert(all.take(all.len() as int) =~= all);
    assert(outs.take(outs.len() as int) =~= outs);
    assert(taken.take(taken.len() as int) =~= taken);
    assert(rest.take(rest.len() as int) =~= rest);
}

/// The filter is not changed by the first slots of a gap.
proof fn lemma_gap_prefix(
    pre: FilterView,
    gap: nat,
    taken: Seq<Option<u32>>,
    outs: Seq<u32>,
    i: nat,
)
    requires
        i <= gap,
        outs.len() == gap + taken.len(),
    ensures
        run_after(pre, (starved(gap) + taken).take(i as int), outs.take(i as int)) == pre,
    decreases i,
{
    let all = starved(gap) + taken;
    if i > 0 {
        lemma_gap_prefix(pre, gap, taken, outs, (i - 1) as nat);
        assert(all.take(i as int).drop_last() =~= all.take(i - 1));
        assert(outs.take(i as int).drop_last() =~= outs.take(i - 1));
    }
}

/// Behind a gap the filter is where the run without the gap has it.
proof fn lemma_gap_suffix(
    pre: FilterView,
    gap: nat,
    taken: Seq<Option<u32>>,
    outs: Seq<u32>,
    j: nat,
)
    requires
        j <= taken.len(),
        outs.len() == gap + taken.len(),
    ensures
        run_after(pre, (starved(gap) + taken).take((gap + j) as int), outs.take((gap + j) as int)) == run_after(
            pre,
            taken.take(j as int),
            outs.skip(gap as int).take(j as int),
        ),
    decreases j,
{
    let all = starved(gap) + taken;
    let rest = outs.skip(gap as int);
    if j == 0 {
        lemma_gap_prefix(pre, gap, taken, outs, gap);
    } else {
        lemma_gap_suffix(pre, gap, taken, outs, (j - 1) as nat);
        assert(all.take((gap + j) as int).drop_last() =~= all.take(gap + j - 1));
        assert(outs.take((gap + j) as int).drop_last() =~= outs.take(gap + j - 1));
        assert(taken.take(j as int).drop_last() =~= taken.take(j - 1));
        assert(rest.take(j as int).drop_last() =~= rest.take(j - 1));
    }
}

} // verus!
