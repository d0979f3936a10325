//! The capture side: what the device has recorded goes into the queue.
use crate::ring::{ring_capacity, ring_items, ring_paired, ring_push, ring_sent};
use ringbuf::{Consumer, Producer};
use vstd::prelude::*;

verus! {

/// How many samples of a block of `offered` get into a queue with `room`
/// free places: as many as fit, counted from the front of the block.
pub open spec fn admitted(room: int, offered: int) -> int {
    if offered <= room {
        offered
    } else {
        room
    }
}

/// The samples of `block` that got into the queue, in their order, where
/// `outcomes` tells of each sample of the block whether it got in.
pub open spec fn kept(block: Seq<u32>, outcomes: Seq<bool>) -> Seq<u32>
    decreases block.len(),
{
    if block.len() == 0 {
        Seq::<u32>::empty()
    } else if outcomes.last() {
        kept(block.drop_last(), outcomes.drop_last()).push(block.last())
    } else {
        kept(block.drop_last(), outcomes.drop_last())
    }
}

/// Whether a write of `block` may have brought what got in through a sink
/// from `before` to `after` and counted `accepted` samples, when the queue
/// took the samples as `outcomes` tells: every sample of the block was
/// offered once, in the order of the block, and those that the queue took
/// were counted and got in behind all that had got in before.
pub open spec fn wrote(
    before: Seq<u32>,
    block: Seq<u32>,
    outcomes: Seq<bool>,
    after: Seq<u32>,
    accepted: nat,
) -> bool {
    &&& outcomes.len() == block.len()
    &&& after == before + kept(block, outcomes)
    &&& accepted == kept(block, outcomes).len()
}

/// No more samples of a block get in than it has.
pub proof fn lemma_kept_bound(block: Seq<u32>, outcomes: Seq<bool>)
    requires
        outcomes.len() == block.len(),
    ensures
        kept(block, outcomes).len() <= block.len(),
    decreases block.len(),
{
    if block.len() > 0 {
        lemma_kept_bound(block.drop_last(), outcomes.drop_last());
    }
}

/// Where as many samples got in as the block has, the whole block got in,
/// in its order.
pub proof fn lemma_all_kept(block: Seq<u32>, outcomes: Seq<bool>)
    requires
        outcomes.len() == block.len(),
        kept(block, outcomes).len() == block.len(),
    ensures
        kept(block, outcomes) == block,
    decreases block.len(),
{
    if block.len() > 0 {
        lemma_kept_bound(block.drop_last(), outcomes.drop_last());
        lemma_all_kept(block.drop_last(), outcomes.drop_last());
        assert(block =~= block.drop_last().push(block.last()));
    } else {
        assert(block =~= Seq::<u32>::empty());
    }
}

/// The samples that got in stand in the block, in the same order: each has
/// its place in the block, and a later one has a later place.
pub proof fn lemma_kept_in_order(block: Seq<u32>, outcomes: Seq<bool>)
    requires
        outcomes.len() == block.len(),
    ensures
        exists|places: Seq<int>|
            {
                &&& #[trigger] places.len() == kept(block, outcomes).len()
                &&& forall|k: int|
                    0 <= k < places.len() ==> 0 <= #[trigger] places[k] < block.len()
                        && outcomes[places[k]] && block[places[k]] == kept(block, outcomes)[k]
                &&& forall|j: int, k: int|
                    0 <= j < k < places.len() ==> #[trigger] places[j] < #[trigger] places[k]
            },
    decreases block.len(),
{
    if block.len() == 0 {
        let places = Seq::<int>::empty();
        assert(places.len() == kept(block, outcomes).len());
    } else {
        let front = block.drop_last();
        let told = outcomes.drop_last();
        lemma_kept_in_order(front, told);
        let before = choose|places: Seq<int>|
            {
                &&& #[trigger] places.len() == kept(front, told).len()
                &&& forall|k: int|
                    0 <= k < places.len() ==> 0 <= #[trigger] places[k] < front.len()
                        && told[places[k]] && front[places[k]] == kept(front, told)[k]
                &&& forall|j: int, k: int|
                    0 <= j < k < places.len() ==> #[trigger] places[j] < #[trigger] places[k]
            };
        let places = if outcomes.last() {
            before.push(block.len() - 1)
        } else {
            before
        };
        assert(places.len() == kept(block, outcomes).len());
        assert forall|k: int| 0 <= k < places.len() implies 0 <= #[trigger] places[k]
            < block.len() && outcomes[places[k]] && block[places[k]] == kept(
            block,
            outcomes,
        )[k] by {
            if k < before.len() {
                assert(places[k] == before[k]);
                assert(told[before[k]] == outcomes[before[k]]);
                assert(front[before[k]] == block[before[k]]);
            }
        }
        assert forall|j: int, k: int| 0 <= j < k < places.len() implies #[trigger] places[j]
            < #[trigger] places[k] by {
            if k < before.len() {
                assert(places[j] == before[j] && places[k] == before[k]);
            } else {
                assert(places[j] == before[j]);
            }
        }
    }
}

/// Offers each sample of `block` to the ring in turn and counts those that
/// got in.
///
/// With the other half lent in `reader`, the samples that get in are the
/// front of the block, as far as there is room.
pub(crate) fn push_each(p: &mut Producer<u32>, reader: Option<&Consumer<u32>>, block: &[u32]) -> (r: (
    usize,
    Ghost<Seq<bool>>,
))
    ensures
        r.0 <= block@.len(),
        ring_capacity(*final(p)) == ring_capacity(*old(p)),
        wrote(ring_sent(*old(p)), block@, r.1@, ring_sent(*final(p)), r.0 as nat),
        match reader {
            Some(c) => ring_paired(*old(p), *c) && ring_items(*old(p), *c).len() <= ring_capacity(
                *old(p),
            ) ==> {
                &&& ring_paired(*final(p), *c)
                &&& r.0 == admitted(
                    ring_capacity(*old(p)) - ring_items(*old(p), *c).len(),
                    block@.len() as int,
                )
                &&& ring_items(*final(p), *c) == ring_items(*old(p), *c) + block@.take(
                    r.0 as int,
                )
            },
            None => true,
        },
{
    let ghost mut outcomes: Seq<bool> = Seq::empty();
    let mut accepted: usize = 0;
    let mut i: usize = 0;
    proof {
        assert(block@.take(0) =~= Seq::<u32>::empty());
        assert(ring_sent(*p) + Seq::<u32>::empty() =~= ring_sent(*p));
    }
    while i < block.len()
        invariant
            i <= block@.len(),
            accepted <= i,
            ring_capacity(*p) == ring_capacity(*old(p)),
            wrote(
                ring_sent(*old(p)),
                block@.take(i as int),
                outcomes,
                ring_sent(*p),
                accepted as nat,
            ),
            match reader {
                Some(c) => ring_paired(*old(p), *c) && ring_items(*old(p), *c).len()
                    <= ring_capacity(*old(p)) ==> {
                    &&& ring_paired(*p, *c)
                    &&& accepted == admitted(
                        ring_capacity(*old(p)) - ring_items(*old(p), *c).len(),
                        i as int,
                    )
                    &&& ring_items(*p, *c) == ring_items(*old(p), *c) + block@.take(
                        accepted as int,
                    )
                },
                None => true,
            },
        decreases block@.len() - i,
    {
        let ghost before = accepted;
        let ghost told = outcomes;
        let ghost sent = ring_sent(*p);
        let ok = ring_push(p, reader, block[i]);
        if ok {
            accepted += 1;
        }
        i += 1;
        proof {
            outcomes = told.push(ok);
            if accepted > before {
                assert(block@.take(accepted as int) =~= block@.take(before as int).push(
                    block@[before as int],
                ));
            }
            let offered = block@.take(i as int);
            assert(offered.drop_last() =~= block@.take(i - 1));
            assert(outcomes.drop_last() =~= told);
            assert(offered.last() == block@[i - 1]);
            if ok {
                assert(ring_sent(*old(p)) + kept(offered, outcomes) =~= sent.push(block@[i - 1]));
            }
        }
    }
    proof {
        assert(block@.take(block@.len() as int) =~= block@);
    }
    (accepted, Ghost(outcomes))
}

/// The end of a queue that the capture callback holds. The other end may be
/// read at any moment, from another thread.
pub struct CaptureSink {
    producer: Producer<u32>,
}

impl CaptureSink {
    /// The half of the ring that the sink writes to.
    pub(crate) closed spec fn half(&self) -> Producer<u32> {
        self.producer
    }

    /// The sink on the producing half of a ring.
    pub(crate) fn on(producer: Producer<u32>) -> (sink: CaptureSink)
        ensures
            sink.half() == producer,
    {
        CaptureSink { producer }
    }

    /// The samples that have got into the queue through this sink, in the
    /// order in which they got in, whether they still wait there or not.
    pub closed spec fn sent(&self) -> Seq<u32> {
        ring_sent(self.producer)
    }

    /// Offers each sample of `block` to the queue once, in the order of the
    /// block, and returns how many got in. A sample that finds the queue full
    /// is dropped. Those that get in do so behind all that got in before, in
    /// the order of the block; whether a sample gets in is for the queue to
    /// say, which the other end may empty meanwhile.
    pub fn write(&mut self, block: &[u32]) -> (accepted: usize)
        ensures
            accepted <= block@.len(),
            exists|outcomes: Seq<bool>|
                #![trigger kept(block@, outcomes)]
                wrote(old(self).sent(), block@, outcomes, final(self).sent(), accepted as nat),
            accepted == block@.len() ==> final(self).sent() == old(self).sent() + block@,
            accepted == 0 ==> final(self).sent() == old(self).sent(),
    {
        let (accepted, Ghost(outcomes)) = push_each(&mut self.producer, None, block);
        proof {
            assert(wrote(old(self).sent(), block@, outcomes, self.sent(), accepted as nat));
            if accepted == block@.len() {
                lemma_all_kept(block@, outcomes);
            }
            if accepted == 0 {
                assert(kept(block@, outcomes) =~= Seq::<u32>::empty());
                assert(old(self).sent() + Seq::<u32>::empty() =~= old(self).sent());
            }
        }
        accepted
    }
}

} // verus!
