//! The bounded queue between the capture side and the playback side.
use crate::capture::admitted;
use crate::error::ConfigError;
use crate::ring::{
    ring_capacity, ring_is_full, ring_items, ring_len, ring_new, ring_paired, ring_pop,
    ring_push, ring_split, MAX_FRAMES,
};
use ringbuf::{Consumer, Producer};
use vstd::prelude::*;

verus! {

/// What a queue holds after one push of `x`: the sample behind all others if
/// there was room, and what it held before if there was none.
pub open spec fn after_push(items: Seq<u32>, capacity: nat, x: u32) -> Seq<u32> {
    if items.len() < capacity {
        items.push(x)
    } else {
        items
    }
}

/// What one pop hands out: the oldest sample, or nothing from an empty queue.
pub open spec fn popped(items: Seq<u32>) -> Option<u32> {
    if items.len() > 0 {
        Some(items[0])
    } else {
        None
    }
}

/// What a queue holds after one pop.
pub open spec fn after_pop(items: Seq<u32>) -> Seq<u32> {
    if items.len() > 0 {
        items.drop_first()
    } else {
        items
    }
}

/// A first-in first-out queue of samples with a fixed capacity, held in one
/// place with both of its ends.
pub struct SampleQueue {
    pub(crate) producer: Producer<u32>,
    pub(crate) consumer: Consumer<u32>,
    pub(crate) capacity: usize,
}

impl View for SampleQueue {
    type V = Seq<u32>;

    /// The samples that wait, the oldest first.
    closed spec fn view(&self) -> Seq<u32> {
        ring_items(self.producer, self.consumer)
    }
}

impl SampleQueue {
    /// The two ends belong together and no more samples wait than fit.
    pub closed spec fn wf(&self) -> bool {
        &&& ring_paired(self.producer, self.consumer)
        &&& ring_capacity(self.producer) == self.capacity
        &&& ring_items(self.producer, self.consumer).len() <= self.capacity
    }

    /// The number of samples that the queue was made for.
    pub closed spec fn spec_capacity(&self) -> nat {
        self.capacity as nat
    }

    /// What the view and the well-formedness of a queue say of its two ends.
    pub(crate) proof fn lemma_unfold(&self)
        ensures
            self@ == ring_items(self.producer, self.consumer),
            self.spec_capacity() == self.capacity,
            self.wf() <==> {
                &&& ring_paired(self.producer, self.consumer)
                &&& ring_capacity(self.producer) == self.capacity
                &&& ring_items(self.producer, self.consumer).len() <= self.capacity
            },
    {
    }

    /// A well-formed queue never holds more than its capacity.
    pub proof fn lemma_bounded(&self)
        requires
            self.wf(),
        ensures
            self@.len() <= self.spec_capacity(),
    {
    }

    /// An empty queue for `capacity` samples. A capacity above `MAX_FRAMES`
    /// is refused, and nothing else is.
    pub fn new(capacity: usize) -> (r: Result<SampleQueue, ConfigError>)
        ensures
            capacity > MAX_FRAMES <==> r == Err::<SampleQueue, ConfigError>(ConfigError::TooLong),
            capacity <= MAX_FRAMES <==> r is Ok,
            r matches Ok(q) ==> q.wf() && q.spec_capacity() == capacity && q@ == Seq::<
                u32,
            >::empty(),
    {
        if capacity > MAX_FRAMES {
            return Err(ConfigError::TooLong);
        }
        let (producer, consumer) = ring_split(ring_new(capacity));
        Ok(SampleQueue { producer, consumer, capacity })
    }

    /// The number of samples that the queue was made for.
    pub fn capacity(&self) -> (n: usize)
        requires
            self.wf(),
        ensures
            n == self.spec_capacity(),
    {
        self.capacity
    }

    /// The number of samples that wait; never more than the capacity.
    pub fn len(&self) -> (n: usize)
        requires
            self.wf(),
        ensures
            n == self@.len(),
            n <= self.spec_capacity(),
    {
        ring_len(&self.producer, &self.consumer)
    }

    /// Whether no sample waits.
    pub fn is_empty(&self) -> (b: bool)
        requires
            self.wf(),
        ensures
            b == (self@.len() == 0),
    {
        ring_len(&self.producer, &self.consumer) == 0
    }

    /// Whether as many samples wait as the queue was made for.
    pub fn is_full(&self) -> (b: bool)
        requires
            self.wf(),
        ensures
            b == (self@.len() == self.spec_capacity()),
    {
        ring_is_full(&self.producer, &self.consumer)
    }

    /// Appends `sample` if there is room and tells whether it did. On a full
    /// queue the new sample is dropped and the queue stays as it was.
    pub fn try_push(&mut self, sample: u32) -> (ok: bool)
        requires
            old(self).wf(),
        ensures
            final(self).wf(),
            final(self).spec_capacity() == old(self).spec_capacity(),
            ok == (old(self)@.len() < old(self).spec_capacity()),
            final(self)@ == after_push(old(self)@, old(self).spec_capacity(), sample),
            final(self)@.len() <= final(self).spec_capacity(),
    {
        ring_push(&mut self.producer, Some(&self.consumer), sample)
    }

    /// Removes the oldest sample and returns it; from an empty queue returns
    /// `None` and leaves the queue empty.
    pub fn try_pop(&mut self) -> (r: Option<u32>)
        requires
            old(self).wf(),
        ensures
            final(self).wf(),
            final(self).spec_capacity() == old(self).spec_capacity(),
            r == popped(old(self)@),
            final(self)@ == after_pop(old(self)@),
            final(self)@.len() <= final(self).spec_capacity(),
    {
        ring_pop(&mut self.consumer, Some(&self.producer))
    }
}

/// One use of a queue: a push of a sample, or a pop.
pub enum QueueOp {
    /// A push of this sample.
    Push(u32),
    /// A pop.
    Pop,
}

/// What a queue holds after one use of it.
pub open spec fn after_op(items: Seq<u32>, capacity: nat, op: QueueOp) -> Seq<u32> {
    match op {
        QueueOp::Push(x) => after_push(items, capacity, x),
        QueueOp::Pop => after_pop(items),
    }
}

/// What a queue holds after the uses `ops`, one after the other.
pub open spec fn after_ops(items: Seq<u32>, capacity: nat, ops: Seq<QueueOp>) -> Seq<u32>
    decreases ops.len(),
{
    if ops.len() == 0 {
        items
    } else {
        after_op(after_ops(items, capacity, ops.drop_last()), capacity, ops.last())
    }
}

/// What a queue holds after a push of each sample of `block`, in their order.
pub open spec fn after_pushes(items: Seq<u32>, capacity: nat, block: Seq<u32>) -> Seq<u32>
    decreases block.len(),
{
    if block.len() == 0 {
        items
    } else {
        after_push(after_pushes(items, capacity, block.drop_last()), capacity, block.last())
    }
}

/// Bounds: whatever pushes and pops are made, in whatever order, a queue
/// that held no more than its capacity holds no more than its capacity, and
/// a pop from it when it is empty hands out nothing.
pub proof fn lemma_queue_bounds(items: Seq<u32>, capacity: nat, ops: Seq<QueueOp>)
    requires
        items.len() <= capacity,
    ensures
        after_ops(items, capacity, ops).len() <= capacity,
        after_ops(items, capacity, ops).len() == 0 ==> popped(after_ops(items, capacity, ops))
            is None,
    decreases ops.len(),
{
    if ops.len() > 0 {
        lemma_queue_bounds(items, capacity, ops.drop_last());
    }
}

/// Overflow: of the samples pushed with no pop between them, those stay that
/// found room, which are the first ones, in the order in which they came.
/// Pushed into an empty queue, one sample more than its capacity leaves the
/// queue with all but the last of them.
pub proof fn lemma_overflow_drops_newest(items: Seq<u32>, capacity: nat, block: Seq<u32>)
    requires
        items.len() <= capacity,
    ensures
        after_pushes(items, capacity, block) == items + block.take(
            admitted(capacity - items.len(), block.len() as int),
        ),
        items.len() == 0 && block.len() == capacity + 1 ==> after_pushes(items, capacity, block)
            == block.drop_last(),
    decreases block.len(),
{
    let room = capacity - items.len();
    if block.len() == 0 {
        assert(block.take(0) =~= Seq::<u32>::empty());
        assert(items + Seq::<u32>::empty() =~= items);
    } else {
        let front = block.drop_last();
        lemma_overflow_drops_newest(items, capacity, front);
        let kept = admitted(room, front.len() as int);
        assert(front.take(kept) =~= block.take(kept));
        if block.len() <= room {
            assert(block.take(block.len() as int) =~= front.take(kept).push(block.last()));
            assert(items + block.take(block.len() as int) =~= (items + front.take(kept)).push(
                block.last(),
            ));
        }
    }
    if items.len() == 0 && block.len() == capacity + 1 {
        assert(items + block.take(capacity as int) =~= block.drop_last());
    }
}

} // verus!
