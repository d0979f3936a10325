//! The whole signal path in one place: the queue with both of its ends and
//! the filter. Held like this, nothing else touches the queue, and what
//! capture and playback do is known exactly. For a capture callback and a
//! playback callback that run apart, the path is split into its two ends.
use crate::capture::{admitted, push_each, CaptureSink};
use crate::error::ConfigError;
use crate::filter::{Filter, FilterView};
use crate::kernel::Kernel;
use crate::playback::{
    lemma_empty_supply, lemma_underrun, pop_each, rendered, run_after, silence, supply,
    PlaybackSource,
};
use crate::queue::SampleQueue;
use crate::ring::MAX_FRAMES;
use vstd::prelude::*;

verus! {

/// What a signal path is: the samples that wait between capture and
/// playback, the oldest first, the number of them that can wait at most, and
/// the filter.
pub struct PathView {
    /// The samples that wait, the oldest first.
    pub waiting: Seq<u32>,
    /// The number of samples that can wait at most.
    pub capacity: nat,
    /// What the filter is.
    pub filter: FilterView,
}

/// A queue and the filter behind it.
pub struct SignalPath {
    queue: SampleQueue,
    filter: Filter,
}

impl View for SignalPath {
    type V = PathView;

    closed spec fn view(&self) -> PathView {
        PathView {
            waiting: self.queue@,
            capacity: self.queue.spec_capacity(),
            filter: self.filter@,
        }
    }
}

impl SignalPath {
    /// The queue and the filter are well formed.
    pub closed spec fn wf(&self) -> bool {
        &&& self.queue.wf()
        &&& self.filter.wf()
    }

    /// No more samples wait in a well-formed path than its queue was made
    /// for.
    pub proof fn lemma_bounded(&self)
        requires
            self.wf(),
        ensures
            self@.waiting.len() <= self@.capacity,
    {
        self.queue.lemma_bounded();
    }

    /// A path with an empty queue for `queue_capacity` samples in front of
    /// `filter`. A capacity above `MAX_FRAMES` is refused, and nothing else
    /// is.
    pub fn new(queue_capacity: usize, filter: Filter) -> (r: Result<SignalPath, ConfigError>)
        requires
            filter.wf(),
        ensures
            queue_capacity > MAX_FRAMES <==> r == Err::<SignalPath, ConfigError>(
                ConfigError::TooLong,
            ),
            queue_capacity <= MAX_FRAMES <==> r is Ok,
            r matches Ok(path) ==> path.wf() && path@ == (PathView {
                waiting: Seq::<u32>::empty(),
                capacity: queue_capacity as nat,
                filter: filter@,
            }),
    {
        match SampleQueue::new(queue_capacity) {
            Ok(queue) => Ok(SignalPath { queue, filter }),
            Err(e) => Err(e),
        }
    }

    /// Capture: the samples of `block` go into the queue in their order, as
    /// far as there is room. Those that find the queue full are dropped. The
    /// number of samples that got in is returned.
    pub fn capture(&mut self, block: &[u32]) -> (accepted: usize)
        requires
            old(self).wf(),
        ensures
            final(self).wf(),
            accepted == admitted(
                old(self)@.capacity - old(self)@.waiting.len(),
                block@.len() as int,
            ),
            final(self)@ == (PathView {
                waiting: old(self)@.waiting + block@.take(accepted as int),
                ..old(self)@
            }),
    {
        proof {
            self.queue.lemma_unfold();
        }
        let (accepted, _) = push_each(
            &mut self.queue.producer,
            Some(&self.queue.consumer),
            block,
        );
        proof {
            self.queue.lemma_unfold();
        }
        accepted
    }

    /// Playback: every slot of `out` is filled, the first ones with the
    /// outputs of the filter on the samples that wait, in their order, and,
    /// once the queue is empty, the rest with silence, for which the filter
    /// is left alone. The number of samples that were taken is returned.
    pub fn playback<L, M, C>(&mut self, out: &mut [u32], kernel: &Kernel<L, M, C>) -> (count:
        usize) where
        L: Fn(u64, u32, u32) -> usize,
        M: Fn(u32, u32, u32) -> u32,
        C: Fn(u32, u32, u32) -> u32,

        requires
            old(self).wf(),
            kernel.total(),
        ensures
            final(self).wf(),
            final(out)@.len() == old(out)@.len(),
            count == admitted(old(self)@.waiting.len() as int, old(out)@.len() as int),
            rendered(
                old(self)@.filter,
                supply(old(self)@.waiting, old(out)@.len()),
                *kernel,
                final(out)@,
            ),
            final(self)@ == (PathView {
                waiting: old(self)@.waiting.skip(count as int),
                capacity: old(self)@.capacity,
                filter: run_after(
                    old(self)@.filter,
                    supply(old(self)@.waiting, old(out)@.len()),
                    final(out)@,
                ),
            }),
            old(self)@.waiting.len() == 0 ==> {
                &&& final(out)@ == silence(old(out)@.len())
                &&& final(self)@ == old(self)@
            },
    {
        proof {
            self.queue.lemma_unfold();
            if self@.waiting.len() == 0 {
                assert(self@.waiting =~= Seq::<u32>::empty());
                assert(self@.waiting.skip(0) =~= self@.waiting);
            }
        }
        let ghost slots = out@.len();
        let (count, _) = pop_each(
            &mut self.queue.consumer,
            Some(&self.queue.producer),
            &mut self.filter,
            out,
            kernel,
        );
        proof {
            self.queue.lemma_unfold();
            if old(self)@.waiting.len() == 0 {
                lemma_empty_supply(slots);
                lemma_underrun(old(self)@.filter, *kernel, slots, out@);
            }
        }
        count
    }

    /// The two ends of the path, for a capture callback and a playback
    /// callback that run apart. The samples that wait stay in the queue, and
    /// the filter goes with the playing end.
    pub fn split(self) -> (ends: (CaptureSink, PlaybackSource))
        requires
            self.wf(),
        ensures
            ends.1.wf(),
            ends.1.filter() == self@.filter,
            ends.1.fed_by(&ends.0),
            ends.1.waiting(&ends.0) == self@.waiting,
    {
        proof {
            self.queue.lemma_unfold();
        }
        let SignalPath { queue, filter } = self;
        let SampleQueue { producer, consumer, capacity: _ } = queue;
        let sink = CaptureSink::on(producer);
        let source = PlaybackSource::on(consumer, filter);
        proof {
            source.lemma_unfold(&sink);
        }
        (sink, source)
    }
}

} // verus!
