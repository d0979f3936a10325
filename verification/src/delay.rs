//! The feedback echo: every output is fed back into a line of fixed length
//! and comes out again, decayed, that many samples later.
use crate::error::ConfigError;
use crate::kernel::SILENCE;
use crate::queue::SampleQueue;
use crate::ring::MAX_FRAMES;
use vstd::prelude::*;

verus! {

/// What a delay filter is: the outputs that are still on their way through
/// the line, the oldest first, and the decay gain.
pub struct DelayView {
    /// The outputs in the line, the oldest first.
    pub history: Seq<u32>,
    /// The gain at which an echo comes back.
    pub decay: u32,
}

impl DelayView {
    /// The line of a new filter: `frames` samples of silence.
    pub open spec fn silent(frames: nat, decay: u32) -> DelayView {
        DelayView { history: Seq::new(frames, |i: int| SILENCE), decay }
    }

    /// The sample that leaves the line at the next step.
    pub open spec fn oldest(self) -> u32 {
        self.history[0]
    }

    /// The filter after a step whose output was `y`: the oldest sample is
    /// gone and `y` is the newest.
    pub open spec fn shifted(self, y: u32) -> DelayView {
        DelayView { history: self.history.drop_first().push(y), decay: self.decay }
    }

    /// The filter after the steps whose outputs were `ys`, in their order.
    pub open spec fn after_outputs(self, ys: Seq<u32>) -> DelayView
        decreases ys.len(),
    {
        if ys.len() == 0 {
            self
        } else {
            self.after_outputs(ys.drop_last()).shifted(ys.last())
        }
    }
}

/// The lag of the echo: in a filter that started with a line of `frames`
/// samples of silence, the sample that the next step mixes in is the output
/// of the step `frames` steps before it, and silence as long as there was no
/// such step.
pub proof fn lemma_echo_lag(frames: nat, decay: u32, ys: Seq<u32>)
    requires
        frames >= 1,
    ensures
        DelayView::silent(frames, decay).after_outputs(ys).history.len() == frames,
        DelayView::silent(frames, decay).after_outputs(ys).decay == decay,
        DelayView::silent(frames, decay).after_outputs(ys).oldest() == if ys.len() < frames {
            SILENCE
        } else {
            ys[ys.len() - frames]
        },
{
    lemma_line_holds_the_last(frames, decay, ys);
}

/// The line holds the last outputs, behind what is left of the silence it
/// started with.
proof fn lemma_line_holds_the_last(frames: nat, decay: u32, ys: Seq<u32>)
    requires
        frames >= 1,
    ensures
        DelayView::silent(frames, decay).after_outputs(ys) == (DelayView {
            history: (Seq::new(frames, |i: int| SILENCE) + ys).skip(ys.len() as int),
            decay,
        }),
    decreases ys.len(),
{
    let start = DelayView::silent(frames, decay);
    let quiet = Seq::new(frames, |i: int| SILENCE);
    if ys.len() == 0 {
        assert((quiet + ys).skip(0) =~= quiet);
    } else {
        let front = ys.drop_last();
        lemma_line_holds_the_last(frames, decay, front);
        assert((quiet + front).skip(front.len() as int).drop_first().push(ys.last()) =~= (quiet
            + ys).skip(ys.len() as int));
    }
}

/// A feedback echo with a fixed lag.
pub struct DelayFilter {
    line: SampleQueue,
    decay: u32,
}

impl View for DelayFilter {
    type V = DelayView;

    closed spec fn view(&self) -> DelayView {
        DelayView { history: self.line@, decay: self.decay }
    }
}

impl DelayFilter {
    /// The line is full, and it holds at least one sample.
    pub closed spec fn wf(&self) -> bool {
        &&& self.line.wf()
        &&& self.line.spec_capacity() >= 1
        &&& self.line@.len() == self.line.spec_capacity()
    }

    /// The line of a well-formed filter is never empty.
    pub proof fn lemma_line_not_empty(&self)
        requires
            self.wf(),
        ensures
            self@.history.len() >= 1,
    {
    }

    /// A filter whose line holds `delay_frames` samples of silence. A line of
    /// no samples and a line longer than `MAX_FRAMES` are refused.
    pub fn new(delay_frames: usize, decay: u32) -> (r: Result<DelayFilter, ConfigError>)
        ensures
            delay_frames == 0 <==> r == Err::<DelayFilter, ConfigError>(ConfigError::ZeroLength),
            delay_frames > MAX_FRAMES <==> r == Err::<DelayFilter, ConfigError>(
                ConfigError::TooLong,
            ),
            0 < delay_frames <= MAX_FRAMES <==> r is Ok,
            r matches Ok(f) ==> f.wf() && f@ == DelayView::silent(delay_frames as nat, decay),
    {
        if delay_frames == 0 {
            return Err(ConfigError::ZeroLength);
        }
        let mut line = match SampleQueue::new(delay_frames) {
            Ok(q) => q,
            Err(e) => {
                return Err(e);
            },
        };
        while !line.is_full()
            invariant
                line.wf(),
                line.spec_capacity() == delay_frames,
                line@ == Seq::new(line@.len(), |i: int| SILENCE),
            decreases delay_frames - line@.len(),
        {
            line.try_push(SILENCE);
        }
        Ok(DelayFilter { line, decay })
    }

    /// One step of the echo: the oldest sample of the line is mixed into
    /// `sample`, and the result is returned and becomes the newest sample of
    /// the line.
    pub fn filter<M: Fn(u32, u32, u32) -> u32>(&mut self, sample: u32, mix: &M) -> (y: u32)
        requires
            old(self).wf(),
            forall|x: u32, h: u32, g: u32| #[trigger] mix.requires((x, h, g)),
        ensures
            final(self).wf(),
            mix.ensures((sample, old(self)@.oldest(), old(self)@.decay), y),
            final(self)@ == old(self)@.shifted(y),
    {
        let last = self.line.try_pop().unwrap();
        let result = mix(sample, last, self.decay);
        self.line.try_push(result);
        result
    }
}

} // verus!
