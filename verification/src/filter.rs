//! The filter that is at work: one of four, chosen when the stream is set up.
use crate::delay::{DelayFilter, DelayView};
use crate::distort::{DistortFilter, DistortView};
use crate::flange::{FlangeFilter, FlangeView};
use crate::kernel::Kernel;
use vstd::prelude::*;

verus! {

/// What a filter is: which of the four, and what that one is.
pub enum FilterView {
    /// The filter that changes nothing.
    PassThrough,
    /// A feedback echo at a fixed lag.
    Delay(DelayView),
    /// A feedback echo at a swept lag.
    Flange(FlangeView),
    /// A hard clip behind a gain.
    Distort(DistortView),
}

impl FilterView {
    /// Whether `y` may be the output of the next step on input `x`, with the
    /// computations of `kernel`.
    pub open spec fn output<L, M, C>(self, x: u32, kernel: Kernel<L, M, C>, y: u32) -> bool where
        L: Fn(u64, u32, u32) -> usize,
        M: Fn(u32, u32, u32) -> u32,
        C: Fn(u32, u32, u32) -> u32,
     {
        match self {
            FilterView::PassThrough => y == x,
            FilterView::Delay(d) => kernel.mix.ensures((x, d.oldest(), d.decay), y),
            FilterView::Flange(f) => f.output(x, kernel.lfo, kernel.mix, y),
            FilterView::Distort(s) => kernel.clip.ensures((x, s.gain, s.saturation), y),
        }
    }

    /// The filter after a step whose output was `y`.
    pub open spec fn after(self, y: u32) -> FilterView {
        match self {
            FilterView::PassThrough => self,
            FilterView::Delay(d) => FilterView::Delay(d.shifted(y)),
            FilterView::Flange(f) => FilterView::Flange(f.written(y).ticked()),
            FilterView::Distort(_) => self,
        }
    }
}

/// A transform of one sample into one sample.
pub enum Filter {
    /// The output is the input.
    PassThrough,
    /// A feedback echo at a fixed lag.
    Delay(DelayFilter),
    /// A feedback echo at a swept lag.
    Flange(FlangeFilter),
    /// A hard clip behind a gain.
    Distort(DistortFilter),
}

impl View for Filter {
    type V = FilterView;

    open spec fn view(&self) -> FilterView {
        match self {
            Filter::PassThrough => FilterView::PassThrough,
            Filter::Delay(d) => FilterView::Delay(d@),
            Filter::Flange(f) => FilterView::Flange(f@),
            Filter::Distort(s) => FilterView::Distort(s@),
        }
    }
}

impl Filter {
    /// The filter inside is well formed.
    pub open spec fn wf(&self) -> bool {
        match self {
            Filter::PassThrough => true,
            Filter::Delay(d) => d.wf(),
            Filter::Flange(f) => f.wf(),
            Filter::Distort(_) => true,
        }
    }

    /// One step of the filter on `sample`.
    pub fn apply<L, M, C>(&mut self, sample: u32, kernel: &Kernel<L, M, C>) -> (y: u32) where
        L: Fn(u64, u32, u32) -> usize,
        M: Fn(u32, u32, u32) -> u32,
        C: Fn(u32, u32, u32) -> u32,

        requires
            old(self).wf(),
            kernel.total(),
        ensures
            final(self).wf(),
            old(self)@.output(sample, *kernel, y),
            final(self)@ == old(self)@.after(y),
    {
        match self {
            Filter::PassThrough => sample,
            Filter::Delay(d) => d.filter(sample, &kernel.mix),
            Filter::Flange(f) => f.filter(sample, &kernel.lfo, &kernel.mix),
            Filter::Distort(s) => s.filter(sample, &kernel.clip),
        }
    }
}

} // verus!
