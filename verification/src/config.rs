//! The configuration of a signal path, read once when the stream is set up.
use crate::delay::{DelayFilter, DelayView};
use crate::distort::{DistortFilter, DistortView};
use crate::error::ConfigError;
use crate::filter::{Filter, FilterView};
use crate::flange::{FlangeFilter, FlangeView};
use crate::path::{PathView, SignalPath};
use crate::ring::MAX_FRAMES;
use vstd::prelude::*;

verus! {

/// Which of the four filters is at work.
#[derive(Clone, Copy, Debug, PartialEq, Eq, Structural)]
pub enum FilterVariant {
    /// The output is the input.
    PassThrough,
    /// A feedback echo at a fixed lag.
    Delay,
    /// A feedback echo at a swept lag.
    Flange,
    /// A hard clip behind a gain.
    Distort,
}

/// What a signal path is made from. The lengths are counted in samples; the
/// gains, the bound and the two numbers of the oscillator are words that only
/// the kernel reads.
#[derive(Clone, Copy, Debug)]
pub struct Config {
    /// The filter that is at work.
    pub filter_variant: FilterVariant,
    /// The length of the delay line, for the two filters that have one.
    pub delay_length: usize,
    /// The gain at which an echo comes back.
    pub decay_gain: u32,
    /// What one sample adds to the argument of the flange's oscillator.
    pub lfo_coefficient: u32,
    /// How far the flange's oscillator sweeps to either side, in samples.
    pub lfo_amplitude: u32,
    /// The gain in front of the clip.
    pub distortion_gain: u32,
    /// The bound at which the distortion clips.
    pub saturation_bound: u32,
    /// The number of samples that may wait between capture and playback.
    pub queue_capacity: usize,
}

impl Config {
    /// Whether the filter asked for has a delay line.
    pub open spec fn has_line(&self) -> bool {
        self.filter_variant == FilterVariant::Delay || self.filter_variant
            == FilterVariant::Flange
    }

    /// What is wrong with the filter asked for, if anything is: a delay line
    /// of no samples, or one of too many.
    pub open spec fn filter_fault(&self) -> Option<ConfigError> {
        if self.has_line() && self.delay_length == 0 {
            Some(ConfigError::ZeroLength)
        } else if self.has_line() && self.delay_length > MAX_FRAMES {
            Some(ConfigError::TooLong)
        } else {
            None
        }
    }

    /// What is wrong with the configuration, if anything is: what is wrong
    /// with the filter, or else a queue for too many samples.
    pub open spec fn fault(&self) -> Option<ConfigError> {
        if self.filter_fault() is Some {
            self.filter_fault()
        } else if self.queue_capacity > MAX_FRAMES {
            Some(ConfigError::TooLong)
        } else {
            None
        }
    }

    /// The filter asked for, as it is before the first sample.
    pub open spec fn fresh_filter(&self) -> FilterView {
        match self.filter_variant {
            FilterVariant::PassThrough => FilterView::PassThrough,
            FilterVariant::Delay => FilterView::Delay(
                DelayView::silent(self.delay_length as nat, self.decay_gain),
            ),
            FilterVariant::Flange => FilterView::Flange(
                FlangeView::silent(
                    self.delay_length as nat,
                    self.lfo_coefficient,
                    self.lfo_amplitude,
                    self.decay_gain,
                ),
            ),
            FilterVariant::Distort => FilterView::Distort(
                DistortView { gain: self.distortion_gain, saturation: self.saturation_bound },
            ),
        }
    }

    /// Makes the filter asked for, or says what is wrong with it.
    pub fn build_filter(&self) -> (r: Result<Filter, ConfigError>)
        ensures
            match r {
                Ok(filter) => self.filter_fault() is None && filter.wf() && filter@
                    == self.fresh_filter(),
                Err(e) => self.filter_fault() == Some(e),
            },
    {
        match self.filter_variant {
            FilterVariant::PassThrough => Ok(Filter::PassThrough),
            FilterVariant::Delay => match DelayFilter::new(self.delay_length, self.decay_gain) {
                Ok(d) => Ok(Filter::Delay(d)),
                Err(e) => Err(e),
            },
            FilterVariant::Flange => match FlangeFilter::new(
                self.delay_length,
                self.lfo_coefficient,
                self.lfo_amplitude,
                self.decay_gain,
            ) {
                Ok(f) => Ok(Filter::Flange(f)),
                Err(e) => Err(e),
            },
            FilterVariant::Distort => Ok(
                Filter::Distort(DistortFilter::new(self.distortion_gain, self.saturation_bound)),
            ),
        }
    }

    /// Makes the signal path asked for, with nothing waiting in its queue, or
    /// says what is wrong with the configuration.
    pub fn build(&self) -> (r: Result<SignalPath, ConfigError>)
        ensures
            match r {
                Ok(path) => self.fault() is None && path.wf() && path@ == (PathView {
                    waiting: Seq::<u32>::empty(),
                    capacity: self.queue_capacity as nat,
                    filter: self.fresh_filter(),
                }),
                Err(e) => self.fault() == Some(e),
            },
    {
        let filter = match self.build_filter() {
            Ok(filter) => filter,
            Err(e) => {
                return Err(e);
            },
        };
        SignalPath::new(self.queue_capacity, filter)
    }
}

} // verus!
