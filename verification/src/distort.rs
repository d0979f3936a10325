//! The distortion: every sample is amplified and then held within a bound.
use vstd::prelude::*;

verus! {

/// What a distortion filter is: its gain and its saturation bound.
pub struct DistortView {
    /// The gain in front of the clip.
    pub gain: u32,
    /// The bound at which the filter clips.
    pub saturation: u32,
}

/// A hard clip behind a linear gain. It keeps nothing from one sample to the
/// next.
#[derive(Clone, Copy, Debug)]
pub struct DistortFilter {
    gain: u32,
    saturation: u32,
}

impl View for DistortFilter {
    type V = DistortView;

    closed spec fn view(&self) -> DistortView {
        DistortView { gain: self.gain, saturation: self.saturation }
    }
}

impl DistortFilter {
    /// A filter with the gain and the saturation bound given.
    pub fn new(gain: u32, saturation: u32) -> (f: DistortFilter)
        ensures
            f@ == (DistortView { gain, saturation }),
    {
        DistortFilter { gain, saturation }
    }

    /// The sample, amplified and clipped by `clip`.
    pub fn filter<C: Fn(u32, u32, u32) -> u32>(&self, sample: u32, clip: &C) -> (y: u32)
        requires
            forall|x: u32, g: u32, s: u32| #[trigger] clip.requires((x, g, s)),
        ensures
            clip.ensures((sample, self@.gain, self@.saturation), y),
    {
        clip(sample, self.gain, self.saturation)
    }
}

} // verus!
