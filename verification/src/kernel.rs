//! The computations on samples that the filters leave to their caller.
use vstd::prelude::*;

verus! {

/// The word that stands for an amplitude of zero.
pub const SILENCE: u32 = 0;

/// The three computations that the filters need and this crate does not do.
///
/// `lfo(t, coefficient, amplitude)` is the sweep of the flange's oscillator
/// after `t` samples, in whole samples. `mix(x, h, decay)` is an input sample
/// with a decayed sample of the past added to it. `clip(x, gain, saturation)`
/// is an amplified sample held within the saturation bound.
pub struct Kernel<L, M, C> {
    /// The sweep of the oscillator.
    pub lfo: L,
    /// The sum of a sample and a decayed sample of the past.
    pub mix: M,
    /// The amplified sample, held within the bound.
    pub clip: C,
}

impl<L, M, C> Kernel<L, M, C> where
    L: Fn(u64, u32, u32) -> usize,
    M: Fn(u32, u32, u32) -> u32,
    C: Fn(u32, u32, u32) -> u32,
 {
    /// Each of the three computations accepts every input.
    pub open spec fn total(&self) -> bool {
        &&& forall|t: u64, c: u32, a: u32| #[trigger] self.lfo.requires((t, c, a))
        &&& forall|x: u32, h: u32, g: u32| #[trigger] self.mix.requires((x, h, g))
        &&& forall|x: u32, g: u32, s: u32| #[trigger] self.clip.requires((x, g, s))
    }

    /// A kernel of the three computations given.
    pub fn new(lfo: L, mix: M, clip: C) -> (k: Self)
        ensures
            k.lfo == lfo,
            k.mix == mix,
            k.clip == clip,
    {
        Kernel { lfo, mix, clip }
    }
}

} // verus!
