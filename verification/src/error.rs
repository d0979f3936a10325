//! What can be wrong with a configuration.
use vstd::prelude::*;

verus! {

/// Why a queue or a filter could not be made.
#[derive(Clone, Copy, Debug, PartialEq, Eq, Structural)]
pub enum ConfigError {
    /// A delay line was asked to hold no sample at all.
    ZeroLength,
    /// More samples were asked for than `MAX_FRAMES`.
    TooLong,
}

impl ConfigError {
    /// The failure in words.
    pub fn describe(&self) -> (text: &'static str)
        ensures
            text@ == match *self {
                ConfigError::ZeroLength => "a delay line must hold at least one sample"@,
                ConfigError::TooLong => "more samples were asked for than a ring can hold"@,
            },
    {
        match self {
            ConfigError::ZeroLength => "a delay line must hold at least one sample",
            ConfigError::TooLong => "more samples were asked for than a ring can hold",
        }
    }
}

} // verus!
