//! The signal path of a live audio effect: a bounded queue that hands samples
//! from a capture callback to a playback callback, and the filters that the
//! playback side runs on them.
//!
//! A sample travels as a 32-bit word (for IEEE single precision, its bit
//! pattern). The crate stores and moves words and decides where each one
//! goes; it never computes with them. The three computations that the filters
//! need are handed in by the caller as a [`kernel::Kernel`].
use vstd::prelude::*;

pub mod capture;
pub mod config;
pub mod delay;
pub mod distort;
pub mod error;
pub mod filter;
pub mod flange;
pub mod kernel;
pub mod path;
pub mod playback;
pub mod queue;
pub mod ring;
pub mod session;
