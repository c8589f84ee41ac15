//! The ways in which decoding a container can fail.

use vstd::prelude::*;

verus! {

/// A fatal decoding failure.
#[derive(Clone, Copy, Debug, PartialEq, Eq, Structural)]
pub enum ContainerError {
    /// The container does not begin with the magic bytes `DMA\0`.
    BadMagic,
    /// A fixed-width read ran past the end of the stream.
    Truncated,
    /// A seek asked for a position below zero or above `u64::MAX`.
    InvalidSeek,
}

} // verus!
