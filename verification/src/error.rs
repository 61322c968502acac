//! The error type shared by all fallible segment and source operations.

use vstd::prelude::*;

verus! {

/// Why an offset, position or read request was rejected.
///
/// Bounds violations are permanent for the given arguments: a failed
/// operation leaves the segment untouched, and retrying with the same
/// arguments yields the same error.  `NoMoreData` is a distinguished
/// end-of-data signal so that consumption loops can tell a clean end from a
/// truncated read.
#[derive(Clone, Copy, Debug, PartialEq, Eq, Structural)]
pub enum Error {
    /// The requested absolute offset lies below the lower offset limit.
    OffsetTooSmall { offset: usize },
    /// The requested absolute offset lies above the upper offset limit.
    OffsetTooLarge { offset: usize },
    /// The starting offset is valid, but fewer than `requested` items remain.
    NotEnoughData { requested: usize, left: usize },
    /// A read of positive size was attempted exactly at the end of the data.
    NoMoreData,
}

} // verus!
