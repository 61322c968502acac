//! Cursor-based readers over in-memory item buffers.
//!
//! A [`Segment`] is a bounded, cursor-bearing, read-only view over a borrowed
//! slice of items (typically bytes).  It supports non-destructive random
//! access through absolute offsets, sequential consumption through an
//! internal cursor, zero-copy carving of child segments, and decoding of
//! multi-byte integers with an explicit byte order.  A [`VecSource`] owns a
//! buffer and manufactures segments over it.
//!
//! Offsets are absolute positions that may start at a non-zero origin (for
//! example an on-disk address); positions are indices relative to the start
//! of a segment's slice.  Every access is validated against the segment's
//! bounds before any state changes, and failures are reported through the
//! typed [`Error`] without panicking.

use vstd::prelude::*;

pub mod bytes_source;
pub mod codec;
pub mod derive_extras;
pub mod error;
pub mod marker;
pub mod segment;
pub mod sources;

pub use bytes_source::BytesSource;
pub use derive_extras::iter_to_result;
pub use error::Error;
pub use marker::Integer;
pub use segment::DataSegment;
pub use segment::Segment;
pub use sources::VecSource;

verus! {

/// The byte order used to decode multi-byte integers from a segment.
#[derive(Clone, Copy, Debug, PartialEq, Eq, Structural)]
pub enum Endidness {
    Big,
    Little,
}

impl Endidness {
    /// The byte order that segments use when none is chosen explicitly.
    pub fn native() -> (r: Self)
        ensures
            r == Endidness::Little,
    {
        Endidness::Little
    }
}

impl Default for Endidness {
    fn default() -> (r: Self)
        ensures
            r == Endidness::Little,
    {
        Endidness::Little
    }
}

} // verus!
