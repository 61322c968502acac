//! Owning buffers that manufacture segments.

use vstd::prelude::*;
use vstd::slice::slice_to_vec;

use crate::bytes_source::bytes_view;
use crate::bytes_source::bytes_as_slice;
use crate::error::Error;
use crate::segment::Segment;
use crate::Endidness;

verus! {

/// An owning buffer backed by a `Vec`, with its own origin offset and byte
/// order.  It is the factory for top-level segments: every segment it mints
/// borrows the source's data and starts with the source's origin (or the
/// requested sub-range's start) and the source's byte order.
pub struct VecSource<I> {
    initial_offset: usize,
    data: Vec<I>,
    endidness: Endidness,
}

impl<I> View for VecSource<I> {
    type V = Seq<I>;

    closed spec fn view(&self) -> Seq<I> {
        self.data@
    }
}

impl<I> VecSource<I> {
    /// The internal well-formedness every source maintains: its upper offset
    /// limit is representable.
    #[verifier::type_invariant]
    pub closed spec fn wf(self) -> bool {
        self.initial_offset + self.data@.len() <= usize::MAX
    }

    /// The absolute offset of the first item.
    pub closed spec fn origin(self) -> nat {
        self.initial_offset as nat
    }

    /// The byte order that segments minted by this source start with.
    pub closed spec fn spec_endidness(self) -> Endidness {
        self.endidness
    }

    /// What validating the absolute offset `offset` against the source's
    /// bounds yields.  Both limits are inclusive here: an offset is a
    /// boundary of a requested range, and the empty range at either end is
    /// allowed.
    pub open spec fn source_check(self, offset: int) -> Result<(), Error> {
        if offset < self.origin() {
            Err(Error::OffsetTooSmall { offset: offset as usize })
        } else if offset > self.origin() + self@.len() {
            Err(Error::OffsetTooLarge { offset: offset as usize })
        } else {
            Ok(())
        }
    }

    /// Creates a source over the items of `items` with origin 0 and the
    /// default byte order.
    pub fn from_vec(items: Vec<I>) -> (r: Result<VecSource<I>, Error>)
        ensures
            r matches Ok(s) && s@ == items@ && s.origin() == 0 && s.spec_endidness()
                == Endidness::Little,
    {
        proof {
            vstd::std_specs::vec::axiom_spec_len(&items);
        }
        Ok(VecSource { initial_offset: 0, data: items, endidness: Endidness::native() })
    }

    /// Creates a source over the items of `items` whose first item sits at
    /// the absolute offset `initial_offset`.
    pub fn from_vec_with_offset(items: Vec<I>, initial_offset: usize) -> (r: Result<
        VecSource<I>,
        Error,
    >)
        requires
            initial_offset + items@.len() <= usize::MAX,
        ensures
            r matches Ok(s) && s@ == items@ && s.origin() == initial_offset && s.spec_endidness()
                == Endidness::Little,
    {
        Ok(VecSource { initial_offset, data: items, endidness: Endidness::native() })
    }

    /// How many items the source owns.  This never changes.
    pub fn size(&self) -> (r: usize)
        ensures
            r == self@.len(),
    {
        proof {
            use_type_invariant(&*self);
        }
        self.data.len()
    }

    /// The absolute offset of the first item.
    pub fn initial_offset(&self) -> (r: usize)
        ensures
            r == self.origin(),
    {
        self.initial_offset
    }

    /// Changes the origin offset.  Segments minted earlier keep the origin
    /// they were minted with; new segments use the new origin.
    pub fn change_initial_offset(&mut self, offset: usize)
        requires
            offset + old(self)@.len() <= usize::MAX,
        ensures
            final(self)@ == old(self)@,
            final(self).origin() == offset,
            final(self).spec_endidness() == old(self).spec_endidness(),
    {
        proof {
            use_type_invariant(&*self);
        }
        self.initial_offset = offset;
    }

    /// The lowest offset that can be requested.
    pub fn lower_offset_limit(&self) -> (r: usize)
        ensures
            r == self.origin(),
    {
        self.initial_offset
    }

    /// The highest offset that can be requested (the off-the-end marker).
    pub fn upper_offset_limit(&self) -> (r: usize)
        ensures
            r == self.origin() + self@.len(),
    {
        proof {
            use_type_invariant(&*self);
        }
        self.initial_offset + self.data.len()
    }

    /// Validates the absolute offset `offset` as a range boundary within
    /// this source, returning `Ok(())` exactly when it is one.
    pub fn validate_offset(&self, offset: usize) -> (r: Result<(), Error>)
        ensures
            r == self.source_check(offset as int),
    {
        proof {
            use_type_invariant(&*self);
        }
        if offset < self.initial_offset {
            Err(Error::OffsetTooSmall { offset })
        } else if offset - self.initial_offset > self.data.len() {
            Err(Error::OffsetTooLarge { offset })
        } else {
            Ok(())
        }
    }

    /// Mints a segment over the items between the absolute offsets `start`
    /// (inclusive) and `end` (exclusive), with origin `start`, cursor 0 and
    /// the source's byte order.
    pub fn segment<'a>(&'a self, start: usize, end: usize) -> (r: Result<Segment<'a, I>, Error>)
        requires
            start <= end,
        ensures
            match (self.source_check(start as int), self.source_check(end as int)) {
                (Err(e), _) => r == Err::<Segment<'a, I>, Error>(e),
                (Ok(()), Err(e)) => r == Err::<Segment<'a, I>, Error>(e),
                (Ok(()), Ok(())) => r matches Ok(c) && c@ == self@.subrange(
                    start - self.origin(),
                    end - self.origin(),
                ) && c.origin() == start && c.cursor() == 0 && c.spec_endidness()
                    == self.spec_endidness(),
            },
    {
        proof {
            use_type_invariant(&*self);
        }
        match self.validate_offset(start) {
            Err(e) => Err(e),
            Ok(()) => match self.validate_offset(end) {
                Err(e) => Err(e),
                Ok(()) => {
                    let pos_start = start - self.initial_offset;
                    let pos_end = end - self.initial_offset;
                    let slice = vstd::slice::slice_subrange(
                        self.data.as_slice(),
                        pos_start,
                        pos_end,
                    );
                    Ok(Segment::new_full(slice, start, 0, self.endidness))
                },
            },
        }
    }

    /// Mints a segment over everything the source owns.
    pub fn all<'a>(&'a self) -> (r: Result<Segment<'a, I>, Error>)
        ensures
            r matches Ok(c) && c@ == self@ && c.origin() == self.origin() && c.cursor() == 0
                && c.spec_endidness() == self.spec_endidness(),
    {
        proof {
            use_type_invariant(&*self);
        }
        let lower = self.lower_offset_limit();
        let upper = self.upper_offset_limit();
        let r = self.segment(lower, upper);
        proof {
            assert(self@.subrange(0, self@.len() as int) =~= self@);
        }
        r
    }

    /// Mints a segment of `num_items` items starting at the absolute offset
    /// `offset`, with origin `offset`.
    pub fn get_n<'a>(&'a self, offset: usize, num_items: usize) -> (r: Result<
        Segment<'a, I>,
        Error,
    >)
        requires
            offset + num_items <= usize::MAX,
        ensures
            match (self.source_check(offset as int), self.source_check(offset + num_items)) {
                (Err(e), _) => r == Err::<Segment<'a, I>, Error>(e),
                (Ok(()), Err(e)) => r == Err::<Segment<'a, I>, Error>(e),
                (Ok(()), Ok(())) => r matches Ok(c) && c@ == self@.subrange(
                    offset - self.origin(),
                    offset - self.origin() + num_items,
                ) && c.origin() == offset && c.cursor() == 0 && c.spec_endidness()
                    == self.spec_endidness(),
            },
    {
        self.segment(offset, offset + num_items)
    }

    /// Mints a segment over everything before the absolute offset `offset`
    /// (exclusive), keeping the source's origin.
    pub fn all_before<'a>(&'a self, offset: usize) -> (r: Result<Segment<'a, I>, Error>)
        ensures
            match self.source_check(offset as int) {
                Ok(()) => r matches Ok(c) && c@ == self@.subrange(0, offset - self.origin())
                    && c.origin() == self.origin() && c.cursor() == 0 && c.spec_endidness()
                    == self.spec_endidness(),
                Err(e) => r == Err::<Segment<'a, I>, Error>(e),
            },
    {
        proof {
            use_type_invariant(&*self);
        }
        match self.validate_offset(offset) {
            Err(e) => Err(e),
            Ok(()) => {
                let lower = self.lower_offset_limit();
                self.segment(lower, offset)
            },
        }
    }

    /// Mints a segment over everything at or after the absolute offset
    /// `offset` (inclusive), with origin `offset`.
    pub fn all_after<'a>(&'a self, offset: usize) -> (r: Result<Segment<'a, I>, Error>)
        ensures
            match self.source_check(offset as int) {
                Ok(()) => r matches Ok(c) && c@ == self@.subrange(
                    offset - self.origin(),
                    self@.len() as int,
                ) && c.origin() == offset && c.cursor() == 0 && c.spec_endidness()
                    == self.spec_endidness(),
                Err(e) => r == Err::<Segment<'a, I>, Error>(e),
            },
    {
        proof {
            use_type_invariant(&*self);
        }
        match self.validate_offset(offset) {
            Err(e) => Err(e),
            Ok(()) => {
                let upper = self.upper_offset_limit();
                self.segment(offset, upper)
            },
        }
    }
}

impl<I: Copy> VecSource<I> {
    /// Creates a source by copying `slice`, with origin 0.
    pub fn from_slice(slice: &[I]) -> (r: Result<VecSource<I>, Error>)
        ensures
            r matches Ok(s) && s@ == slice@ && s.origin() == 0 && s.spec_endidness()
                == Endidness::Little,
    {
        VecSource::from_vec(slice_to_vec(slice))
    }

    /// Creates a source by copying `slice`, whose first item sits at the
    /// absolute offset `initial_offset`.
    pub fn from_slice_with_offset(slice: &[I], initial_offset: usize) -> (r: Result<
        VecSource<I>,
        Error,
    >)
        requires
            initial_offset + slice@.len() <= usize::MAX,
        ensures
            r matches Ok(s) && s@ == slice@ && s.origin() == initial_offset && s.spec_endidness()
                == Endidness::Little,
    {
        VecSource::from_vec_with_offset(slice_to_vec(slice), initial_offset)
    }

    /// Creates a source by copying a segment's whole data, keeping the
    /// segment's current offset as the origin and its byte order.
    pub fn from_segment(segment: Segment<'_, I>) -> (r: Result<VecSource<I>, Error>)
        requires
            segment.origin() + segment.cursor() + segment@.len() <= usize::MAX,
        ensures
            r matches Ok(s) && s@ == segment@ && s.origin() == segment.origin()
                + segment.cursor() && s.spec_endidness() == segment.spec_endidness(),
    {
        let offset = segment.current_offset();
        let endidness = segment.endidness();
        let data = slice_to_vec(segment.as_slice());
        Ok(VecSource { initial_offset: offset, data, endidness })
    }
}

impl VecSource<u8> {
    /// The byte order that segments minted by this source start with.
    pub fn endidness(&self) -> (r: Endidness)
        ensures
            r == self.spec_endidness(),
    {
        self.endidness
    }

    /// Changes the byte order.  Segments minted earlier keep the byte order
    /// they were minted with; new segments use the new one.
    pub fn change_endidness(&mut self, endidness: Endidness)
        ensures
            final(self)@ == old(self)@,
            final(self).origin() == old(self).origin(),
            final(self).spec_endidness() == endidness,
    {
        proof {
            use_type_invariant(&*self);
        }
        self.endidness = endidness;
    }

    /// Creates a source by copying the bytes a `bytes::Bytes` handle views,
    /// with the given origin offset and byte order.  If the origin would
    /// push the upper offset limit beyond the addressable range, the origin
    /// is rejected as too large.
    pub fn from_bytes_with_offset(
        bytes: bytes::Bytes,
        initial_offset: usize,
        endidness: Endidness,
    ) -> (r: Result<VecSource<u8>, Error>)
        ensures
            if initial_offset + bytes_view(bytes).len() <= usize::MAX {
                r matches Ok(s) && s@ == bytes_view(bytes) && s.origin() == initial_offset
                    && s.spec_endidness() == endidness
            } else {
                r == Err::<VecSource<u8>, Error>(
                    Error::OffsetTooLarge { offset: initial_offset },
                )
            },
    {
        let slice = bytes_as_slice(&bytes);
        if initial_offset > usize::MAX - slice.len() {
            Err(Error::OffsetTooLarge { offset: initial_offset })
        } else {
            Ok(VecSource { initial_offset, data: slice_to_vec(slice), endidness })
        }
    }

    /// Creates a source by copying the bytes a `bytes::Bytes` handle views,
    /// with origin 0 and the given byte order.
    pub fn from_bytes(bytes: bytes::Bytes, endidness: Endidness) -> (r: Result<
        VecSource<u8>,
        Error,
    >)
        ensures
            r matches Ok(s) && s@ == bytes_view(bytes) && s.origin() == 0 && s.spec_endidness()
                == endidness,
    {
        let slice = bytes_as_slice(&bytes);
        let data = slice_to_vec(slice);
        proof {
            vstd::std_specs::vec::axiom_spec_len(&data);
        }
        Ok(VecSource { initial_offset: 0, data, endidness })
    }

    /// Creates a source by copying `slice`, with origin 0 and the given byte
    /// order.
    pub fn from_u8_slice(slice: &[u8], endidness: Endidness) -> (r: Result<VecSource<u8>, Error>)
        ensures
            r matches Ok(s) && s@ == slice@ && s.origin() == 0 && s.spec_endidness() == endidness,
    {
        let data = slice_to_vec(slice);
        proof {
            vstd::std_specs::vec::axiom_spec_len(&data);
        }
        Ok(VecSource { initial_offset: 0, data, endidness })
    }

    /// Creates a source by copying `slice`, with the given origin offset and
    /// byte order.
    pub fn from_u8_slice_with_offset(
        slice: &[u8],
        initial_offset: usize,
        endidness: Endidness,
    ) -> (r: Result<VecSource<u8>, Error>)
        requires
            initial_offset + slice@.len() <= usize::MAX,
        ensures
            r matches Ok(s) && s@ == slice@ && s.origin() == initial_offset && s.spec_endidness()
                == endidness,
    {
        Ok(VecSource { initial_offset, data: slice_to_vec(slice), endidness })
    }

    /// Creates a source over the bytes of `items`, with origin 0 and the
    /// given byte order.
    pub fn from_u8_vec(items: Vec<u8>, endidness: Endidness) -> (r: Result<VecSource<u8>, Error>)
        ensures
            r matches Ok(s) && s@ == items@ && s.origin() == 0 && s.spec_endidness() == endidness,
    {
        proof {
            vstd::std_specs::vec::axiom_spec_len(&items);
        }
        Ok(VecSource { initial_offset: 0, data: items, endidness })
    }

    /// Creates a source over the bytes of `items`, with the given origin
    /// offset and byte order.
    pub fn from_u8_vec_with_offset(
        items: Vec<u8>,
        initial_offset: usize,
        endidness: Endidness,
    ) -> (r: Result<VecSource<u8>, Error>)
        requires
            initial_offset + items@.len() <= usize::MAX,
        ensures
            r matches Ok(s) && s@ == items@ && s.origin() == initial_offset && s.spec_endidness()
                == endidness,
    {
        Ok(VecSource { initial_offset, data: items, endidness })
    }
}

} // verus!
