//! An owning buffer backed by a shared `bytes::Bytes` handle.

use vstd::prelude::*;
use vstd::slice::slice_subrange;
use vstd::slice::slice_to_vec;

use crate::error::Error;
use crate::segment::Segment;
use crate::Endidness;

verus! {

#[verifier::external_type_specification]
#[verifier::external_body]
pub struct ExBytes(bytes::Bytes);

/// The bytes that a `bytes::Bytes` handle views.  Handles are immutable:
/// nothing this crate calls changes what an existing handle views.
pub uninterp spec fn bytes_view(b: bytes::Bytes) -> Seq<u8>;

/// Relies on the `AsRef<[u8]>` impl of `bytes::Bytes`: `as_ref` returns
/// exactly the bytes the handle views.
#[verifier::external_body]
pub(crate) fn bytes_as_slice<'a>(b: &'a bytes::Bytes) -> (r: &'a [u8])
    ensures
        r@ == bytes_view(*b),
{
    b.as_ref()
}

/// Relies on the `From<Vec<u8>>` impl of `bytes::Bytes`: the new handle
/// views the vector's bytes.
#[verifier::external_body]
fn bytes_from_vec(data: Vec<u8>) -> (r: bytes::Bytes)
    ensures
        bytes_view(r) == data@,
{
    bytes::Bytes::from(data)
}

/// An owning buffer backed by a `bytes::Bytes` handle, with its own origin
/// offset and byte order.  It behaves like [`crate::VecSource`] over bytes,
/// but taking an existing `Bytes` handle shares the underlying memory
/// instead of copying it.
pub struct BytesSource {
    initial_offset: usize,
    data: bytes::Bytes,
    endidness: Endidness,
}

impl View for BytesSource {
    type V = Seq<u8>;

    closed spec fn view(&self) -> Seq<u8> {
        bytes_view(self.data)
    }
}

impl BytesSource {
    /// The internal well-formedness every source maintains: its upper offset
    /// limit is representable.
    #[verifier::type_invariant]
    pub closed spec fn wf(self) -> bool {
        self.initial_offset + bytes_view(self.data).len() <= usize::MAX
    }

    /// The absolute offset of the first byte.
    pub closed spec fn origin(self) -> nat {
        self.initial_offset as nat
    }

    /// The byte order that segments minted by this source start with.
    pub closed spec fn spec_endidness(self) -> Endidness {
        self.endidness
    }

    /// What validating the absolute offset `offset` against the source's
    /// bounds yields; both limits are inclusive, as for
    /// [`crate::VecSource::source_check`].
    pub open spec fn source_check(self, offset: int) -> Result<(), Error> {
        if offset < self.origin() {
            Err(Error::OffsetTooSmall { offset: offset as usize })
        } else if offset > self.origin() + self@.len() {
            Err(Error::OffsetTooLarge { offset: offset as usize })
        } else {
            Ok(())
        }
    }

    /// Creates a source sharing the bytes of an existing handle, with the
    /// given origin offset and byte order.  If the origin would push the
    /// upper offset limit beyond the addressable range, the origin is
    /// rejected as too large.
    pub fn from_bytes_with_offset(
        bytes: bytes::Bytes,
        initial_offset: usize,
        endidness: Endidness,
    ) -> (r: Result<BytesSource, Error>)
        ensures
            if initial_offset + bytes_view(bytes).len() <= usize::MAX {
                r matches Ok(s) && s@ == bytes_view(bytes) && s.origin() == initial_offset
                    && s.spec_endidness() == endidness
            } else {
                r == Err::<BytesSource, Error>(Error::OffsetTooLarge { offset: initial_offset })
            },
    {
        let len = bytes_as_slice(&bytes).len();
        if initial_offset > usize::MAX - len {
            Err(Error::OffsetTooLarge { offset: initial_offset })
        } else {
            Ok(BytesSource { initial_offset, data: bytes, endidness })
        }
    }

    /// Creates a source sharing the bytes of an existing handle, with origin
    /// 0 and the given byte order.
    pub fn from_bytes(bytes: bytes::Bytes, endidness: Endidness) -> (r: Result<
        BytesSource,
        Error,
    >)
        ensures
            r matches Ok(s) && s@ == bytes_view(bytes) && s.origin() == 0 && s.spec_endidness()
                == endidness,
    {
        // Establishes that the handle's length fits in `usize`.
        let _len: usize = bytes_as_slice(&bytes).len();
        Ok(BytesSource { initial_offset: 0, data: bytes, endidness })
    }

    /// Creates a source by copying `slice`, with the given origin offset and
    /// byte order.
    pub fn from_u8_slice_with_offset(
        slice: &[u8],
        initial_offset: usize,
        endidness: Endidness,
    ) -> (r: Result<BytesSource, Error>)
        requires
            initial_offset + slice@.len() <= usize::MAX,
        ensures
            r matches Ok(s) && s@ == slice@ && s.origin() == initial_offset && s.spec_endidness()
                == endidness,
    {
        let data = bytes_from_vec(slice_to_vec(slice));
        Ok(BytesSource { initial_offset, data, endidness })
    }

    /// Creates a source by copying `slice`, with origin 0 and the given byte
    /// order.
    pub fn from_u8_slice(slice: &[u8], endidness: Endidness) -> (r: Result<BytesSource, Error>)
        ensures
            r matches Ok(s) && s@ == slice@ && s.origin() == 0 && s.spec_endidness() == endidness,
    {
        let items = slice_to_vec(slice);
        proof {
            vstd::std_specs::vec::axiom_spec_len(&items);
        }
        let data = bytes_from_vec(items);
        Ok(BytesSource { initial_offset: 0, data, endidness })
    }

    /// Creates a source over the bytes of `items`, with the given origin
    /// offset and byte order.
    pub fn from_u8_vec_with_offset(
        items: Vec<u8>,
        initial_offset: usize,
        endidness: Endidness,
    ) -> (r: Result<BytesSource, Error>)
        requires
            initial_offset + items@.len() <= usize::MAX,
        ensures
            r matches Ok(s) && s@ == items@ && s.origin() == initial_offset && s.spec_endidness()
                == endidness,
    {
        let data = bytes_from_vec(items);
        Ok(BytesSource { initial_offset, data, endidness })
    }

    /// Creates a source over the bytes of `items`, with origin 0 and the
    /// given byte order.
    pub fn from_u8_vec(items: Vec<u8>, endidness: Endidness) -> (r: Result<BytesSource, Error>)
        ensures
            r matches Ok(s) && s@ == items@ && s.origin() == 0 && s.spec_endidness() == endidness,
    {
        proof {
            vstd::std_specs::vec::axiom_spec_len(&items);
        }
        let data = bytes_from_vec(items);
        Ok(BytesSource { initial_offset: 0, data, endidness })
    }

    /// How many bytes the source views.  This never changes.
    pub fn size(&self) -> (r: usize)
        ensures
            r == self@.len(),
    {
        proof {
            use_type_invariant(&*self);
        }
        bytes_as_slice(&self.data).len()
    }

    /// The absolute offset of the first byte.
    pub fn initial_offset(&self) -> (r: usize)
        ensures
            r == self.origin(),
    {
        self.initial_offset
    }

    /// Changes the origin offset.  Segments minted earlier keep the origin
    /// they were minted with; new segments use the new origin.
    pub fn change_initial_offset(&mut self, offset: usize)
        requires
            offset + old(self)@.len() <= usize::MAX,
        ensures
            final(self)@ == old(self)@,
            final(self).origin() == offset,
            final(self).spec_endidness() == old(self).spec_endidness(),
    {
        proof {
            use_type_invariant(&*self);
        }
        self.initial_offset = offset;
    }

    /// The byte order that segments minted by this source start with.
    pub fn endidness(&self) -> (r: Endidness)
        ensures
            r == self.spec_endidness(),
    {
        self.endidness
    }

    /// Changes the byte order.  Segments minted earlier keep the byte order
    /// they were minted with; new segments use the new one.
    pub fn change_endidness(&mut self, endidness: Endidness)
        ensures
            final(self)@ == old(self)@,
            final(self).origin() == old(self).origin(),
            final(self).spec_endidness() == endidness,
    {
        proof {
            use_type_invariant(&*self);
        }
        self.endidness = endidness;
    }

    /// The lowest offset that can be requested.
    pub fn lower_offset_limit(&self) -> (r: usize)
        ensures
            r == self.origin(),
    {
        self.initial_offset
    }

    /// The highest offset that can be requested (the off-the-end marker).
    pub fn upper_offset_limit(&self) -> (r: usize)
        ensures
            r == self.origin() + self@.len(),
    {
        proof {
            use_type_invariant(&*self);
        }
        self.initial_offset + bytes_as_slice(&self.data).len()
    }

    /// Validates the absolute offset `offset` as a range boundary within
    /// this source, returning `Ok(())` exactly when it is one.
    pub fn validate_offset(&self, offset: usize) -> (r: Result<(), Error>)
        ensures
            r == self.source_check(offset as int),
    {
        proof {
            use_type_invariant(&*self);
        }
        if offset < self.initial_offset {
            Err(Error::OffsetTooSmall { offset })
        } else if offset - self.initial_offset > bytes_as_slice(&self.data).len() {
            Err(Error::OffsetTooLarge { offset })
        } else {
            Ok(())
        }
    }

    /// Mints a segment over the bytes between the absolute offsets `start`
    /// (inclusive) and `end` (exclusive), with origin `start`, cursor 0 and
    /// the source's byte order.
    pub fn segment<'a>(&'a self, start: usize, end: usize) -> (r: Result<Segment<'a, u8>, Error>)
        requires
            start <= end,
        ensures
            match (self.source_check(start as int), self.source_check(end as int)) {
                (Err(e), _) => r == Err::<Segment<'a, u8>, Error>(e),
                (Ok(()), Err(e)) => r == Err::<Segment<'a, u8>, Error>(e),
                (Ok(()), Ok(())) => r matches Ok(c) && c@ == self@.subrange(
                    start - self.origin(),
                    end - self.origin(),
                ) && c.origin() == start && c.cursor() == 0 && c.spec_endidness()
                    == self.spec_endidness(),
            },
    {
        proof {
            use_type_invariant(&*self);
        }
        match self.validate_offset(start) {
            Err(e) => Err(e),
            Ok(()) => match self.validate_offset(end) {
                Err(e) => Err(e),
                Ok(()) => {
                    let pos_start = start - self.initial_offset;
                    let pos_end = end - self.initial_offset;
                    let slice = slice_subrange(bytes_as_slice(&self.data), pos_start, pos_end);
                    Ok(Segment::new_full(slice, start, 0, self.endidness))
                },
            },
        }
    }

    /// Mints a segment over everything the source views.
    pub fn all<'a>(&'a self) -> (r: Result<Segment<'a, u8>, Error>)
        ensures
            r matches Ok(c) && c@ == self@ && c.origin() == self.origin() && c.cursor() == 0
                && c.spec_endidness() == self.spec_endidness(),
    {
        proof {
            use_type_invariant(&*self);
        }
        let lower = self.lower_offset_limit();
        let upper = self.upper_offset_limit();
        let r = self.segment(lower, upper);
        proof {
            assert(self@.subrange(0, self@.len() as int) =~= self@);
        }
        r
    }

    /// Mints a segment of `num_items` bytes starting at the absolute offset
    /// `offset`, with origin `offset`.
    pub fn get_n<'a>(&'a self, offset: usize, num_items: usize) -> (r: Result<
        Segment<'a, u8>,
        Error,
    >)
        requires
            offset + num_items <= usize::MAX,
        ensures
            match (self.source_check(offset as int), self.source_check(offset + num_items)) {
                (Err(e), _) => r == Err::<Segment<'a, u8>, Error>(e),
                (Ok(()), Err(e)) => r == Err::<Segment<'a, u8>, Error>(e),
                (Ok(()), Ok(())) => r matches Ok(c) && c@ == self@.subrange(
                    offset - self.origin(),
                    offset - self.origin() + num_items,
                ) && c.origin() == offset && c.cursor() == 0 && c.spec_endidness()
                    == self.spec_endidness(),
            },
    {
        self.segment(offset, offset + num_items)
    }

    /// Mints a segment over everything before the absolute offset `offset`
    /// (exclusive), keeping the source's origin.
    pub fn all_before<'a>(&'a self, offset: usize) -> (r: Result<Segment<'a, u8>, Error>)
        ensures
            match self.source_check(offset as int) {
                Ok(()) => r matches Ok(c) && c@ == self@.subrange(0, offset - self.origin())
                    && c.origin() == self.origin() && c.cursor() == 0 && c.spec_endidness()
                    == self.spec_endidness(),
                Err(e) => r == Err::<Segment<'a, u8>, Error>(e),
            },
    {
        proof {
            use_type_invariant(&*self);
        }
        match self.validate_offset(offset) {
            Err(e) => Err(e),
            Ok(()) => {
                let lower = self.lower_offset_limit();
                self.segment(lower, offset)
            },
        }
    }

    /// Mints a segment over everything at or after the absolute offset
    /// `offset` (inclusive), with origin `offset`.
    pub fn all_after<'a>(&'a self, offset: usize) -> (r: Result<Segment<'a, u8>, Error>)
        ensures
            match self.source_check(offset as int) {
                Ok(()) => r matches Ok(c) && c@ == self@.subrange(
                    offset - self.origin(),
                    self@.len() as int,
                ) && c.origin() == offset && c.cursor() == 0 && c.spec_endidness()
                    == self.spec_endidness(),
                Err(e) => r == Err::<Segment<'a, u8>, Error>(e),
            },
    {
        proof {
            use_type_invariant(&*self);
        }
        match self.validate_offset(offset) {
            Err(e) => Err(e),
            Ok(()) => {
                let upper = self.upper_offset_limit();
                self.segment(offset, upper)
            },
        }
    }
}

} // verus!
