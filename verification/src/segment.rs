//! The cursor-bearing, read-only view over a borrowed slice.

use vstd::prelude::*;
use vstd::array::ArrayAdditionalExecFns;
use vstd::slice::slice_index_get;
use vstd::slice::slice_subrange;

use crate::codec::endian_value;
use crate::error::Error;
use crate::marker::Integer;
use crate::Endidness;

verus! {

/// Clamps a mathematical integer into the `usize` range, for reporting the
/// target of an out-of-range cursor movement.
pub open spec fn clamp_usize(x: int) -> usize {
    if x < 0 {
        0
    } else if x > usize::MAX {
        usize::MAX
    } else {
        x as usize
    }
}

/// A bounded, cursor-bearing, read-only view over a borrowed slice of items.
///
/// A segment never owns or mutates the data it looks at.  It keeps an
/// immutable origin offset (the absolute offset of the slice's first item),
/// a mutable cursor position in `0 ..= size`, and a byte order for
/// multi-byte numeric reads (little-endian unless another is chosen).  Every operation validates its target before
/// committing any state change: a failed operation leaves the segment
/// exactly as it was.
///
/// In specifications a segment is described by four quantities: its content
/// `self@` (a sequence of items), its origin [`Segment::origin`], its cursor
/// [`Segment::cursor`], and its byte order [`Segment::spec_endidness`].
pub struct Segment<'s, I> {
    data: &'s [I],
    initial_offset: usize,
    position: usize,
    // The slice length is used constantly and never changes, so it is cached.
    size: usize,
    // Only used when `I` is `u8`.
    endidness: Endidness,
}

/// A segment over binary data.
pub type DataSegment<'s> = Segment<'s, u8>;

impl<'s, I> View for Segment<'s, I> {
    type V = Seq<I>;

    closed spec fn view(&self) -> Seq<I> {
        self.data@
    }
}

impl<'s, I> Clone for Segment<'s, I> {
    /// Clones the segment.  The clone shares the same borrowed data and
    /// starts with the same origin, cursor and byte order, but its cursor
    /// advances independently from then on.
    fn clone(&self) -> (r: Self)
        ensures
            r@ == self@,
            r.origin() == self.origin(),
            r.cursor() == self.cursor(),
            r.spec_endidness() == self.spec_endidness(),
    {
        proof {
            use_type_invariant(&*self);
        }
        Segment {
            data: self.data,
            initial_offset: self.initial_offset,
            position: self.position,
            size: self.size,
            endidness: self.endidness,
        }
    }
}

impl<'s, I> Segment<'s, I> {
    /// The internal well-formedness every segment maintains: the cached
    /// size matches the data, the cursor stays within the data, and the
    /// upper offset limit is representable.
    #[verifier::type_invariant]
    pub closed spec fn wf(self) -> bool {
        &&& self.size == self.data@.len()
        &&& self.position <= self.size
        &&& self.initial_offset + self.size <= usize::MAX
    }

    /// The absolute offset of position 0 of the underlying slice.
    pub closed spec fn origin(self) -> nat {
        self.initial_offset as nat
    }

    /// The cursor, as a position relative to the start of the slice.
    pub closed spec fn cursor(self) -> nat {
        self.position as nat
    }

    /// The byte order used by multi-byte numeric reads.
    pub closed spec fn spec_endidness(self) -> Endidness {
        self.endidness
    }

    /// `other` is a view of the same data under the same origin and byte
    /// order as `self`; only the cursors may differ.
    pub open spec fn same_region(self, other: Self) -> bool {
        &&& other@ == self@
        &&& other.origin() == self.origin()
        &&& other.spec_endidness() == self.spec_endidness()
    }

    /// What validating the absolute offset `offset` for a read of `n` items
    /// yields.  Checks run in this order: an offset below the origin is too
    /// small, one beyond the end of the data is too large, a positive-size
    /// read exactly at the end signals the distinguished end of data, and a
    /// read running past the end reports how much is left.  A zero-size
    /// request at the end is valid (the off-the-end marker position).
    pub open spec fn validate_spec(self, offset: int, n: int) -> Result<(), Error> {
        if offset < self.origin() {
            Err(Error::OffsetTooSmall { offset: offset as usize })
        } else if offset - self.origin() > self@.len() {
            Err(Error::OffsetTooLarge { offset: offset as usize })
        } else if n > 0 && offset - self.origin() == self@.len() {
            Err(Error::NoMoreData)
        } else if n > self@.len() - (offset - self.origin()) {
            Err(Error::NotEnoughData {
                requested: n as usize,
                left: (self@.len() - (offset - self.origin())) as usize,
            })
        } else {
            Ok(())
        }
    }

    /// What validating a read of `n` items at the cursor yields: the same as
    /// [`Segment::validate_spec`] at the current offset, where only the two
    /// shortage errors can arise.
    pub open spec fn take_check(self, n: int) -> Result<(), Error> {
        if n > 0 && self.cursor() == self@.len() {
            Err(Error::NoMoreData)
        } else if n > self@.len() - self.cursor() {
            Err(Error::NotEnoughData {
                requested: n as usize,
                left: (self@.len() - self.cursor()) as usize,
            })
        } else {
            Ok(())
        }
    }

    /// Every segment keeps its cursor within its data and its upper offset
    /// limit representable.  `wf` itself holds of every segment value; it
    /// can be obtained with `use_type_invariant`.
    pub proof fn lemma_wf(s: Self)
        requires
            s.wf(),
        ensures
            s.cursor() <= s@.len(),
            s.origin() + s@.len() <= usize::MAX,
    {
    }

    /// Creates a segment with every part chosen explicitly.  Used by the
    /// owning sources to mint segments over their data.
    pub(crate) fn new_full(
        data: &'s [I],
        initial_offset: usize,
        position: usize,
        endidness: Endidness,
    ) -> (r: Self)
        requires
            initial_offset + data@.len() <= usize::MAX,
            position <= data@.len(),
        ensures
            r@ == data@,
            r.origin() == initial_offset,
            r.cursor() == position,
            r.spec_endidness() == endidness,
    {
        Segment { data, initial_offset, position, size: data.len(), endidness }
    }

    /// Creates a segment over `data` with origin 0, cursor 0 and the default
    /// byte order.
    pub fn new(data: &'s [I]) -> (r: Self)
        ensures
            r@ == data@,
            r.origin() == 0,
            r.cursor() == 0,
            r.spec_endidness() == Endidness::Little,
    {
        Segment {
            data,
            initial_offset: 0,
            position: 0,
            size: data.len(),
            endidness: Endidness::native(),
        }
    }

    /// Creates a segment over `data` whose first item sits at the absolute
    /// offset `initial_offset`.
    pub fn with_offset(data: &'s [I], initial_offset: usize) -> (r: Self)
        requires
            initial_offset + data@.len() <= usize::MAX,
        ensures
            r@ == data@,
            r.origin() == initial_offset,
            r.cursor() == 0,
            r.spec_endidness() == Endidness::Little,
    {
        Segment {
            data,
            initial_offset,
            position: 0,
            size: data.len(),
            endidness: Endidness::native(),
        }
    }

    /// Changes the origin offset.  Positions already consumed keep their
    /// meaning relative to the slice; all offsets shift with the new origin.
    pub fn change_initial_offset(&mut self, offset: usize)
        requires
            offset + old(self)@.len() <= usize::MAX,
        ensures
            final(self)@ == old(self)@,
            final(self).origin() == offset,
            final(self).cursor() == old(self).cursor(),
            final(self).spec_endidness() == old(self).spec_endidness(),
    {
        proof {
            use_type_invariant(&*self);
        }
        self.initial_offset = offset;
    }

    /// The byte order this segment decodes multi-byte integers with.
    pub fn endidness(&self) -> (r: Endidness)
        ensures
            r == self.spec_endidness(),
    {
        self.endidness
    }

    /// The absolute offset of the first item.
    pub fn initial_offset(&self) -> (r: usize)
        ensures
            r == self.origin(),
    {
        self.initial_offset
    }

    /// How many items the segment was created over.  This never changes.
    pub fn size(&self) -> (r: usize)
        ensures
            r == self@.len(),
    {
        proof {
            use_type_invariant(&*self);
        }
        self.size
    }

    /// The absolute offset at which the next sequential read would start.
    pub fn current_offset(&self) -> (r: usize)
        ensures
            r == self.origin() + self.cursor(),
    {
        proof {
            use_type_invariant(&*self);
        }
        self.initial_offset + self.position
    }

    /// The lowest offset that can be requested.
    pub fn lower_offset_limit(&self) -> (r: usize)
        ensures
            r == self.origin(),
    {
        self.initial_offset
    }

    /// The highest offset that can be requested (exclusive for reads of
    /// positive size, inclusive as a cursor target).
    pub fn upper_offset_limit(&self) -> (r: usize)
        ensures
            r == self.origin() + self@.len(),
    {
        proof {
            use_type_invariant(&*self);
        }
        self.initial_offset + self.size
    }

    /// How many items remain between the cursor and the end.
    pub fn remaining(&self) -> (r: usize)
        ensures
            r == self@.len() - self.cursor(),
    {
        proof {
            use_type_invariant(&*self);
        }
        self.size - self.position
    }

    /// Whether no items remain after the cursor.
    pub fn is_empty(&self) -> (r: bool)
        ensures
            r <==> self.cursor() == self@.len(),
    {
        proof {
            use_type_invariant(&*self);
        }
        self.size - self.position == 0
    }

    /// Whether at least one item remains after the cursor.
    pub fn has_more(&self) -> (r: bool)
        ensures
            r <==> self.cursor() < self@.len(),
    {
        proof {
            use_type_invariant(&*self);
        }
        self.size - self.position > 0
    }

    /// Validates a position (a slice index) for a read of `n` items.
    fn validate_pos(&self, pos: usize, n: usize) -> (r: Result<(), Error>)
        requires
            self.origin() + pos <= usize::MAX,
        ensures
            r == self.validate_spec(self.origin() + pos, n as int),
    {
        proof {
            use_type_invariant(&*self);
        }
        if pos > self.size {
            Err(Error::OffsetTooLarge { offset: self.initial_offset + pos })
        } else if n > 0 && pos == self.size {
            Err(Error::NoMoreData)
        } else if n > self.size - pos {
            Err(Error::NotEnoughData { requested: n, left: self.size - pos })
        } else {
            Ok(())
        }
    }

    /// Validates the absolute offset `offset` for a read of `size` items,
    /// returning `Ok(())` exactly when such a read would succeed.
    pub fn validate_offset(&self, offset: usize, size: usize) -> (r: Result<(), Error>)
        ensures
            r == self.validate_spec(offset as int, size as int),
    {
        proof {
            use_type_invariant(&*self);
        }
        if offset < self.initial_offset {
            Err(Error::OffsetTooSmall { offset })
        } else {
            self.validate_pos(offset - self.initial_offset, size)
        }
    }

    /// Validates a read of `n` items at the cursor and, on success, commits
    /// the cursor past them, returning the position where the read starts.
    /// On failure the cursor is untouched.
    fn advance(&mut self, n: usize) -> (r: Result<usize, Error>)
        ensures
            old(self).same_region(*final(self)),
            match old(self).take_check(n as int) {
                Ok(()) => r matches Ok(p) && p == old(self).cursor() && final(self).cursor()
                    == old(self).cursor() + n,
                Err(e) => r == Err::<usize, Error>(e) && final(self).cursor() == old(self).cursor(),
            },
    {
        proof {
            use_type_invariant(&*self);
        }
        if n > 0 && self.position == self.size {
            Err(Error::NoMoreData)
        } else if n > self.size - self.position {
            Err(Error::NotEnoughData { requested: n, left: self.size - self.position })
        } else {
            let p = self.position;
            self.position = p + n;
            Ok(p)
        }
    }

    /// Moves the cursor to the absolute offset `offset`, validated exactly
    /// like a zero-size read: any offset in
    /// `lower_offset_limit() ..= upper_offset_limit()` is accepted.  On
    /// failure the cursor is untouched.
    pub fn move_to(&mut self, offset: usize) -> (r: Result<(), Error>)
        ensures
            old(self).same_region(*final(self)),
            match old(self).validate_spec(offset as int, 0) {
                Ok(()) => r == Ok::<(), Error>(()) && final(self).cursor() == offset - old(self).origin(),
                Err(e) => r == Err::<(), Error>(e) && final(self).cursor() == old(self).cursor(),
            },
    {
        proof {
            use_type_invariant(&*self);
        }
        match self.validate_offset(offset, 0) {
            Ok(()) => {
                self.position = offset - self.initial_offset;
                Ok(())
            },
            Err(e) => Err(e),
        }
    }

    /// Moves the cursor by `amt` items, forwards or backwards.  The target
    /// offset must stay within the offset limits; otherwise the appropriate
    /// bound error reports the target clamped into the `usize` range and the
    /// cursor is untouched.
    pub fn move_by(&mut self, amt: i128) -> (r: Result<(), Error>)
        ensures
            old(self).same_region(*final(self)),
            ({
                let t = old(self).origin() + old(self).cursor() + amt;
                if t < old(self).origin() {
                    r == Err::<(), Error>(Error::OffsetTooSmall { offset: clamp_usize(t) })
                        && final(self).cursor() == old(self).cursor()
                } else if t > old(self).origin() + old(self)@.len() {
                    r == Err::<(), Error>(Error::OffsetTooLarge { offset: clamp_usize(t) })
                        && final(self).cursor() == old(self).cursor()
                } else {
                    r == Ok::<(), Error>(()) && final(self).cursor() == t - old(self).origin()
                }
            }),
    {
        proof {
            use_type_invariant(&*self);
        }
        let cur: u128 = self.initial_offset as u128 + self.position as u128;
        if amt >= 0 {
            let t: u128 = cur + (amt as u128);
            if t > self.initial_offset as u128 + self.size as u128 {
                let offset = if t > usize::MAX as u128 {
                    usize::MAX
                } else {
                    t as usize
                };
                Err(Error::OffsetTooLarge { offset })
            } else {
                self.position = self.position + (amt as usize);
                Ok(())
            }
        } else {
            // `amt + 1` avoids overflow when negating `i128::MIN`.
            let neg: u128 = ((-(amt + 1)) as u128) + 1;
            if neg > self.position as u128 {
                let offset = if neg > cur {
                    0
                } else {
                    (cur - neg) as usize
                };
                Err(Error::OffsetTooSmall { offset })
            } else {
                self.position = self.position - (neg as usize);
                Ok(())
            }
        }
    }

    /// Translates a valid absolute offset at or after the current offset
    /// into a distance from the current offset.
    pub fn relative_offset(&self, abs_offset: usize) -> (r: Result<usize, Error>)
        ensures
            r == match self.validate_spec(abs_offset as int, 0) {
                Ok(()) => if abs_offset >= self.origin() + self.cursor() {
                    Ok::<usize, Error>((abs_offset - self.origin() - self.cursor()) as usize)
                } else {
                    Err::<usize, Error>(Error::OffsetTooSmall { offset: abs_offset })
                },
                Err(e) => Err::<usize, Error>(e),
            },
    {
        proof {
            use_type_invariant(&*self);
        }
        match self.validate_offset(abs_offset, 0) {
            Ok(()) => {
                let current = self.initial_offset + self.position;
                if abs_offset < current {
                    Err(Error::OffsetTooSmall { offset: abs_offset })
                } else {
                    Ok(abs_offset - current)
                }
            },
            Err(e) => Err(e),
        }
    }

    /// The whole slice the segment was created over, regardless of the
    /// cursor.
    pub fn as_slice(&self) -> (r: &'s [I])
        ensures
            r@ == self@,
    {
        self.data
    }

    /// Returns the next `num_items` items as a slice of the shared data and
    /// advances the cursor past them.
    pub fn next_n_as_slice(&mut self, num_items: usize) -> (r: Result<&'s [I], Error>)
        ensures
            old(self).same_region(*final(self)),
            match old(self).take_check(num_items as int) {
                Ok(()) => r matches Ok(s) && s@ == old(self)@.subrange(
                    old(self).cursor() as int,
                    old(self).cursor() + num_items,
                ) && final(self).cursor() == old(self).cursor() + num_items,
                Err(e) => r == Err::<&'s [I], Error>(e) && final(self).cursor() == old(self).cursor(),
            },
    {
        proof {
            use_type_invariant(&*self);
        }
        match self.advance(num_items) {
            Ok(p) => Ok(slice_subrange(self.data, p, p + num_items)),
            Err(e) => Err(e),
        }
    }

    /// Returns a reference to the next item and advances the cursor past it.
    pub fn next_item_ref(&mut self) -> (r: Result<&'s I, Error>)
        ensures
            old(self).same_region(*final(self)),
            match old(self).take_check(1) {
                Ok(()) => r matches Ok(v) && *v == old(self)@[old(self).cursor() as int] && final(self).cursor() == old(self).cursor() + 1,
                Err(e) => r == Err::<&'s I, Error>(e) && final(self).cursor() == old(self).cursor(),
            },
    {
        proof {
            use_type_invariant(&*self);
        }
        match self.advance(1) {
            Ok(p) => Ok(slice_index_get(self.data, p)),
            Err(e) => Err(e),
        }
    }

    /// Carves the next `num_items` items into an independent child segment
    /// whose origin is the offset where it was carved, and advances the
    /// cursor past them.  The child shares the same backing data.
    pub fn next_n(&mut self, num_items: usize) -> (r: Result<Segment<'s, I>, Error>)
        ensures
            old(self).same_region(*final(self)),
            match old(self).take_check(num_items as int) {
                Ok(()) => final(self).cursor() == old(self).cursor() + num_items && (r matches Ok(c)
                    && c@ == old(self)@.subrange(
                    old(self).cursor() as int,
                    old(self).cursor() + num_items,
                ) && c.origin() == old(self).origin() + old(self).cursor() && c.cursor() == 0
                    && c.spec_endidness() == old(self).spec_endidness()),
                Err(e) => r == Err::<Segment<'s, I>, Error>(e) && final(self).cursor() == old(self).cursor(),
            },
    {
        proof {
            use_type_invariant(&*self);
        }
        match self.advance(num_items) {
            Ok(p) => Ok(
                Segment {
                    data: slice_subrange(self.data, p, p + num_items),
                    initial_offset: self.initial_offset + p,
                    position: 0,
                    size: num_items,
                    endidness: self.endidness,
                },
            ),
            Err(e) => Err(e),
        }
    }

    /// Returns everything from the cursor to the end as a slice of the
    /// shared data and moves the cursor to the end.
    pub fn get_remaining_as_slice(&mut self) -> (r: Result<&'s [I], Error>)
        ensures
            old(self).same_region(*final(self)),
            final(self).cursor() == old(self)@.len(),
            r matches Ok(s) && s@ == old(self)@.subrange(
                old(self).cursor() as int,
                old(self)@.len() as int,
            ),
    {
        proof {
            use_type_invariant(&*self);
        }
        let n = self.size - self.position;
        match self.advance(n) {
            Ok(p) => Ok(slice_subrange(self.data, p, p + n)),
            Err(e) => Err(e),
        }
    }

    /// Carves everything from the cursor to the end into an independent
    /// child segment and moves the cursor to the end.
    pub fn get_remaining(&mut self) -> (r: Result<Segment<'s, I>, Error>)
        ensures
            old(self).same_region(*final(self)),
            final(self).cursor() == old(self)@.len(),
            r matches Ok(c) && c@ == old(self)@.subrange(
                old(self).cursor() as int,
                old(self)@.len() as int,
            ) && c.origin() == old(self).origin() + old(self).cursor() && c.cursor() == 0
                && c.spec_endidness() == old(self).spec_endidness(),
    {
        proof {
            use_type_invariant(&*self);
        }
        let n = self.size - self.position;
        match self.advance(n) {
            Ok(p) => Ok(
                Segment {
                    data: slice_subrange(self.data, p, p + n),
                    initial_offset: self.initial_offset + p,
                    position: 0,
                    size: n,
                    endidness: self.endidness,
                },
            ),
            Err(e) => Err(e),
        }
    }

    /// Returns a reference to the item at the absolute offset `offset`
    /// without touching the cursor.
    pub fn item_ref_at(&self, offset: usize) -> (r: Result<&'s I, Error>)
        ensures
            self.validate_spec(offset as int, 1) is Ok ==> (r matches Ok(v) && *v == self@[offset
                - self.origin()]),
            self.validate_spec(offset as int, 1) matches Err(e) ==> r == Err::<&'s I, Error>(e),
    {
        proof {
            use_type_invariant(&*self);
        }
        match self.validate_offset(offset, 1) {
            Ok(()) => Ok(slice_index_get(self.data, offset - self.initial_offset)),
            Err(e) => Err(e),
        }
    }

    /// Returns a reference to the item at the cursor without touching the
    /// cursor.
    pub fn current_item_ref(&self) -> (r: Result<&'s I, Error>)
        ensures
            self.take_check(1) is Ok ==> (r matches Ok(v) && *v == self@[self.cursor() as int]),
            self.take_check(1) matches Err(e) ==> r == Err::<&'s I, Error>(e),
    {
        proof {
            use_type_invariant(&*self);
        }
        if self.position == self.size {
            Err(Error::NoMoreData)
        } else {
            Ok(slice_index_get(self.data, self.position))
        }
    }

    /// Returns the slice between the absolute offsets `start` (inclusive)
    /// and `end` (exclusive) without touching the cursor.
    pub fn get_as_slice(&self, start: usize, end: usize) -> (r: Result<&'s [I], Error>)
        requires
            start <= end,
        ensures
            match self.validate_spec(start as int, end - start) {
                Ok(()) => r matches Ok(s) && s@ == self@.subrange(
                    start - self.origin(),
                    end - self.origin(),
                ),
                Err(e) => r == Err::<&'s [I], Error>(e),
            },
    {
        proof {
            use_type_invariant(&*self);
        }
        match self.validate_offset(start, end - start) {
            Ok(()) => {
                let pos = start - self.initial_offset;
                Ok(slice_subrange(self.data, pos, pos + (end - start)))
            },
            Err(e) => Err(e),
        }
    }

    /// Returns the `num_items` items starting at the absolute offset
    /// `offset` as a slice, without touching the cursor.
    pub fn get_n_as_slice(&self, offset: usize, num_items: usize) -> (r: Result<&'s [I], Error>)
        requires
            offset + num_items <= usize::MAX,
        ensures
            match self.validate_spec(offset as int, num_items as int) {
                Ok(()) => r matches Ok(s) && s@ == self@.subrange(
                    offset - self.origin(),
                    offset - self.origin() + num_items,
                ),
                Err(e) => r == Err::<&'s [I], Error>(e),
            },
    {
        proof {
            use_type_invariant(&*self);
        }
        self.get_as_slice(offset, offset + num_items)
    }

    /// Carves the `num_items` items starting at the absolute offset `offset`
    /// into an independent child segment whose origin is `offset`, without
    /// touching the cursor.
    pub fn get_n(&self, offset: usize, num_items: usize) -> (r: Result<Segment<'s, I>, Error>)
        requires
            offset + num_items <= usize::MAX,
        ensures
            match self.validate_spec(offset as int, num_items as int) {
                Ok(()) => r matches Ok(c) && c@ == self@.subrange(
                    offset - self.origin(),
                    offset - self.origin() + num_items,
                ) && c.origin() == offset && c.cursor() == 0 && c.spec_endidness()
                    == self.spec_endidness(),
                Err(e) => r == Err::<Segment<'s, I>, Error>(e),
            },
    {
        proof {
            use_type_invariant(&*self);
        }
        match self.validate_offset(offset, num_items) {
            Ok(()) => {
                let pos = offset - self.initial_offset;
                Ok(
                    Segment {
                        data: slice_subrange(self.data, pos, pos + num_items),
                        initial_offset: offset,
                        position: 0,
                        size: num_items,
                        endidness: self.endidness,
                    },
                )
            },
            Err(e) => Err(e),
        }
    }

    /// Carves the items between the absolute offsets `start` (inclusive) and
    /// `end` (exclusive) into an independent child segment whose origin is
    /// `start`, without touching the cursor.  The child's content is exactly
    /// `self@.subrange(start - origin, end - origin)`.
    pub fn segment(&self, start: usize, end: usize) -> (r: Result<Segment<'s, I>, Error>)
        requires
            start <= end,
        ensures
            match self.validate_spec(start as int, end - start) {
                Ok(()) => r matches Ok(c) && c@ == self@.subrange(
                    start - self.origin(),
                    end - self.origin(),
                ) && c.origin() == start && c.cursor() == 0 && c.spec_endidness()
                    == self.spec_endidness(),
                Err(e) => r == Err::<Segment<'s, I>, Error>(e),
            },
    {
        proof {
            use_type_invariant(&*self);
        }
        match self.validate_offset(start, end - start) {
            Ok(()) => {
                let pos = start - self.initial_offset;
                Ok(
                    Segment {
                        data: slice_subrange(self.data, pos, pos + (end - start)),
                        initial_offset: start,
                        position: 0,
                        size: end - start,
                        endidness: self.endidness,
                    },
                )
            },
            Err(e) => Err(e),
        }
    }

    /// Carves all items at or after the absolute offset `offset` into an
    /// independent child segment whose origin is `offset`, without touching
    /// the cursor.
    pub fn all_after(&self, offset: usize) -> (r: Result<Segment<'s, I>, Error>)
        ensures
            match self.validate_spec(offset as int, 0) {
                Ok(()) => r matches Ok(c) && c@ == self@.subrange(
                    offset - self.origin(),
                    self@.len() as int,
                ) && c.origin() == offset && c.cursor() == 0 && c.spec_endidness()
                    == self.spec_endidness(),
                Err(e) => r == Err::<Segment<'s, I>, Error>(e),
            },
    {
        proof {
            use_type_invariant(&*self);
        }
        match self.validate_offset(offset, 0) {
            Ok(()) => {
                let pos = offset - self.initial_offset;
                Ok(
                    Segment {
                        data: slice_subrange(self.data, pos, self.size),
                        initial_offset: offset,
                        position: 0,
                        size: self.size - pos,
                        endidness: self.endidness,
                    },
                )
            },
            Err(e) => Err(e),
        }
    }

    /// Carves all items before the absolute offset `offset` (exclusive) into
    /// an independent child segment that keeps this segment's origin,
    /// without touching the cursor.
    pub fn all_before(&self, offset: usize) -> (r: Result<Segment<'s, I>, Error>)
        ensures
            match self.validate_spec(offset as int, 0) {
                Ok(()) => r matches Ok(c) && c@ == self@.subrange(0, offset - self.origin())
                    && c.origin() == self.origin() && c.cursor() == 0 && c.spec_endidness()
                    == self.spec_endidness(),
                Err(e) => r == Err::<Segment<'s, I>, Error>(e),
            },
    {
        proof {
            use_type_invariant(&*self);
        }
        match self.validate_offset(offset, 0) {
            Ok(()) => {
                let pos = offset - self.initial_offset;
                Ok(
                    Segment {
                        data: slice_subrange(self.data, 0, pos),
                        initial_offset: self.initial_offset,
                        position: 0,
                        size: pos,
                        endidness: self.endidness,
                    },
                )
            },
            Err(e) => Err(e),
        }
    }
}


impl<'s, I: Copy> Segment<'s, I> {
    /// Returns the item at the absolute offset `offset` without touching the
    /// cursor.
    pub fn item_at(&self, offset: usize) -> (r: Result<I, Error>)
        ensures
            r == match self.validate_spec(offset as int, 1) {
                Ok(()) => Ok::<I, Error>(self@[offset - self.origin()]),
                Err(e) => Err::<I, Error>(e),
            },
    {
        proof {
            use_type_invariant(&*self);
        }
        match self.validate_offset(offset, 1) {
            Ok(()) => Ok(*slice_index_get(self.data, offset - self.initial_offset)),
            Err(e) => Err(e),
        }
    }

    /// Returns the item at the cursor without touching the cursor.
    pub fn current_item(&self) -> (r: Result<I, Error>)
        ensures
            r == match self.take_check(1) {
                Ok(()) => Ok::<I, Error>(self@[self.cursor() as int]),
                Err(e) => Err::<I, Error>(e),
            },
    {
        proof {
            use_type_invariant(&*self);
        }
        if self.position == self.size {
            Err(Error::NoMoreData)
        } else {
            Ok(*slice_index_get(self.data, self.position))
        }
    }

    /// Returns the item at the cursor and advances the cursor past it.
    pub fn next_item(&mut self) -> (r: Result<I, Error>)
        ensures
            old(self).same_region(*final(self)),
            match old(self).take_check(1) {
                Ok(()) => r == Ok::<I, Error>(old(self)@[old(self).cursor() as int]) && final(self).cursor() == old(self).cursor() + 1,
                Err(e) => r == Err::<I, Error>(e) && final(self).cursor() == old(self).cursor(),
            },
    {
        proof {
            use_type_invariant(&*self);
        }
        match self.advance(1) {
            Ok(p) => Ok(*slice_index_get(self.data, p)),
            Err(e) => Err(e),
        }
    }

    /// Fills `buf` with the items starting at the absolute offset `offset`
    /// without touching the cursor.  On failure `buf` is untouched.
    pub fn items_at(&self, offset: usize, buf: &mut [I]) -> (r: Result<(), Error>)
        ensures
            final(buf)@.len() == old(buf)@.len(),
            match self.validate_spec(offset as int, old(buf)@.len() as int) {
                Ok(()) => r == Ok::<(), Error>(()) && final(buf)@ == self@.subrange(
                    offset - self.origin(),
                    offset - self.origin() + old(buf)@.len(),
                ),
                Err(e) => r == Err::<(), Error>(e) && final(buf)@ == old(buf)@,
            },
    {
        proof {
            use_type_invariant(&*self);
        }
        let n = buf.len();
        match self.validate_offset(offset, n) {
            Ok(()) => {
                let pos = offset - self.initial_offset;
                let mut i: usize = 0;
                while i < n
                    invariant
                        i <= n,
                        n == buf@.len(),
                        pos + n <= usize::MAX,
                        pos + n <= self.data@.len(),
                        forall|j: int| 0 <= j < i ==> buf@[j] == self.data@[pos + j],
                    decreases n - i,
                {
                    buf[i] = *slice_index_get(self.data, pos + i);
                    i = i + 1;
                }
                proof {
                    assert(buf@ =~= self@.subrange(pos as int, pos + n));
                }
                Ok(())
            },
            Err(e) => Err(e),
        }
    }

    /// Fills `buf` with the items at the cursor and advances the cursor past
    /// them.  On failure both the cursor and `buf` are untouched.
    pub fn next_items(&mut self, buf: &mut [I]) -> (r: Result<(), Error>)
        ensures
            old(self).same_region(*final(self)),
            final(buf)@.len() == old(buf)@.len(),
            match old(self).take_check(old(buf)@.len() as int) {
                Ok(()) => r == Ok::<(), Error>(()) && final(buf)@ == old(self)@.subrange(
                    old(self).cursor() as int,
                    old(self).cursor() + old(buf)@.len() as int,
                ) && final(self).cursor() == old(self).cursor() + old(buf)@.len(),
                Err(e) => r == Err::<(), Error>(e) && final(buf)@ == old(buf)@ && final(self).cursor() == old(self).cursor(),
            },
    {
        proof {
            use_type_invariant(&*self);
        }
        let n = buf.len();
        match self.advance(n) {
            Ok(p) => {
                let ghost data = self.data@;
                let mut i: usize = 0;
                while i < n
                    invariant
                        i <= n,
                        n == buf@.len(),
                        p + n <= usize::MAX,
                        p + n <= data.len(),
                        data == self.data@,
                        forall|j: int| 0 <= j < i ==> buf@[j] == data[p + j],
                    decreases n - i,
                {
                    buf[i] = *slice_index_get(self.data, p + i);
                    i = i + 1;
                }
                proof {
                    assert(buf@ =~= old(self)@.subrange(p as int, p + n));
                }
                Ok(())
            },
            Err(e) => Err(e),
        }
    }

    /// Fills `buf` with references to the items at the cursor and advances
    /// the cursor past them.  On failure both the cursor and `buf` are
    /// untouched.
    pub fn next_item_refs(&mut self, buf: &mut [&'s I]) -> (r: Result<(), Error>)
        ensures
            old(self).same_region(*final(self)),
            final(buf)@.len() == old(buf)@.len(),
            match old(self).take_check(old(buf)@.len() as int) {
                Ok(()) => r == Ok::<(), Error>(()) && final(self).cursor() == old(self).cursor()
                    + old(buf)@.len() && (forall|j: int|
                    0 <= j < old(buf)@.len() ==> *final(buf)@[j] == old(self)@[old(self).cursor()
                        + j]),
                Err(e) => r == Err::<(), Error>(e) && final(buf)@ == old(buf)@ && final(self).cursor() == old(self).cursor(),
            },
    {
        proof {
            use_type_invariant(&*self);
        }
        let n = buf.len();
        match self.advance(n) {
            Ok(p) => {
                let ghost data = self.data@;
                let mut i: usize = 0;
                while i < n
                    invariant
                        i <= n,
                        n == buf@.len(),
                        p + n <= usize::MAX,
                        p + n <= data.len(),
                        data == self.data@,
                        forall|j: int| 0 <= j < i ==> *buf@[j] == data[p + j],
                    decreases n - i,
                {
                    buf[i] = slice_index_get(self.data, p + i);
                    i = i + 1;
                }
                Ok(())
            },
            Err(e) => Err(e),
        }
    }

    /// Fills `buf` with references to the items starting at the absolute
    /// offset `offset` without touching the cursor.  On failure `buf` is
    /// untouched.
    pub fn item_refs_at(&self, offset: usize, buf: &mut [&'s I]) -> (r: Result<(), Error>)
        ensures
            final(buf)@.len() == old(buf)@.len(),
            match self.validate_spec(offset as int, old(buf)@.len() as int) {
                Ok(()) => r == Ok::<(), Error>(()) && (forall|j: int|
                    0 <= j < old(buf)@.len() ==> *final(buf)@[j] == self@[offset - self.origin()
                        + j]),
                Err(e) => r == Err::<(), Error>(e) && final(buf)@ == old(buf)@,
            },
    {
        proof {
            use_type_invariant(&*self);
        }
        let n = buf.len();
        match self.validate_offset(offset, n) {
            Ok(()) => {
                let pos = offset - self.initial_offset;
                let mut i: usize = 0;
                while i < n
                    invariant
                        i <= n,
                        n == buf@.len(),
                        pos + n <= usize::MAX,
                        pos + n <= self.data@.len(),
                        forall|j: int| 0 <= j < i ==> *buf@[j] == self.data@[pos + j],
                    decreases n - i,
                {
                    buf[i] = slice_index_get(self.data, pos + i);
                    i = i + 1;
                }
                Ok(())
            },
            Err(e) => Err(e),
        }
    }
}


impl<'s, I: Copy + Default> Segment<'s, I> {
    /// Returns the next `N` items as an array and advances the cursor past
    /// them.
    pub fn next_n_as_array<const N: usize>(&mut self) -> (r: Result<[I; N], Error>)
        ensures
            old(self).same_region(*final(self)),
            match old(self).take_check(N as int) {
                Ok(()) => r matches Ok(a) && a@ == old(self)@.subrange(
                    old(self).cursor() as int,
                    old(self).cursor() + N,
                ) && final(self).cursor() == old(self).cursor() + N,
                Err(e) => r == Err::<[I; N], Error>(e) && final(self).cursor() == old(
                    self,
                ).cursor(),
            },
    {
        proof {
            use_type_invariant(&*self);
        }
        match self.advance(N) {
            Ok(p) => {
                let ghost data = self.data@;
                let mut array = vstd::array::array_fill_for_copy_types::<I, N>(I::default());
                let mut i: usize = 0;
                while i < N
                    invariant
                        i <= N,
                        p + N <= usize::MAX,
                        p + N <= data.len(),
                        data == self.data@,
                        array@.len() == N,
                        forall|j: int| 0 <= j < i ==> array@[j] == data[p + j],
                    decreases N - i,
                {
                    array[i] = *slice_index_get(self.data, p + i);
                    i = i + 1;
                }
                proof {
                    assert(array@ =~= old(self)@.subrange(p as int, p + N));
                }
                Ok(array)
            },
            Err(e) => Err(e),
        }
    }
}

impl<'s> Segment<'s, u8> {
    /// Creates a segment over binary data with origin 0 and the given byte
    /// order.
    pub fn with_endidness(data: &'s [u8], endidness: Endidness) -> (r: Self)
        ensures
            r@ == data@,
            r.origin() == 0,
            r.cursor() == 0,
            r.spec_endidness() == endidness,
    {
        Segment { data, initial_offset: 0, position: 0, size: data.len(), endidness }
    }

    /// Creates a segment over binary data with the given origin offset and
    /// byte order.
    pub fn with_offset_and_endidness(
        data: &'s [u8],
        initial_offset: usize,
        endidness: Endidness,
    ) -> (r: Self)
        requires
            initial_offset + data@.len() <= usize::MAX,
        ensures
            r@ == data@,
            r.origin() == initial_offset,
            r.cursor() == 0,
            r.spec_endidness() == endidness,
    {
        Segment { data, initial_offset, position: 0, size: data.len(), endidness }
    }

    /// The integer decoded from the `N::spec_width()` bytes at position
    /// `pos`, under this segment's byte order.
    pub open spec fn decode_at<N: Integer>(self, pos: int) -> N {
        N::spec_from(
            endian_value(self.spec_endidness(), self@.subrange(pos, pos + N::spec_width())),
        )
    }

    /// What reading an `N` at the absolute offset `offset` yields.
    pub open spec fn at_result<N: Integer>(self, offset: int) -> Result<N, Error> {
        match self.validate_spec(offset, N::spec_width() as int) {
            Ok(()) => Ok(self.decode_at::<N>(offset - self.origin())),
            Err(e) => Err(e),
        }
    }

    /// What reading an `N` at the cursor yields.
    pub open spec fn read_result<N: Integer>(self) -> Result<N, Error> {
        match self.take_check(N::spec_width() as int) {
            Ok(()) => Ok(self.decode_at::<N>(self.cursor() as int)),
            Err(e) => Err(e),
        }
    }

    /// Where the cursor stands after a sequential read of an `N`: past the
    /// consumed bytes on success, unmoved on failure.
    pub open spec fn cursor_after_read<N: Integer>(self) -> nat {
        if self.take_check(N::spec_width() as int) is Ok {
            (self.cursor() + N::spec_width()) as nat
        } else {
            self.cursor()
        }
    }

    /// Decodes an integer of type `N` from the bytes at the absolute offset
    /// `offset`, without touching the cursor.
    pub fn int_at<N: Integer>(&self, offset: usize) -> (r: Result<N, Error>)
        ensures
            r == self.at_result::<N>(offset as int),
    {
        proof {
            use_type_invariant(&*self);
        }
        let w = N::width();
        match self.validate_offset(offset, w) {
            Ok(()) => {
                let pos = offset - self.initial_offset;
                Ok(N::with_endidness(slice_subrange(self.data, pos, pos + w), self.endidness))
            },
            Err(e) => Err(e),
        }
    }

    /// Decodes an integer of type `N` from the bytes at the cursor, without
    /// touching the cursor.
    pub fn current_int<N: Integer>(&self) -> (r: Result<N, Error>)
        ensures
            r == self.read_result::<N>(),
    {
        proof {
            use_type_invariant(&*self);
        }
        let r = self.int_at::<N>(self.initial_offset + self.position);
        proof {
            assert(self.at_result::<N>(self.origin() + self.cursor() as int) == self.read_result::<N>());
        }
        r
    }

    /// Decodes an integer of type `N` from the bytes at the cursor, looking
    /// ahead without consuming them.
    pub fn peek_int<N: Integer>(&self) -> (r: Result<N, Error>)
        ensures
            r == self.read_result::<N>(),
    {
        self.current_int::<N>()
    }

    /// Decodes an integer of type `N` from the bytes at the cursor and
    /// advances the cursor past them.
    pub fn next_int<N: Integer>(&mut self) -> (r: Result<N, Error>)
        ensures
            old(self).same_region(*final(self)),
            r == old(self).read_result::<N>(),
            final(self).cursor() == old(self).cursor_after_read::<N>(),
    {
        proof {
            use_type_invariant(&*self);
        }
        let w = N::width();
        match self.advance(w) {
            Ok(p) => Ok(N::with_endidness(slice_subrange(self.data, p, p + w), self.endidness)),
            Err(e) => Err(e),
        }
    }

    /// Fills `buf` with the bytes at the cursor and advances the cursor past
    /// them.  On failure both the cursor and `buf` are untouched.
    pub fn next_bytes(&mut self, buf: &mut [u8]) -> (r: Result<(), Error>)
        ensures
            old(self).same_region(*final(self)),
            final(buf)@.len() == old(buf)@.len(),
            match old(self).take_check(old(buf)@.len() as int) {
                Ok(()) => r == Ok::<(), Error>(()) && final(buf)@ == old(self)@.subrange(
                    old(self).cursor() as int,
                    old(self).cursor() + old(buf)@.len() as int,
                ) && final(self).cursor() == old(self).cursor() + old(buf)@.len(),
                Err(e) => r == Err::<(), Error>(e) && final(buf)@ == old(buf)@ && final(self).cursor() == old(self).cursor(),
            },
    {
        self.next_items(buf)
    }

    /// Tests whether the bytes at the cursor start with `prefix`, looking
    /// ahead without consuming anything.
    pub fn next_items_are(&self, prefix: &[u8]) -> (r: Result<bool, Error>)
        ensures
            r == match self.take_check(prefix@.len() as int) {
                Ok(()) => Ok::<bool, Error>(
                    self@.subrange(self.cursor() as int, self.cursor() + prefix@.len() as int)
                        == prefix@,
                ),
                Err(e) => Err::<bool, Error>(e),
            },
    {
        proof {
            use_type_invariant(&*self);
        }
        let n = prefix.len();
        let p = self.position;
        if n > 0 && p == self.size {
            return Err(Error::NoMoreData);
        }
        if n > self.size - p {
            return Err(Error::NotEnoughData { requested: n, left: self.size - p });
        }
        let ghost window = self@.subrange(p as int, p + n as int);
        let mut i: usize = 0;
        while i < n
            invariant
                i <= n,
                n == prefix@.len(),
                p + n <= usize::MAX,
                p + n <= self.data@.len(),
                window == self.data@.subrange(p as int, p + n as int),
                p == self.cursor(),
                self.take_check(n as int) is Ok,
                forall|j: int| 0 <= j < i ==> prefix@[j] == self.data@[p + j],
            decreases n - i,
        {
            if *slice_index_get(prefix, i) != *slice_index_get(self.data, p + i) {
                proof {
                    assert(window[i as int] == self.data@[p + i]);
                    assert(window[i as int] != prefix@[i as int]);
                    assert(window != prefix@);
                }
                return Ok(false);
            }
            i = i + 1;
        }
        proof {
            assert(window =~= prefix@);
        }
        Ok(true)
    }

    /// See [`Segment::int_at`]; reads a `u8`.
    pub fn u8_at(&self, offset: usize) -> (r: Result<u8, Error>)
        ensures
            r == self.at_result::<u8>(offset as int),
    {
        self.int_at::<u8>(offset)
    }

    /// See [`Segment::int_at`]; reads a `u16`.
    pub fn u16_at(&self, offset: usize) -> (r: Result<u16, Error>)
        ensures
            r == self.at_result::<u16>(offset as int),
    {
        self.int_at::<u16>(offset)
    }

    /// See [`Segment::int_at`]; reads a `u32`.
    pub fn u32_at(&self, offset: usize) -> (r: Result<u32, Error>)
        ensures
            r == self.at_result::<u32>(offset as int),
    {
        self.int_at::<u32>(offset)
    }

    /// See [`Segment::int_at`]; reads a `u64`.
    pub fn u64_at(&self, offset: usize) -> (r: Result<u64, Error>)
        ensures
            r == self.at_result::<u64>(offset as int),
    {
        self.int_at::<u64>(offset)
    }

    /// See [`Segment::int_at`]; reads a `u128`.
    pub fn u128_at(&self, offset: usize) -> (r: Result<u128, Error>)
        ensures
            r == self.at_result::<u128>(offset as int),
    {
        self.int_at::<u128>(offset)
    }

    /// See [`Segment::int_at`]; reads an `i8`.
    pub fn i8_at(&self, offset: usize) -> (r: Result<i8, Error>)
        ensures
            r == self.at_result::<i8>(offset as int),
    {
        self.int_at::<i8>(offset)
    }

    /// See [`Segment::int_at`]; reads an `i16`.
    pub fn i16_at(&self, offset: usize) -> (r: Result<i16, Error>)
        ensures
            r == self.at_result::<i16>(offset as int),
    {
        self.int_at::<i16>(offset)
    }

    /// See [`Segment::int_at`]; reads an `i32`.
    pub fn i32_at(&self, offset: usize) -> (r: Result<i32, Error>)
        ensures
            r == self.at_result::<i32>(offset as int),
    {
        self.int_at::<i32>(offset)
    }

    /// See [`Segment::int_at`]; reads an `i64`.
    pub fn i64_at(&self, offset: usize) -> (r: Result<i64, Error>)
        ensures
            r == self.at_result::<i64>(offset as int),
    {
        self.int_at::<i64>(offset)
    }

    /// See [`Segment::int_at`]; reads an `i128`.
    pub fn i128_at(&self, offset: usize) -> (r: Result<i128, Error>)
        ensures
            r == self.at_result::<i128>(offset as int),
    {
        self.int_at::<i128>(offset)
    }

    /// See [`Segment::current_int`]; reads a `u8`.
    pub fn current_u8(&self) -> (r: Result<u8, Error>)
        ensures
            r == self.read_result::<u8>(),
    {
        self.current_int::<u8>()
    }

    /// See [`Segment::current_int`]; reads a `u16`.
    pub fn current_u16(&self) -> (r: Result<u16, Error>)
        ensures
            r == self.read_result::<u16>(),
    {
        self.current_int::<u16>()
    }

    /// See [`Segment::current_int`]; reads a `u32`.
    pub fn current_u32(&self) -> (r: Result<u32, Error>)
        ensures
            r == self.read_result::<u32>(),
    {
        self.current_int::<u32>()
    }

    /// See [`Segment::current_int`]; reads a `u64`.
    pub fn current_u64(&self) -> (r: Result<u64, Error>)
        ensures
            r == self.read_result::<u64>(),
    {
        self.current_int::<u64>()
    }

    /// See [`Segment::current_int`]; reads a `u128`.
    pub fn current_u128(&self) -> (r: Result<u128, Error>)
        ensures
            r == self.read_result::<u128>(),
    {
        self.current_int::<u128>()
    }

    /// See [`Segment::current_int`]; reads an `i8`.
    pub fn current_i8(&self) -> (r: Result<i8, Error>)
        ensures
            r == self.read_result::<i8>(),
    {
        self.current_int::<i8>()
    }

    /// See [`Segment::current_int`]; reads an `i16`.
    pub fn current_i16(&self) -> (r: Result<i16, Error>)
        ensures
            r == self.read_result::<i16>(),
    {
        self.current_int::<i16>()
    }

    /// See [`Segment::current_int`]; reads an `i32`.
    pub fn current_i32(&self) -> (r: Result<i32, Error>)
        ensures
            r == self.read_result::<i32>(),
    {
        self.current_int::<i32>()
    }

    /// See [`Segment::current_int`]; reads an `i64`.
    pub fn current_i64(&self) -> (r: Result<i64, Error>)
        ensures
            r == self.read_result::<i64>(),
    {
        self.current_int::<i64>()
    }

    /// See [`Segment::current_int`]; reads an `i128`.
    pub fn current_i128(&self) -> (r: Result<i128, Error>)
        ensures
            r == self.read_result::<i128>(),
    {
        self.current_int::<i128>()
    }

    /// See [`Segment::peek_int`]; reads a `u8`.
    pub fn peek_u8(&self) -> (r: Result<u8, Error>)
        ensures
            r == self.read_result::<u8>(),
    {
        self.peek_int::<u8>()
    }

    /// See [`Segment::peek_int`]; reads a `u16`.
    pub fn peek_u16(&self) -> (r: Result<u16, Error>)
        ensures
            r == self.read_result::<u16>(),
    {
        self.peek_int::<u16>()
    }

    /// See [`Segment::peek_int`]; reads a `u32`.
    pub fn peek_u32(&self) -> (r: Result<u32, Error>)
        ensures
            r == self.read_result::<u32>(),
    {
        self.peek_int::<u32>()
    }

    /// See [`Segment::peek_int`]; reads a `u64`.
    pub fn peek_u64(&self) -> (r: Result<u64, Error>)
        ensures
            r == self.read_result::<u64>(),
    {
        self.peek_int::<u64>()
    }

    /// See [`Segment::peek_int`]; reads a `u128`.
    pub fn peek_u128(&self) -> (r: Result<u128, Error>)
        ensures
            r == self.read_result::<u128>(),
    {
        self.peek_int::<u128>()
    }

    /// See [`Segment::peek_int`]; reads an `i8`.
    pub fn peek_i8(&self) -> (r: Result<i8, Error>)
        ensures
            r == self.read_result::<i8>(),
    {
        self.peek_int::<i8>()
    }

    /// See [`Segment::peek_int`]; reads an `i16`.
    pub fn peek_i16(&self) -> (r: Result<i16, Error>)
        ensures
            r == self.read_result::<i16>(),
    {
        self.peek_int::<i16>()
    }

    /// See [`Segment::peek_int`]; reads an `i32`.
    pub fn peek_i32(&self) -> (r: Result<i32, Error>)
        ensures
            r == self.read_result::<i32>(),
    {
        self.peek_int::<i32>()
    }

    /// See [`Segment::peek_int`]; reads an `i64`.
    pub fn peek_i64(&self) -> (r: Result<i64, Error>)
        ensures
            r == self.read_result::<i64>(),
    {
        self.peek_int::<i64>()
    }

    /// See [`Segment::peek_int`]; reads an `i128`.
    pub fn peek_i128(&self) -> (r: Result<i128, Error>)
        ensures
            r == self.read_result::<i128>(),
    {
        self.peek_int::<i128>()
    }

    /// See [`Segment::next_int`]; reads a `u8`.
    pub fn next_u8(&mut self) -> (r: Result<u8, Error>)
        ensures
            old(self).same_region(*final(self)),
            r == old(self).read_result::<u8>(),
            final(self).cursor() == old(self).cursor_after_read::<u8>(),
    {
        self.next_int::<u8>()
    }

    /// See [`Segment::next_int`]; reads a `u16`.
    pub fn next_u16(&mut self) -> (r: Result<u16, Error>)
        ensures
            old(self).same_region(*final(self)),
            r == old(self).read_result::<u16>(),
            final(self).cursor() == old(self).cursor_after_read::<u16>(),
    {
        self.next_int::<u16>()
    }

    /// See [`Segment::next_int`]; reads a `u32`.
    pub fn next_u32(&mut self) -> (r: Result<u32, Error>)
        ensures
            old(self).same_region(*final(self)),
            r == old(self).read_result::<u32>(),
            final(self).cursor() == old(self).cursor_after_read::<u32>(),
    {
        self.next_int::<u32>()
    }

    /// See [`Segment::next_int`]; reads a `u64`.
    pub fn next_u64(&mut self) -> (r: Result<u64, Error>)
        ensures
            old(self).same_region(*final(self)),
            r == old(self).read_result::<u64>(),
            final(self).cursor() == old(self).cursor_after_read::<u64>(),
    {
        self.next_int::<u64>()
    }

    /// See [`Segment::next_int`]; reads a `u128`.
    pub fn next_u128(&mut self) -> (r: Result<u128, Error>)
        ensures
            old(self).same_region(*final(self)),
            r == old(self).read_result::<u128>(),
            final(self).cursor() == old(self).cursor_after_read::<u128>(),
    {
        self.next_int::<u128>()
    }

    /// See [`Segment::next_int`]; reads an `i8`.
    pub fn next_i8(&mut self) -> (r: Result<i8, Error>)
        ensures
            old(self).same_region(*final(self)),
            r == old(self).read_result::<i8>(),
            final(self).cursor() == old(self).cursor_after_read::<i8>(),
    {
        self.next_int::<i8>()
    }

    /// See [`Segment::next_int`]; reads an `i16`.
    pub fn next_i16(&mut self) -> (r: Result<i16, Error>)
        ensures
            old(self).same_region(*final(self)),
            r == old(self).read_result::<i16>(),
            final(self).cursor() == old(self).cursor_after_read::<i16>(),
    {
        self.next_int::<i16>()
    }

    /// See [`Segment::next_int`]; reads an `i32`.
    pub fn next_i32(&mut self) -> (r: Result<i32, Error>)
        ensures
            old(self).same_region(*final(self)),
            r == old(self).read_result::<i32>(),
            final(self).cursor() == old(self).cursor_after_read::<i32>(),
    {
        self.next_int::<i32>()
    }

    /// See [`Segment::next_int`]; reads an `i64`.
    pub fn next_i64(&mut self) -> (r: Result<i64, Error>)
        ensures
            old(self).same_region(*final(self)),
            r == old(self).read_result::<i64>(),
            final(self).cursor() == old(self).cursor_after_read::<i64>(),
    {
        self.next_int::<i64>()
    }

    /// See [`Segment::next_int`]; reads an `i128`.
    pub fn next_i128(&mut self) -> (r: Result<i128, Error>)
        ensures
            old(self).same_region(*final(self)),
            r == old(self).read_result::<i128>(),
            final(self).cursor() == old(self).cursor_after_read::<i128>(),
    {
        self.next_int::<i128>()
    }
}


/// Random access succeeds on the whole valid range: for every offset in
/// `lower_offset_limit() ..< upper_offset_limit()`, validation of a one-item
/// read passes, so `item_at` returns `Ok` with the item at that offset — the
/// same value on every call, since `item_at` takes the segment immutably and
/// never moves the cursor.
pub proof fn lemma_item_at_in_range<I>(s: Segment<I>, offset: usize)
    requires
        s.origin() <= offset < s.origin() + s@.len(),
    ensures
        s.validate_spec(offset as int, 1) == Ok::<(), Error>(()),
{
}

/// Sequential consumption is exact bookkeeping: a segment that started with
/// its cursor at 0 and has consumed `k` items — in any number of `next_*`
/// steps, each of which adds its width to the cursor — reports a current
/// offset of `initial_offset() + k` and `size() - k` remaining items.
pub proof fn lemma_consumption_accounting<I>(start: Segment<I>, now: Segment<I>, k: nat)
    requires
        start.same_region(now),
        start.cursor() == 0,
        now.cursor() == k,
        k <= start@.len(),
    ensures
        now.origin() + now.cursor() == start.origin() + k,
        now@.len() - now.cursor() == start@.len() - k,
{
}

/// Moving to any valid offset `o` and then asking for the current offset
/// gives back exactly `o`: `move_to(o)` succeeds for every `o` in
/// `lower_offset_limit() ..= upper_offset_limit()` and leaves the cursor at
/// `o - initial_offset()`, so `current_offset()` returns `o`.
pub proof fn lemma_move_to_then_current<I>(before: Segment<I>, after: Segment<I>, o: usize)
    requires
        before.origin() <= o <= before.origin() + before@.len(),
        before.same_region(after),
        after.cursor() == o - before.origin(),
    ensures
        before.validate_spec(o as int, 0) == Ok::<(), Error>(()),
        after.origin() + after.cursor() == o,
{
}

/// At the end of the data a zero-size request still succeeds, while every
/// positive-size request fails with the distinguished end-of-data error.
pub proof fn lemma_reads_at_end<I>(s: Segment<I>, n: int)
    requires
        s.cursor() == s@.len(),
    ensures
        s.take_check(0) == Ok::<(), Error>(()),
        n > 0 ==> s.take_check(n) == Err::<(), Error>(Error::NoMoreData),
{
}

/// The upper offset limit is a valid off-the-end marker position for
/// zero-size requests, and every offset beyond it fails validation with
/// `OffsetTooLarge`, whatever the requested size.
pub proof fn lemma_offset_limits<I>(s: Segment<I>, offset: usize, n: int)
    ensures
        s.validate_spec(s.origin() + s@.len() as int, 0) == Ok::<(), Error>(()),
        offset > s.origin() + s@.len() ==> s.validate_spec(offset as int, n) == Err::<(), Error>(
            Error::OffsetTooLarge { offset },
        ),
{
}

/// A failed sequential read never moves the cursor: both shortage errors
/// leave the segment's observable state exactly as it was.  (Each `next_*`
/// operation's contract ties its `Err` case to an unchanged cursor; this
/// spells out which error arises when.)
pub proof fn lemma_failed_read_error<I>(s: Segment<I>, n: int)
    requires
        s.cursor() <= s@.len(),
        n > 0,
        n > s@.len() - s.cursor(),
    ensures
        s.cursor() == s@.len() ==> s.take_check(n) == Err::<(), Error>(Error::NoMoreData),
        s.cursor() < s@.len() ==> s.take_check(n) == Err::<(), Error>(
            Error::NotEnoughData { requested: n as usize, left: (s@.len() - s.cursor()) as usize },
        ),
{
}

} // verus!
