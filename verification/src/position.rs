//! Byte-position primitives: [`BytePos`] and [`ByteRange`].
//!
//! [`BytePos`] is a `usize` byte offset from the start of a snapshot;
//! [`ByteRange`] is a half-open `[start, end)` pair of positions. Positions are
//! directly indexable into the snapshot, so the largest addressable file is
//! bounded by the platform's `usize`.

use vstd::prelude::*;
use vstd::std_specs::ops::{AddSpec, SubSpec};
use std::cmp::Ordering;
use vstd::std_specs::cmp::PartialOrdSpec;

use crate::error::Error;
use crate::text::{decimal, usize_decimal};

verus! {

/// A byte offset into source text, stored as a `usize`.
#[derive(Clone, Copy, Debug, PartialEq, Eq, Structural, Ord, Hash)]
pub struct BytePos(usize);

impl View for BytePos {
    type V = usize;

    closed spec fn view(&self) -> usize {
        self.0
    }
}

impl BytePos {
    /// The zero byte offset.
    pub fn zero() -> (r: BytePos)
        ensures
            r@ == 0,
    {
        BytePos(0)
    }

    /// Construct a [`BytePos`] from a `usize` offset.
    pub fn new(n: usize) -> (r: BytePos)
        ensures
            r@ == n,
    {
        BytePos(n)
    }

    /// Return the raw `usize` offset.
    pub fn to_usize(self) -> (r: usize)
        ensures
            r == self@,
    {
        self.0
    }

    /// Collapse this position into an empty [`ByteRange`] at the same offset.
    pub fn as_range(self) -> (r: ByteRange)
        ensures
            r@ == (self@, self@),
    {
        ByteRange { start: self, end: self }
    }

    /// Checked addition: `None` if the sum would overflow this platform's
    /// `usize`, where `+` panics.
    pub fn checked_add(self, rhs: BytePos) -> (r: Option<BytePos>)
        ensures
            r is Some <==> self@ + rhs@ <= usize::MAX,
            r matches Some(sum) ==> sum@ == self@ + rhs@,
    {
        match self.0.checked_add(rhs.0) {
            Some(sum) => Some(BytePos(sum)),
            None => None,
        }
    }

    /// Checked subtraction: `None` if `rhs` is greater than `self`, where `-`
    /// panics.
    pub fn checked_sub(self, rhs: BytePos) -> (r: Option<BytePos>)
        ensures
            r is Some <==> rhs@ <= self@,
            r matches Some(difference) ==> difference@ == self@ - rhs@,
    {
        match self.0.checked_sub(rhs.0) {
            Some(difference) => Some(BytePos(difference)),
            None => None,
        }
    }

    /// Saturating addition: clamps at the top of the address space instead of
    /// panicking.
    pub fn saturating_add(self, rhs: BytePos) -> (r: BytePos)
        ensures
            r@ == if self@ + rhs@ <= usize::MAX { self@ + rhs@ } else { usize::MAX as int },
    {
        BytePos(self.0.saturating_add(rhs.0))
    }

    /// Saturating subtraction: clamps at zero instead of panicking.
    pub fn saturating_sub(self, rhs: BytePos) -> (r: BytePos)
        ensures
            r@ == if rhs@ <= self@ { self@ - rhs@ } else { 0 },
    {
        BytePos(self.0.saturating_sub(rhs.0))
    }

    /// The offset in decimal, as `Display` would print it.
    pub fn to_string(&self) -> (r: String)
        ensures
            r@ == decimal(self@ as nat),
    {
        usize_decimal(self.0)
    }

    /// The offset in decimal: the position's debug rendering is its bare
    /// offset, with no type name around it.
    pub fn debug_string(&self) -> (r: String)
        ensures
            r@ == decimal(self@ as nat),
    {
        usize_decimal(self.0)
    }
}

impl Default for BytePos {
    fn default() -> (r: BytePos)
        ensures
            r@ == 0,
    {
        BytePos(0)
    }
}

impl vstd::std_specs::cmp::PartialOrdSpecImpl<BytePos> for BytePos {
    open spec fn obeys_partial_cmp_spec() -> bool {
        true
    }

    open spec fn partial_cmp_spec(&self, other: &BytePos) -> Option<Ordering> {
        if self@ < other@ {
            Some(Ordering::Less)
        } else if self@ == other@ {
            Some(Ordering::Equal)
        } else {
            Some(Ordering::Greater)
        }
    }
}

impl std::cmp::PartialOrd<BytePos> for BytePos {
    /// Positions compare as their offsets.
    fn partial_cmp(&self, other: &BytePos) -> (r: Option<Ordering>) {
        if self.0 < other.0 {
            Some(Ordering::Less)
        } else if self.0 == other.0 {
            Some(Ordering::Equal)
        } else {
            Some(Ordering::Greater)
        }
    }
}

impl vstd::std_specs::ops::AddSpecImpl<BytePos> for BytePos {
    open spec fn obeys_add_spec() -> bool {
        true
    }

    open spec fn add_req(self, rhs: BytePos) -> bool {
        self@ + rhs@ <= usize::MAX
    }

    closed spec fn add_spec(self, rhs: BytePos) -> BytePos {
        BytePos((self.0 + rhs.0) as usize)
    }
}

impl std::ops::Add<BytePos> for BytePos {
    type Output = BytePos;

    /// Requires that the sum fits this platform's `usize`; a caller that
    /// cannot show it uses [`BytePos::checked_add`].
    fn add(self, rhs: BytePos) -> (r: BytePos) {
        BytePos(self.0.checked_add(rhs.0).expect("BytePos addition overflowed"))
    }
}

impl vstd::std_specs::ops::SubSpecImpl<BytePos> for BytePos {
    open spec fn obeys_sub_spec() -> bool {
        true
    }

    open spec fn sub_req(self, rhs: BytePos) -> bool {
        rhs@ <= self@
    }

    closed spec fn sub_spec(self, rhs: BytePos) -> BytePos {
        BytePos((self.0 - rhs.0) as usize)
    }
}

impl std::ops::Sub<BytePos> for BytePos {
    type Output = BytePos;

    /// Requires that `rhs` is not greater than `self`; a caller that cannot
    /// show it uses [`BytePos::checked_sub`].
    fn sub(self, rhs: BytePos) -> (r: BytePos) {
        BytePos(self.0.checked_sub(rhs.0).expect("BytePos subtraction underflowed"))
    }
}

/// A half-open byte range: `[start, end)`, with `start <= end`.
#[derive(Clone, Copy, Debug, PartialEq, Eq, Structural, Hash)]
pub struct ByteRange {
    start: BytePos,
    end: BytePos,
}

impl View for ByteRange {
    /// The range's `(start, end)` offsets.
    type V = (usize, usize);

    closed spec fn view(&self) -> (usize, usize) {
        (self.start@, self.end@)
    }
}

impl ByteRange {
    /// Every range has its start at or before its end.
    #[verifier::type_invariant]
    spec fn well_ordered(self) -> bool {
        self.start@ <= self.end@
    }

    /// Construct a range from a start and end position.
    ///
    /// The start must not be greater than the end; [`ByteRange::try_new`]
    /// reports that case as an error instead.
    pub fn new(start: BytePos, end: BytePos) -> (r: ByteRange)
        requires
            start@ <= end@,
        ensures
            r@ == (start@, end@),
    {
        ByteRange { start, end }
    }

    /// Fallible variant of [`ByteRange::new`]: a reversed pair is
    /// [`Error::ReversedRange`] carrying both bounds.
    pub fn try_new(start: BytePos, end: BytePos) -> (r: Result<ByteRange, Error>)
        ensures
            r is Ok <==> start@ <= end@,
            r matches Ok(range) ==> range@ == (start@, end@),
            r matches Err(e) ==> e == (Error::ReversedRange { start, end }),
    {
        if start.0 > end.0 {
            return Err(Error::ReversedRange { start, end });
        }
        Ok(ByteRange { start, end })
    }

    /// The empty range at offset zero, the same range as `BytePos::zero().as_range()`.
    pub fn empty() -> (r: ByteRange)
        ensures
            r@ == (0usize, 0usize),
    {
        ByteRange { start: BytePos(0), end: BytePos(0) }
    }

    /// Start of the range in bytes.
    pub fn start(&self) -> (r: BytePos)
        ensures
            r@ == self@.0,
            self@.0 <= self@.1,
    {
        proof {
            use_type_invariant(self);
        }
        self.start
    }

    /// End of the range in bytes.
    pub fn end(&self) -> (r: BytePos)
        ensures
            r@ == self@.1,
            self@.0 <= self@.1,
    {
        proof {
            use_type_invariant(self);
        }
        self.end
    }

    /// Length of the range in bytes.
    pub fn len(&self) -> (r: usize)
        ensures
            r == self@.1 - self@.0,
    {
        proof {
            use_type_invariant(self);
        }
        self.end.0 - self.start.0
    }

    /// Whether the range is empty.
    pub fn is_empty(&self) -> (r: bool)
        ensures
            r == (self@.0 == self@.1),
    {
        self.start.0 == self.end.0
    }

    /// The range as `start..end` in decimal, its debug rendering.
    pub fn debug_string(&self) -> (r: String)
        ensures
            r@ == decimal(self@.0 as nat) + ".."@ + decimal(self@.1 as nat),
    {
        let mut text = usize_decimal(self.start.0);
        text.append("..");
        let end = usize_decimal(self.end.0);
        text.append(end.as_str());
        text
    }
}

impl Default for ByteRange {
    fn default() -> (r: ByteRange)
        ensures
            r@ == (0usize, 0usize),
    {
        ByteRange { start: BytePos(0), end: BytePos(0) }
    }
}

/// Two positions with the same offset are the same position.
pub proof fn law_byte_pos_is_its_offset(a: BytePos, b: BytePos)
    ensures
        a@ == b@ <==> a == b,
{
}

/// Two ranges with the same bounds are the same range: in particular
/// `ByteRange::empty()`, `ByteRange::default()` and `BytePos::zero().as_range()`
/// are one value, and `try_new` builds the very range that `new` builds.
pub proof fn law_byte_range_is_its_bounds(a: ByteRange, b: ByteRange)
    ensures
        a@ == b@ <==> a == b,
{
}

/// Where `checked_add` answers, `+` is defined and gives the same sum.
pub proof fn law_checked_add_agrees_with_add(a: BytePos, b: BytePos)
    requires
        a@ + b@ <= usize::MAX,
    ensures
        a.add_req(b),
        a.add_spec(b)@ == a@ + b@,
{
}

/// Where `checked_sub` answers, `-` is defined and gives the same difference.
pub proof fn law_checked_sub_agrees_with_sub(a: BytePos, b: BytePos)
    requires
        b@ <= a@,
    ensures
        a.sub_req(b),
        a.sub_spec(b)@ == a@ - b@,
{
}

/// Positions order as their offsets: `<`, `<=`, `>`, `>=` and `partial_cmp`
/// on positions answer as they do on the `usize` offsets, and two positions
/// compare equal exactly when they are the same position.
pub proof fn law_positions_order_as_offsets(a: BytePos, b: BytePos)
    ensures
        a.partial_cmp_spec(&b) == Some(Ordering::Less) <==> a@ < b@,
        a.partial_cmp_spec(&b) == Some(Ordering::Equal) <==> a == b,
        a.partial_cmp_spec(&b) == Some(Ordering::Greater) <==> a@ > b@,
{
}

/// Subtracting what was just added gives the position back.
pub proof fn law_add_then_sub_round_trips(a: BytePos, b: BytePos)
    requires
        a@ + b@ <= usize::MAX,
    ensures
        a.add_spec(b).sub_req(b),
        a.add_spec(b).sub_spec(b) == a,
{
}

/// Adding zero, or subtracting zero, leaves a position unchanged.
pub proof fn law_zero_is_neutral(a: BytePos, zero: BytePos)
    requires
        zero@ == 0,
    ensures
        a.add_req(zero),
        a.add_spec(zero) == a,
        a.sub_req(zero),
        a.sub_spec(zero) == a,
{
}

} // verus!
