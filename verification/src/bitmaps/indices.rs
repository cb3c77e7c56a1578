//! Bitmap indices
//!
//! An index is a position in a bitmap: an integer from 0 to [`MAX_INDEX`].
//! Conversions from other integer types fail, and never wrap, when the value
//! lies outside that range.

use core::cmp::Ordering;
use vstd::prelude::*;
use vstd::std_specs::cmp::PartialOrdSpecImpl;
use vstd::std_specs::convert::{FromSpecImpl, TryFromSpecImpl};

verus! {

/// The largest index that a bitmap can address: 2^31 - 1.
pub const MAX_INDEX: u32 = 0x7fff_ffff;

/// Error returned when an integer lies outside the range of bitmap indices
#[derive(Clone, Copy, Debug, PartialEq, Eq, Structural)]
pub struct DomainError;

/// Position of a bit in a bitmap: an integer from 0 to [`MAX_INDEX`]
#[derive(Clone, Copy, Debug, PartialEq, Eq, Structural, Ord, Hash)]
pub struct BitmapIndex(u32);

impl BitmapIndex {
    /// An index never exceeds [`MAX_INDEX`].
    #[verifier::type_invariant]
    pub closed spec fn wf(self) -> bool {
        self.0 <= MAX_INDEX
    }

    /// The integer that this index stands for.
    pub closed spec fn view(self) -> int {
        self.0 as int
    }

    /// The index that stands for the integer `value`, for a `value` from 0
    /// to [`MAX_INDEX`].
    pub closed spec fn at(value: int) -> BitmapIndex {
        BitmapIndex(value as u32)
    }

    /// [`BitmapIndex::at`] gives an index that stands for its argument.
    pub broadcast proof fn lemma_at(value: int)
        requires
            0 <= value <= MAX_INDEX,
        ensures
            (#[trigger] BitmapIndex::at(value))@ == value,
            BitmapIndex::at(value).wf(),
    {
    }

    /// Every index lies between 0 and [`MAX_INDEX`].
    pub proof fn lemma_in_range(self)
        requires
            self.wf(),
        ensures
            0 <= self@ <= MAX_INDEX,
    {
    }

    /// Two indices that stand for the same integer are the same index.
    pub proof fn lemma_view_injective(self, other: BitmapIndex)
        ensures
            self@ == other@ <==> self == other,
    {
    }

    /// The smallest index: zero.
    pub fn min_value() -> (r: BitmapIndex)
        ensures
            r@ == 0,
            r.wf(),
    {
        BitmapIndex(0)
    }

    /// The largest index: [`MAX_INDEX`].
    pub fn max_value() -> (r: BitmapIndex)
        ensures
            r@ == MAX_INDEX,
            r.wf(),
    {
        BitmapIndex(MAX_INDEX)
    }

    /// Converts a signed 128-bit integer, which is wide enough for every
    /// signed integer type. Fails when `value` is negative or exceeds
    /// [`MAX_INDEX`].
    pub fn try_from_i128(value: i128) -> (r: Result<BitmapIndex, DomainError>)
        ensures
            r is Ok <==> 0 <= value <= MAX_INDEX,
            r matches Ok(idx) ==> idx@ == value && idx.wf(),
    {
        if 0 <= value && value <= 0x7fff_ffff {
            Ok(BitmapIndex(value as u32))
        } else {
            Err(DomainError)
        }
    }

    /// Converts an unsigned 128-bit integer, which is wide enough for every
    /// unsigned integer type. Fails when `value` exceeds [`MAX_INDEX`].
    pub fn try_from_u128(value: u128) -> (r: Result<BitmapIndex, DomainError>)
        ensures
            r is Ok <==> value <= MAX_INDEX,
            r matches Ok(idx) ==> idx@ == value && idx.wf(),
    {
        if value <= 0x7fff_ffff {
            Ok(BitmapIndex(value as u32))
        } else {
            Err(DomainError)
        }
    }

    /// Converts a `usize`. Fails when `value` exceeds [`MAX_INDEX`].
    pub fn try_from_usize(value: usize) -> (r: Result<BitmapIndex, DomainError>)
        ensures
            r is Ok <==> value <= MAX_INDEX,
            r matches Ok(idx) ==> idx@ == value && idx.wf(),
    {
        if value <= 0x7fff_ffff {
            Ok(BitmapIndex(value as u32))
        } else {
            Err(DomainError)
        }
    }

    /// Converts an `i32`. Fails when `value` is negative.
    pub fn try_from_c_int(value: i32) -> (r: Result<BitmapIndex, DomainError>)
        ensures
            r is Ok <==> 0 <= value,
            r matches Ok(idx) ==> idx@ == value && idx.wf(),
    {
        if 0 <= value {
            Ok(BitmapIndex(value as u32))
        } else {
            Err(DomainError)
        }
    }

    /// Converts a `u32`. Fails when `value` exceeds [`MAX_INDEX`].
    pub fn try_from_c_uint(value: u32) -> (r: Result<BitmapIndex, DomainError>)
        ensures
            r is Ok <==> value <= MAX_INDEX,
            r matches Ok(idx) ==> idx@ == value && idx.wf(),
    {
        if value <= MAX_INDEX {
            Ok(BitmapIndex(value))
        } else {
            Err(DomainError)
        }
    }

    /// The index as an `i32`. Every index fits.
    pub fn into_c_int(self) -> (r: i32)
        ensures
            r == self@,
            0 <= r,
    {
        proof {
            use_type_invariant(&self);
        }
        self.0 as i32
    }

    /// The index as a `u32`. Every index fits.
    pub fn into_c_uint(self) -> (r: u32)
        ensures
            r == self@,
            r <= MAX_INDEX,
    {
        proof {
            use_type_invariant(&self);
        }
        self.0
    }

    /// The index as a `usize`. Every index fits.
    pub fn into_usize(self) -> (r: usize)
        ensures
            r == self@,
            r <= MAX_INDEX,
    {
        proof {
            use_type_invariant(&self);
        }
        self.0 as usize
    }

    /// The next index, or `None` at [`MAX_INDEX`].
    pub fn checked_succ(self) -> (r: Option<BitmapIndex>)
        ensures
            r is Some <==> self@ < MAX_INDEX,
            r matches Some(next) ==> next@ == self@ + 1 && next.wf(),
    {
        if self.0 < MAX_INDEX {
            Some(BitmapIndex(self.0 + 1))
        } else {
            None
        }
    }

    /// The previous index, or `None` at zero.
    pub fn checked_pred(self) -> (r: Option<BitmapIndex>)
        ensures
            r is Some <==> self@ > 0,
            r matches Some(prev) ==> prev@ == self@ - 1 && prev.wf(),
    {
        proof {
            use_type_invariant(&self);
        }
        if self.0 > 0 {
            Some(BitmapIndex(self.0 - 1))
        } else {
            None
        }
    }
}

/// Where the integer `a` stands relative to the integer `b`.
pub open spec fn int_order(a: int, b: int) -> Ordering {
    if a < b {
        Ordering::Less
    } else if a == b {
        Ordering::Equal
    } else {
        Ordering::Greater
    }
}

impl PartialOrd for BitmapIndex {
    fn partial_cmp(&self, other: &BitmapIndex) -> (r: Option<Ordering>) {
        if self.0 < other.0 {
            Some(Ordering::Less)
        } else if self.0 == other.0 {
            Some(Ordering::Equal)
        } else {
            Some(Ordering::Greater)
        }
    }
}

impl PartialOrdSpecImpl for BitmapIndex {
    open spec fn obeys_partial_cmp_spec() -> bool {
        true
    }

    /// Indices are ordered as the integers that they stand for.
    open spec fn partial_cmp_spec(&self, other: &BitmapIndex) -> Option<Ordering> {
        Some(int_order(self@, other@))
    }
}

impl TryFrom<usize> for BitmapIndex {
    type Error = DomainError;

    /// Converts a `usize`. Fails when the value lies outside the range of
    /// indices.
    fn try_from(value: usize) -> (r: Result<BitmapIndex, DomainError>) {
        if value <= 0x7fff_ffff {
            Ok(BitmapIndex(value as u32))
        } else {
            Err(DomainError)
        }
    }
}

impl TryFromSpecImpl<usize> for BitmapIndex {
    open spec fn obeys_try_from_spec() -> bool {
        true
    }

    open spec fn try_from_spec(value: usize) -> Result<BitmapIndex, DomainError> {
        if 0 <= value <= MAX_INDEX {
            Ok(BitmapIndex::at(value as int))
        } else {
            Err(DomainError)
        }
    }
}

impl TryFrom<u32> for BitmapIndex {
    type Error = DomainError;

    /// Converts a `u32`. Fails when the value lies outside the range of
    /// indices.
    fn try_from(value: u32) -> (r: Result<BitmapIndex, DomainError>) {
        if value <= 0x7fff_ffff {
            Ok(BitmapIndex(value as u32))
        } else {
            Err(DomainError)
        }
    }
}

impl TryFromSpecImpl<u32> for BitmapIndex {
    open spec fn obeys_try_from_spec() -> bool {
        true
    }

    open spec fn try_from_spec(value: u32) -> Result<BitmapIndex, DomainError> {
        if 0 <= value <= MAX_INDEX {
            Ok(BitmapIndex::at(value as int))
        } else {
            Err(DomainError)
        }
    }
}

impl TryFrom<u64> for BitmapIndex {
    type Error = DomainError;

    /// Converts a `u64`. Fails when the value lies outside the range of
    /// indices.
    fn try_from(value: u64) -> (r: Result<BitmapIndex, DomainError>) {
        if value <= 0x7fff_ffff {
            Ok(BitmapIndex(value as u32))
        } else {
            Err(DomainError)
        }
    }
}

impl TryFromSpecImpl<u64> for BitmapIndex {
    open spec fn obeys_try_from_spec() -> bool {
        true
    }

    open spec fn try_from_spec(value: u64) -> Result<BitmapIndex, DomainError> {
        if 0 <= value <= MAX_INDEX {
            Ok(BitmapIndex::at(value as int))
        } else {
            Err(DomainError)
        }
    }
}

impl TryFrom<i32> for BitmapIndex {
    type Error = DomainError;

    /// Converts an `i32`. Fails when the value lies outside the range of
    /// indices.
    fn try_from(value: i32) -> (r: Result<BitmapIndex, DomainError>) {
        if 0 <= value {
            Ok(BitmapIndex(value as u32))
        } else {
            Err(DomainError)
        }
    }
}

impl TryFromSpecImpl<i32> for BitmapIndex {
    open spec fn obeys_try_from_spec() -> bool {
        true
    }

    open spec fn try_from_spec(value: i32) -> Result<BitmapIndex, DomainError> {
        if 0 <= value <= MAX_INDEX {
            Ok(BitmapIndex::at(value as int))
        } else {
            Err(DomainError)
        }
    }
}

impl TryFrom<i64> for BitmapIndex {
    type Error = DomainError;

    /// Converts an `i64`. Fails when the value lies outside the range of
    /// indices.
    fn try_from(value: i64) -> (r: Result<BitmapIndex, DomainError>) {
        if 0 <= value && value <= 0x7fff_ffff {
            Ok(BitmapIndex(value as u32))
        } else {
            Err(DomainError)
        }
    }
}

impl TryFromSpecImpl<i64> for BitmapIndex {
    open spec fn obeys_try_from_spec() -> bool {
        true
    }

    open spec fn try_from_spec(value: i64) -> Result<BitmapIndex, DomainError> {
        if 0 <= value <= MAX_INDEX {
            Ok(BitmapIndex::at(value as int))
        } else {
            Err(DomainError)
        }
    }
}

impl From<BitmapIndex> for usize {
    /// The index as a plain integer. Every index fits.
    fn from(idx: BitmapIndex) -> (r: usize) {
        proof {
            use_type_invariant(&idx);
        }
        idx.0 as usize
    }
}

impl FromSpecImpl<BitmapIndex> for usize {
    open spec fn obeys_from_spec() -> bool {
        true
    }

    open spec fn from_spec(idx: BitmapIndex) -> usize {
        idx@ as usize
    }
}

impl From<BitmapIndex> for u32 {
    /// The index as a plain integer. Every index fits.
    fn from(idx: BitmapIndex) -> (r: u32) {
        proof {
            use_type_invariant(&idx);
        }
        idx.0 as u32
    }
}

impl FromSpecImpl<BitmapIndex> for u32 {
    open spec fn obeys_from_spec() -> bool {
        true
    }

    open spec fn from_spec(idx: BitmapIndex) -> u32 {
        idx@ as u32
    }
}

impl From<BitmapIndex> for u64 {
    /// The index as a plain integer. Every index fits.
    fn from(idx: BitmapIndex) -> (r: u64) {
        proof {
            use_type_invariant(&idx);
        }
        idx.0 as u64
    }
}

impl FromSpecImpl<BitmapIndex> for u64 {
    open spec fn obeys_from_spec() -> bool {
        true
    }

    open spec fn from_spec(idx: BitmapIndex) -> u64 {
        idx@ as u64
    }
}

impl From<BitmapIndex> for i64 {
    /// The index as a plain integer. Every index fits.
    fn from(idx: BitmapIndex) -> (r: i64) {
        proof {
            use_type_invariant(&idx);
        }
        idx.0 as i64
    }
}

impl FromSpecImpl<BitmapIndex> for i64 {
    open spec fn obeys_from_spec() -> bool {
        true
    }

    open spec fn from_spec(idx: BitmapIndex) -> i64 {
        idx@ as i64
    }
}

} // verus!
