//! Bitmaps of one kind of index.
//!
//! A specialized bitmap is a [`Bitmap`] whose indices number one kind of
//! thing. The types share every operation of a bitmap, and their operators
//! do not mix: a set of one kind cannot be combined with a set of another.

use super::bitmap::Bitmap;
use super::refs::BitmapLike;
use vstd::prelude::*;

verus! {

/// Kind of specialized bitmap
#[derive(Copy, Clone, Debug, Eq, Hash, PartialEq, Structural)]
pub enum BitmapKind {
    /// A set of processing units
    CpuSet,
    /// A set of NUMA nodes
    NodeSet,
}

/// Trait for manipulating specialized bitmaps in a homogeneous way
pub trait SpecializedBitmap: BitmapLike + Clone {
    /// What kind of bitmap is this?
    const BITMAP_KIND: BitmapKind;

    /// What kind of bitmap is this?
    spec fn kind_of() -> BitmapKind;

    /// What kind of bitmap is this?
    fn kind() -> (kind: BitmapKind)
        ensures
            kind == Self::kind_of(),
    ;

    /// The plain bitmap inside.
    fn as_bitmap(&self) -> (bitmap: &Bitmap)
        ensures
            bitmap@ == self@,
    ;

    /// The plain bitmap inside, to be changed in place.
    fn as_bitmap_mut(&mut self) -> (bitmap: &mut Bitmap)
        ensures
            bitmap@ == old(self)@,
            final(self)@ == final(bitmap)@,
    ;

    /// Gives a plain bitmap this kind. Nothing is lost.
    fn from_bitmap(bitmap: Bitmap) -> (r: Self)
        ensures
            r@ == bitmap@,
    ;

    /// Takes the kind off. Nothing is lost.
    fn into_bitmap(self) -> (bitmap: Bitmap)
        ensures
            bitmap@ == self@,
    ;
}

} // verus!
