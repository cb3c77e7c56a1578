//! Bitmap API
//!
//! A bitmap is a set of non-negative integers in which, from some point on,
//! either every index is set or none is. It is stored as the sorted list of
//! the points at which membership changes, so every operation costs time
//! proportional to the number of runs, never to the size of an index.

pub mod arbitrary;
pub mod bitmap;
pub mod compare;
pub mod indices;
pub mod iter;
pub mod laws;
pub mod model;
pub mod ops;
pub mod order;
pub mod ranges;
pub mod raw;
pub mod refs;
pub mod render;
pub mod special;
pub mod toggles;

pub use bitmap::Bitmap;
pub use indices::{BitmapIndex, DomainError};
pub use iter::BitmapIterator;
pub use ranges::{Bound, IndexRange};
pub use raw::RawBitmap;
pub use refs::{BitmapLike, BitmapRef};
pub use special::{BitmapKind, SpecializedBitmap};
