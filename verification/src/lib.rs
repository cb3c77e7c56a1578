//! Sets of non-negative indices that may extend to infinity.
//!
//! The [`bitmaps`] module holds the set engine: an owned [`bitmaps::Bitmap`],
//! borrowed views of it, and lazy iteration over set or unset indices. The
//! [`cpu`] and [`memory`] modules hold the bitmaps of one kind of index, and
//! [`builder`] reads the reports of the calls that configure a topology.

pub mod bitmaps;
pub mod builder;
pub mod cpu;
pub mod memory;
mod sealed;
