//! Keeps the crate's marker traits closed to other crates.

use vstd::prelude::*;

verus! {

/// A trait that only this crate can implement.
pub trait Sealed {

}

} // verus!
