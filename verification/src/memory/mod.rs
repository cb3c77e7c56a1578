//! Memory.

pub mod nodesets;
