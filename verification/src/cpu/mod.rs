//! Processing units.

pub mod cpusets;
