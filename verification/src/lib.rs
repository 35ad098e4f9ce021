//! Verified combinatorial core of planar solid operations: the topology
//! bookkeeping, decision logic and validation of shell/thicken, hollow,
//! draft and path sweep, and the kind dispatch of the modeling geometry
//! enums. Floating-point geometry stays with the caller.

pub mod draft;
pub mod errors;
pub mod geometry;
pub mod path_sweep;
pub mod planar;
pub mod shell;
pub mod small;
pub mod topology;
