//! Converts an imported scene graph into a compact binary model asset.
//!
//! Every floating-point quantity is carried as its IEEE-754 single-precision
//! bit pattern (`u32`); arithmetic on those values happens outside this crate.

pub mod transform;
pub mod mesh;
pub mod skeleton;
pub mod material;
pub mod model;
pub mod encode;
