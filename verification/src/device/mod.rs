//! Physical devices: their paths, stable identifiers, buses and the disk a
//! path lives on.

pub mod model;
pub mod names;
pub mod windows;
