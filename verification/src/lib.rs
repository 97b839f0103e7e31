//! Core of an interactive viewer for a large tiled raster map: a
//! level-of-detail ladder derived from the camera zoom, tile index
//! arithmetic over a fixed square world, a request-deduplicating tile
//! cache, viewport culling, and a bounded pan/zoom camera controller.
//!
//! All world-space quantities are fixed-point integers: positions and
//! sizes in milli world units (one thousandth of a world unit), camera
//! scale in milli world units per screen pixel, cursor positions in
//! milli pixels. The continuous front end (window events, logarithms)
//! converts at the boundary.

pub mod camera;
pub mod maps;
pub mod markers;
pub mod resources;
pub mod types;

use vstd::prelude::*;

verus! {

/// Side of the square world, in milli world units.
pub const MAP_SIZE_MILLI: i64 = 12_000_000;

/// Half the side of the square world, in milli world units.
pub const HALF_MAP_MILLI: i64 = 6_000_000;

} // verus!
