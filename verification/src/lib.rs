//! Core logic of a pannable, zoomable slippy-map viewer: Mercator projection
//! arithmetic on fixed-point world coordinates, tile indexing, a disk-backed
//! fetch protocol with rate-limit retry, a vector-tile decoder and style
//! planner, a discrete zoom-level controller, and a chunk lifecycle manager.
//!
//! Everything here is integer arithmetic over explicit fixed-point scales, so
//! that each function carries an exact contract.  The surrounding process is
//! expected to do the things a verifier cannot see: floating-point projection
//! kernels, the actual HTTP and disk traffic, and the pixel-pushing of a
//! raster library.

use vstd::prelude::*;

pub mod chunk;
pub mod coords;
pub mod fetch;
pub mod mvt;
pub mod projection;
pub mod render;
pub mod zoom;

verus! {

/// Edge length of one rendered tile, in pixels (the session's tile pixel size).
pub const TILE_QUALITY: u32 = 256;

/// Lowest zoom level the zoom controller will step down to.
pub const MIN_ZOOM_LEVEL: u32 = 3;

/// Highest zoom level the zoom controller will step up to.
pub const MAX_ZOOM_LEVEL: u32 = 19;

/// Highest zoom level the projection arithmetic accepts.
pub const MAX_TILE_ZOOM: u32 = 19;

/// Equatorial circumference of the Earth in millimetres, as used by the
/// Web-Mercator projection (40075016.686 m).
pub const EARTH_CIRCUMFERENCE_MM: u64 = 40_075_016_686;

} // verus!
