//! Value types for positions and tiles.
//!
//! A geographic coordinate is held in microdegrees.  A projected position is
//! held as a pair of fixed-point fractions of the world: the Web-Mercator
//! projection maps the covered part of the globe onto a square, and a
//! `MercatorPos` locates a point in that square in units of 1/2^32 of its
//! edge.  Tile indices then follow from pure integer arithmetic.

use vstd::prelude::*;
use vstd::arithmetic::power2::pow2;

use crate::MAX_TILE_ZOOM;

verus! {

/// Number of fixed-point units across the whole world square: 2^32.
pub const WORLD_UNITS: u64 = 0x1_0000_0000;

/// Microdegrees in one degree.
pub const MICRODEG: i64 = 1_000_000;

/// A geographic coordinate in microdegrees of latitude and longitude.
///
/// The Mercator projection diverges towards the poles; positions are kept
/// within the range where the standard slippy-map formulas are defined,
/// about +/- 85.051129 degrees of latitude.
#[derive(Clone, Copy, Debug, PartialEq, Eq, Structural)]
pub struct Coord {
    /// Latitude in microdegrees, positive north.
    pub lat_micro: i64,
    /// Longitude in microdegrees, positive east.
    pub lon_micro: i64,
}

/// Latitude bound (microdegrees) inside which the projection is defined.
pub const MAX_MERCATOR_LAT_MICRO: i64 = 85_051_129;

impl Coord {
    /// The coordinate lies in the projectable part of the globe.
    pub open spec fn valid(self) -> bool {
        &&& -MAX_MERCATOR_LAT_MICRO <= self.lat_micro <= MAX_MERCATOR_LAT_MICRO
        &&& -180 * MICRODEG <= self.lon_micro <= 180 * MICRODEG
    }

    /// Builds a coordinate from microdegree components.
    pub fn new(lat_micro: i64, lon_micro: i64) -> (c: Coord)
        ensures
            c.lat_micro == lat_micro,
            c.lon_micro == lon_micro,
    {
        Coord { lat_micro, lon_micro }
    }
}

/// A projected position: fixed-point fractions of the world square, with
/// x growing east from the antimeridian and y growing south from the
/// projection's northern edge, in units of 1/2^32 of the world.
#[derive(Clone, Copy, Debug, PartialEq, Eq, Structural)]
pub struct MercatorPos {
    pub x: u64,
    pub y: u64,
}

impl MercatorPos {
    /// The position lies inside the world square.
    pub open spec fn valid(self) -> bool {
        self.x < WORLD_UNITS && self.y < WORLD_UNITS
    }

    /// Builds a position from its fixed-point components.
    pub fn new(x: u64, y: u64) -> (p: MercatorPos)
        requires
            x < WORLD_UNITS,
            y < WORLD_UNITS,
        ensures
            p.x == x,
            p.y == y,
            p.valid(),
    {
        MercatorPos { x, y }
    }
}

/// Address of one map tile in the standard slippy-map scheme: at zoom `z`
/// the world is a 2^z by 2^z grid of tiles, indexed from the north-west.
#[derive(Clone, Copy, Debug, PartialEq, Eq, Structural)]
pub struct TileKey {
    pub zoom: u32,
    pub x: u32,
    pub y: u32,
}

impl TileKey {
    /// The indices fit the grid of this zoom level.
    pub open spec fn valid(self) -> bool {
        &&& self.zoom <= MAX_TILE_ZOOM
        &&& self.x < pow2(self.zoom as nat)
        &&& self.y < pow2(self.zoom as nat)
    }
}

/// A finished square raster: tightly packed, row-major RGBA bytes, exactly
/// four per pixel.  Produced once per tile and immutable thereafter.
pub struct RasterTile {
    /// Edge length in pixels.
    pub size: u32,
    /// The pixel bytes, of length `size * size * 4`.
    pub data: Vec<u8>,
}

impl RasterTile {
    /// The buffer holds exactly its advertised pixels.
    pub open spec fn wf(self) -> bool {
        self.data@.len() == self.size * self.size * 4
    }

    /// Wraps a pixel buffer, accepting it only at the exact size.
    pub fn new(size: u32, data: Vec<u8>) -> (r: Option<RasterTile>)
        requires
            size <= 16_384,
        ensures
            (r is Some) == (data@.len() == size * size * 4),
            r matches Some(t) ==> t.size == size && t.data@ == data@ && t.wf(),
    {
        proof {
            assert((size as int) * (size as int) * 4 <= 16_384 * 16_384 * 4) by (nonlinear_arith)
                requires
                    0 <= (size as int) <= 16_384,
            ;
        }
        let want = (size as u64) * (size as u64) * 4;
        if data.len() as u64 == want {
            Some(RasterTile { size, data })
        } else {
            None
        }
    }

    /// A fully transparent tile of the given size: the face of a failed or
    /// legitimately empty fetch.
    pub fn blank(size: u32) -> (t: RasterTile)
        requires
            size <= 16_384,
        ensures
            t.size == size,
            t.wf(),
            forall|i: int| 0 <= i < t.data@.len() ==> t.data@[i] == 0,
    {
        proof {
            assert((size as int) * (size as int) * 4 <= 16_384 * 16_384 * 4) by (nonlinear_arith)
                requires
                    0 <= (size as int) <= 16_384,
            ;
        }
        let want = ((size as u64) * (size as u64) * 4) as usize;
        let mut data: Vec<u8> = Vec::new();
        let mut i: usize = 0;
        while i < want
            invariant
                i <= want,
                data@.len() == i,
                forall|k: int| 0 <= k < i ==> data@[k] == 0,
            decreases want - i,
        {
            data.push(0);
            i = i + 1;
        }
        RasterTile { size, data }
    }
}

/// One displayable tile: its source name, its raster, where it sits
/// geographically, and the zoom level it belongs to.
pub struct Tile {
    pub name: String,
    pub image: RasterTile,
    pub tile_location: Coord,
    pub zoom: i32,
}

impl Tile {
    /// The raster is well formed.
    pub open spec fn wf(self) -> bool {
        self.image.wf()
    }

    /// Bundles a finished raster with its identity and position.
    pub fn new(name: String, image: RasterTile, tile_location: Coord, zoom: i32) -> (t: Tile)
        requires
            image.wf(),
        ensures
            t.name@ == name@,
            t.image.size == image.size,
            t.image.data@ == image.data@,
            t.tile_location == tile_location,
            t.zoom == zoom,
            t.wf(),
    {
        Tile { name, image, tile_location, zoom }
    }
}

impl PartialEq for Tile {
    /// Two tiles are the same display object when their name, position and
    /// zoom agree; the pixel data does not enter the comparison.
    fn eq(&self, other: &Tile) -> (r: bool) {
        self.name == other.name && self.zoom == other.zoom && self.tile_location
            == other.tile_location
    }
}

impl vstd::std_specs::cmp::PartialEqSpecImpl for Tile {
    open spec fn obeys_eq_spec() -> bool {
        true
    }

    open spec fn eq_spec(&self, other: &Tile) -> bool {
        self.name@ == other.name@ && self.zoom == other.zoom && self.tile_location
            == other.tile_location
    }
}

} // verus!
