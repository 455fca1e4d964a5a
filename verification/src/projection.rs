//! Projection arithmetic: between fixed-point world positions, tile indices,
//! pixel offsets and chunk grid positions.
//!
//! The transcendental half of the Web-Mercator projection (latitude to and
//! from the world square) is a bijection computed with floating point by the
//! surrounding process; everything on this side of it is exact integer
//! arithmetic and is stated exactly.

use vstd::prelude::*;
use vstd::arithmetic::div_mod::{
    lemma_fundamental_div_mod, lemma_fundamental_div_mod_converse, lemma_mod_bound,
    lemma_multiply_divide_lt,
};
use vstd::arithmetic::mul::{
    lemma_mul_inequality, lemma_mul_is_distributive_sub_other_way,
};
use vstd::arithmetic::power2::{lemma2_to64, lemma_pow2_adds, lemma_pow2_strictly_increases, pow2};

use crate::coords::{MercatorPos, TileKey, WORLD_UNITS};
use crate::{EARTH_CIRCUMFERENCE_MM, MAX_TILE_ZOOM};

verus! {

/// 2^e, computed executably.
pub fn pow2_u64(e: u32) -> (r: u64)
    requires
        e <= 63,
    ensures
        r == pow2(e as nat),
        r >= 1,
{
    let mut r: u64 = 1;
    let mut i: u32 = 0;
    proof {
        lemma2_to64();
        vstd::arithmetic::power2::lemma2_to64_rest();
    }
    while i < e
        invariant
            i <= e <= 63,
            r == pow2(i as nat),
            pow2(63) == 0x8000_0000_0000_0000,
        decreases e - i,
    {
        proof {
            if i + 1 < 63 {
                lemma_pow2_strictly_increases((i + 1) as nat, 63);
            }
            assert(pow2((i + 1) as nat) == 2 * pow2(i as nat)) by {
                lemma_pow2_adds(1, i as nat);
                lemma2_to64();
            }
        }
        r = r * 2;
        i = i + 1;
    }
    r
}

/// Width of one tile at `zoom`, in fixed-point world units.
pub open spec fn spec_tile_units(zoom: nat) -> nat
    recommends
        zoom <= 32,
{
    pow2((32 - zoom) as nat)
}

/// Executable width of one tile in world units.
pub fn tile_units(zoom: u32) -> (r: u64)
    requires
        zoom <= MAX_TILE_ZOOM,
    ensures
        r == spec_tile_units(zoom as nat),
        r >= 1,
{
    pow2_u64(32 - zoom)
}

/// Tile column/row containing a world position, as mathematical integers.
pub open spec fn spec_tile_of(pos: MercatorPos, zoom: nat) -> (int, int)
    recommends
        zoom <= MAX_TILE_ZOOM,
{
    (
        pos.x as int / spec_tile_units(zoom) as int,
        pos.y as int / spec_tile_units(zoom) as int,
    )
}

/// North-west corner of a tile, in world units.
pub open spec fn spec_tile_origin(xi: int, yi: int, zoom: nat) -> (int, int)
    recommends
        zoom <= MAX_TILE_ZOOM,
{
    (xi * spec_tile_units(zoom) as int, yi * spec_tile_units(zoom) as int)
}

proof fn lemma_world_split(zoom: nat)
    requires
        zoom <= 32,
    ensures
        pow2(zoom) * spec_tile_units(zoom) == WORLD_UNITS,
        spec_tile_units(zoom) >= 1,
        pow2(zoom) >= 1,
{
    lemma_pow2_adds(zoom, (32 - zoom) as nat);
    lemma2_to64();
    vstd::arithmetic::power2::lemma_pow2_pos(zoom);
    vstd::arithmetic::power2::lemma_pow2_pos((32 - zoom) as nat);
}

/// Index of the tile that contains a world position: the standard slippy-map
/// tile lookup, done entirely on the fixed-point representation.
pub fn geo_to_tile_index(pos: MercatorPos, zoom: u32) -> (key: TileKey)
    requires
        pos.valid(),
        zoom <= MAX_TILE_ZOOM,
    ensures
        key.zoom == zoom,
        (key.x as int, key.y as int) == spec_tile_of(pos, zoom as nat),
        key.valid(),
{
    let tu = tile_units(zoom);
    let tx = pos.x / tu;
    let ty = pos.y / tu;
    proof {
        lemma_world_split(zoom as nat);
        assert(tu as int * pow2(zoom as nat) as int == pow2(zoom as nat) as int * tu as int);
        lemma_multiply_divide_lt(pos.x as int, tu as int, pow2(zoom as nat) as int);
        lemma_multiply_divide_lt(pos.y as int, tu as int, pow2(zoom as nat) as int);
        lemma_pow2_strictly_increases(zoom as nat, 32);
        lemma2_to64();
        assert(tx < pow2(zoom as nat));
        assert(ty < pow2(zoom as nat));
        assert(tx < 0x1_0000_0000);
    }
    TileKey { zoom, x: tx as u32, y: ty as u32 }
}

/// World position of a tile's north-west corner: the exact inverse bound of
/// `geo_to_tile_index` up to the width of one tile.
pub fn tile_index_to_geo(key: TileKey) -> (pos: MercatorPos)
    requires
        key.valid(),
    ensures
        (pos.x as int, pos.y as int) == spec_tile_origin(
            key.x as int,
            key.y as int,
            key.zoom as nat,
        ),
        pos.valid(),
{
    let tu = tile_units(key.zoom);
    proof {
        lemma_world_split(key.zoom as nat);
        lemma_mul_inequality(key.x as int, pow2(key.zoom as nat) as int - 1, tu as int);
        lemma_mul_inequality(key.y as int, pow2(key.zoom as nat) as int - 1, tu as int);
        lemma_mul_is_distributive_sub_other_way(
            tu as int,
            pow2(key.zoom as nat) as int,
            1,
        );
    }
    let x = (key.x as u64) * tu;
    let y = (key.y as u64) * tu;
    MercatorPos { x, y }
}

/// Mapping a position to its tile and back lands at most one tile width
/// away, for every position in the world square and every zoom level: the
/// recovered corner never lies east or south of the position, and the
/// position lies strictly inside the tile that begins there.  (The whole
/// latitude band the projection covers maps into the square, so this holds
/// of every projectable geographic point.)
pub proof fn lemma_tile_round_trip(pos: MercatorPos, zoom: u32)
    requires
        pos.valid(),
        zoom <= MAX_TILE_ZOOM,
    ensures
        ({
            let t = spec_tile_units(zoom as nat) as int;
            let (tx, ty) = spec_tile_of(pos, zoom as nat);
            let (ox, oy) = spec_tile_origin(tx, ty, zoom as nat);
            ox <= pos.x < ox + t && oy <= pos.y < oy + t
        }),
{
    let t = spec_tile_units(zoom as nat) as int;
    let (tx, ty) = spec_tile_of(pos, zoom as nat);
    let (ox, oy) = spec_tile_origin(tx, ty, zoom as nat);
    lemma_world_split(zoom as nat);
    assert(t >= 1);
    lemma_fundamental_div_mod(pos.x as int, t);
    lemma_mod_bound(pos.x as int, t);
    lemma_fundamental_div_mod(pos.y as int, t);
    lemma_mod_bound(pos.y as int, t);
    assert(tx == pos.x as int / t);
    assert(ox == tx * t);
    assert(pos.x as int == t * tx + pos.x as int % t);
    assert(ox <= pos.x < ox + t);
    assert(oy <= pos.y < oy + t);
}

/// Residual between a position and the corner of the tile that contains it,
/// in world units: the grid-snap correction applied when placing chunks.
pub fn tile_alignment_offset(pos: MercatorPos, zoom: u32) -> (r: (u64, u64))
    requires
        pos.valid(),
        zoom <= MAX_TILE_ZOOM,
    ensures
        ({
            let t = spec_tile_units(zoom as nat) as int;
            let (tx, ty) = spec_tile_of(pos, zoom as nat);
            let (ox, oy) = spec_tile_origin(tx, ty, zoom as nat);
            r.0 == pos.x - ox && r.1 == pos.y - oy && r.0 < t && r.1 < t
        }),
{
    let tu = tile_units(zoom);
    proof {
        let t = tu as int;
        let (tx, ty) = spec_tile_of(pos, zoom as nat);
        let (ox, oy) = spec_tile_origin(tx, ty, zoom as nat);
        lemma_fundamental_div_mod(pos.x as int, t);
        lemma_mod_bound(pos.x as int, t);
        lemma_fundamental_div_mod(pos.y as int, t);
        lemma_mod_bound(pos.y as int, t);
        assert(ox == tx * t && pos.x as int == t * tx + pos.x as int % t);
        assert(oy == ty * t && pos.y as int == t * ty + pos.y as int % t);
    }
    (pos.x % tu, pos.y % tu)
}

/// Floor division of a (possibly negative) numerator by a positive divisor.
/// In specifications, `/` on `int` already rounds towards negative infinity
/// for positive divisors, so the contract is simply the ghost quotient.
pub fn floor_div_i128(n: i128, d: i128) -> (q: i128)
    requires
        0 < d,
        -0x1_0000_0000_0000_0000_0000_0000 <= n <= 0x1_0000_0000_0000_0000_0000_0000,
        d <= 0x1_0000_0000_0000_0000,
    ensures
        q == n as int / d as int,
{
    if n >= 0 {
        let q = ((n as u128) / (d as u128)) as i128;
        proof {
            lemma_fundamental_div_mod(n as int, d as int);
            lemma_mod_bound(n as int, d as int);
        }
        q
    } else {
        let m = (-n) as u128;
        let du = d as u128;
        let c = (m + du - 1) / du;
        proof {
            let mi = m as int;
            let di = d as int;
            let ci = c as int;
            lemma_fundamental_div_mod(mi + di - 1, di);
            lemma_mod_bound(mi + di - 1, di);
            // c is the ceiling of m/d, so 0 <= d*c - m < d and -c is the
            // floor quotient of n == -m.
            assert(0 <= di * ci - mi < di) by (nonlinear_arith)
                requires
                    di >= 1,
                    mi >= 1,
                    mi + di - 1 == di * ci + ((mi + di - 1) % di),
                    0 <= (mi + di - 1) % di < di,
            ;
            assert(n as int == (-ci) * di + (di * ci - mi)) by (nonlinear_arith)
                requires
                    n as int == -mi,
            ;
            lemma_fundamental_div_mod_converse(n as int, di, -ci, di * ci - mi);
            assert(ci <= mi) by (nonlinear_arith)
                requires
                    di >= 1,
                    mi >= 1,
                    0 <= di * ci - mi < di,
            ;
        }
        -(c as i128)
    }
}

/// World units corresponding to a signed offset of `d` screen pixels at
/// `zoom`, with tiles `tile_size` pixels wide, rounded towards negative
/// infinity.
pub open spec fn spec_pixel_to_units(d: int, zoom: nat, tile_size: int) -> int
    recommends
        zoom <= MAX_TILE_ZOOM,
        tile_size >= 1,
{
    (d * WORLD_UNITS as int) / (pow2(zoom) * tile_size)
}

/// Moves a reference position by a pixel offset.  The metres-per-pixel
/// scale is `earth_circumference / 2^zoom / tile_size`, which in world
/// units is `WORLD_UNITS / (2^zoom * tile_size)` per pixel.  Returns `None`
/// when the shifted position leaves the world square.  A zero offset
/// returns the reference exactly.
pub fn offset_position(
    dx: i64,
    dy: i64,
    reference: MercatorPos,
    zoom: u32,
    tile_size: u32,
) -> (r: Option<MercatorPos>)
    requires
        reference.valid(),
        zoom <= MAX_TILE_ZOOM,
        1 <= tile_size <= 100_000,
        -0x10_0000_0000_0000 <= dx <= 0x10_0000_0000_0000,
        -0x10_0000_0000_0000 <= dy <= 0x10_0000_0000_0000,
    ensures
        ({
            let sx = reference.x + spec_pixel_to_units(dx as int, zoom as nat, tile_size as int);
            let sy = reference.y + spec_pixel_to_units(dy as int, zoom as nat, tile_size as int);
            if 0 <= sx < WORLD_UNITS && 0 <= sy < WORLD_UNITS {
                r matches Some(p) && p.x == sx && p.y == sy
            } else {
                r is None
            }
        }),
        dx == 0 && dy == 0 ==> (r matches Some(p) && p == reference),
{
    let n = pow2_u64(zoom);
    proof {
        lemma2_to64();
        if zoom < 19 {
            lemma_pow2_strictly_increases(zoom as nat, 19);
        }
        assert(1 <= (n as int) * (tile_size as int) <= 0x80000 * 100_000) by (nonlinear_arith)
            requires
                1 <= n <= 0x80000,
                1 <= tile_size <= 100_000,
        ;
        assert((dx as int) * (WORLD_UNITS as int) <= 0x10_0000_0000_0000 * 0x1_0000_0000
            && (dx as int) * (WORLD_UNITS as int) >= -0x10_0000_0000_0000 * 0x1_0000_0000)
            by (nonlinear_arith)
            requires
                -0x10_0000_0000_0000 <= (dx as int) <= 0x10_0000_0000_0000,
        ;
        assert((dy as int) * (WORLD_UNITS as int) <= 0x10_0000_0000_0000 * 0x1_0000_0000
            && (dy as int) * (WORLD_UNITS as int) >= -0x10_0000_0000_0000 * 0x1_0000_0000)
            by (nonlinear_arith)
            requires
                -0x10_0000_0000_0000 <= (dy as int) <= 0x10_0000_0000_0000,
        ;
    }
    let denom = (n as i128) * (tile_size as i128);
    let ux = floor_div_i128((dx as i128) * (WORLD_UNITS as i128), denom);
    let uy = floor_div_i128((dy as i128) * (WORLD_UNITS as i128), denom);
    proof {
        lemma_div_range((dx as int) * (WORLD_UNITS as int), denom as int);
        lemma_div_range((dy as int) * (WORLD_UNITS as int), denom as int);
        if dx == 0 {
            vstd::arithmetic::div_mod::lemma_div_of0(denom as int);
        }
        if dy == 0 {
            vstd::arithmetic::div_mod::lemma_div_of0(denom as int);
        }
    }
    let sx = (reference.x as i128) + ux;
    let sy = (reference.y as i128) + uy;
    if 0 <= sx && sx < WORLD_UNITS as i128 && 0 <= sy && sy < WORLD_UNITS as i128 {
        Some(MercatorPos { x: sx as u64, y: sy as u64 })
    } else {
        None
    }
}

/// A quotient lies between the bounds of its numerator when the divisor is
/// at least one.
proof fn lemma_div_range(n: int, d: int)
    requires
        d >= 1,
        -0x1_0000_0000_0000_0000_0000_0000 <= n <= 0x1_0000_0000_0000_0000_0000_0000,
    ensures
        -0x1_0000_0000_0000_0000_0000_0000 <= n / d <= 0x1_0000_0000_0000_0000_0000_0000,
{
    lemma_fundamental_div_mod(n, d);
    lemma_mod_bound(n, d);
    assert(n / d <= 0x1_0000_0000_0000_0000_0000_0000 && n / d
        >= -0x1_0000_0000_0000_0000_0000_0000) by (nonlinear_arith)
        requires
            d >= 1,
            n == d * (n / d) + n % d,
            0 <= n % d < d,
            -0x1_0000_0000_0000_0000_0000_0000 <= n <= 0x1_0000_0000_0000_0000_0000_0000,
    ;
}

/// Width of one tile at `zoom`, in millimetres along the equator.
pub fn tile_width_millimeters(zoom: u32) -> (r: u64)
    requires
        zoom <= MAX_TILE_ZOOM,
    ensures
        r == EARTH_CIRCUMFERENCE_MM as int / pow2(zoom as nat) as int,
{
    let n = pow2_u64(zoom);
    EARTH_CIRCUMFERENCE_MM / n
}

/// Width of one tile at `zoom`, in whole metres along the equator.
pub fn tile_width_meters(zoom: u32) -> (r: u64)
    requires
        zoom <= MAX_TILE_ZOOM,
    ensures
        r == EARTH_CIRCUMFERENCE_MM as int / pow2(zoom as nat) as int / 1000,
{
    let mm = tile_width_millimeters(zoom);
    mm / 1000
}

/// Chunk grid position containing a world-pixel position: floor division of
/// each axis by the tile's pixel size.
pub fn camera_pos_to_chunk_pos(px: i64, py: i64, tile_size: u32) -> (r: (i32, i32))
    requires
        1 <= tile_size <= 100_000,
        -0x4000_0000 * (tile_size as int) <= px < 0x4000_0000 * (tile_size as int),
        -0x4000_0000 * (tile_size as int) <= py < 0x4000_0000 * (tile_size as int),
    ensures
        r.0 == px as int / tile_size as int,
        r.1 == py as int / tile_size as int,
{
    let qx = floor_div_i128(px as i128, tile_size as i128);
    let qy = floor_div_i128(py as i128, tile_size as i128);
    proof {
        lemma_quotient_in_i32(px as int, tile_size as int);
        lemma_quotient_in_i32(py as int, tile_size as int);
    }
    (qx as i32, qy as i32)
}

proof fn lemma_quotient_in_i32(n: int, d: int)
    requires
        1 <= d,
        -0x4000_0000 * d <= n < 0x4000_0000 * d,
    ensures
        -0x8000_0000 <= n / d < 0x8000_0000,
{
    lemma_fundamental_div_mod(n, d);
    lemma_mod_bound(n, d);
    assert(-0x8000_0000 <= n / d < 0x8000_0000) by (nonlinear_arith)
        requires
            1 <= d,
            -0x4000_0000 * d <= n < 0x4000_0000 * d,
            n == d * (n / d) + n % d,
            0 <= n % d < d,
    ;
}

/// World-pixel position of a chunk's corner: the chunk grid scaled back up
/// by the tile pixel size.
pub fn chunk_pos_to_world_pos(chunk: (i32, i32), tile_size: u32) -> (r: (i64, i64))
    requires
        1 <= tile_size <= 100_000,
    ensures
        r.0 == chunk.0 as int * tile_size as int,
        r.1 == chunk.1 as int * tile_size as int,
{
    proof {
        assert(-0x8000_0000 * 100_000 <= (chunk.0 as int) * (tile_size as int) <= 0x8000_0000
            * 100_000) by (nonlinear_arith)
            requires
                -0x8000_0000 <= (chunk.0 as int) < 0x8000_0000,
                1 <= (tile_size as int) <= 100_000,
        ;
        assert(-0x8000_0000 * 100_000 <= (chunk.1 as int) * (tile_size as int) <= 0x8000_0000
            * 100_000) by (nonlinear_arith)
            requires
                -0x8000_0000 <= (chunk.1 as int) < 0x8000_0000,
                1 <= (tile_size as int) <= 100_000,
        ;
    }
    ((chunk.0 as i64) * (tile_size as i64), (chunk.1 as i64) * (tile_size as i64))
}

/// The Web-Mercator plane coordinates of a world position, in millimetres
/// from the projection's centre: x grows east, y grows north.
pub open spec fn spec_mercator_meters_mm(pos: MercatorPos) -> (int, int) {
    (
        pos.x * EARTH_CIRCUMFERENCE_MM / (WORLD_UNITS as int) - EARTH_CIRCUMFERENCE_MM / 2,
        EARTH_CIRCUMFERENCE_MM / 2 - pos.y * EARTH_CIRCUMFERENCE_MM / (WORLD_UNITS as int),
    )
}

/// The forward projection's plane coordinates, exactly, in millimetres.
/// (The transcendental step from latitude to the world square happens
/// outside; from the square to metres is plain scaling.)
pub fn to_mercator_meters(pos: MercatorPos) -> (r: (i64, i64))
    requires
        pos.valid(),
    ensures
        (r.0 as int, r.1 as int) == spec_mercator_meters_mm(pos),
{
    proof {
        assert((pos.x as int) * (EARTH_CIRCUMFERENCE_MM as int) <= 0x1_0000_0000
            * 40_075_016_686 && 0 <= (pos.x as int) * (EARTH_CIRCUMFERENCE_MM as int))
            by (nonlinear_arith)
            requires
                0 <= (pos.x as int) <= 0x1_0000_0000,
                EARTH_CIRCUMFERENCE_MM == 40_075_016_686,
        ;
        assert((pos.y as int) * (EARTH_CIRCUMFERENCE_MM as int) <= 0x1_0000_0000
            * 40_075_016_686 && 0 <= (pos.y as int) * (EARTH_CIRCUMFERENCE_MM as int))
            by (nonlinear_arith)
            requires
                0 <= (pos.y as int) <= 0x1_0000_0000,
                EARTH_CIRCUMFERENCE_MM == 40_075_016_686,
        ;
        lemma_fundamental_div_mod((pos.x as int) * (EARTH_CIRCUMFERENCE_MM as int), WORLD_UNITS as int);
        lemma_mod_bound((pos.x as int) * (EARTH_CIRCUMFERENCE_MM as int), WORLD_UNITS as int);
        lemma_fundamental_div_mod((pos.y as int) * (EARTH_CIRCUMFERENCE_MM as int), WORLD_UNITS as int);
        lemma_mod_bound((pos.y as int) * (EARTH_CIRCUMFERENCE_MM as int), WORLD_UNITS as int);
        assert(0 <= (pos.x as int) * (EARTH_CIRCUMFERENCE_MM as int) / (WORLD_UNITS as int)
            <= 40_075_016_686) by (nonlinear_arith)
            requires
                (pos.x as int) * (EARTH_CIRCUMFERENCE_MM as int) == (WORLD_UNITS as int) * ((
                pos.x as int) * (EARTH_CIRCUMFERENCE_MM as int) / (WORLD_UNITS as int)) + ((
                pos.x as int) * (EARTH_CIRCUMFERENCE_MM as int) % (WORLD_UNITS as int)),
                0 <= (pos.x as int) * (EARTH_CIRCUMFERENCE_MM as int) % (WORLD_UNITS as int)
                    < WORLD_UNITS as int,
                0 <= (pos.x as int) * (EARTH_CIRCUMFERENCE_MM as int) <= 0x1_0000_0000
                    * 40_075_016_686,
                WORLD_UNITS == 0x1_0000_0000,
        ;
        assert(0 <= (pos.y as int) * (EARTH_CIRCUMFERENCE_MM as int) / (WORLD_UNITS as int)
            <= 40_075_016_686) by (nonlinear_arith)
            requires
                (pos.y as int) * (EARTH_CIRCUMFERENCE_MM as int) == (WORLD_UNITS as int) * ((
                pos.y as int) * (EARTH_CIRCUMFERENCE_MM as int) / (WORLD_UNITS as int)) + ((
                pos.y as int) * (EARTH_CIRCUMFERENCE_MM as int) % (WORLD_UNITS as int)),
                0 <= (pos.y as int) * (EARTH_CIRCUMFERENCE_MM as int) % (WORLD_UNITS as int)
                    < WORLD_UNITS as int,
                0 <= (pos.y as int) * (EARTH_CIRCUMFERENCE_MM as int) <= 0x1_0000_0000
                    * 40_075_016_686,
                WORLD_UNITS == 0x1_0000_0000,
        ;
    }
    let half = (EARTH_CIRCUMFERENCE_MM / 2) as i128;
    let ex = ((pos.x as u128) * (EARTH_CIRCUMFERENCE_MM as u128) / (WORLD_UNITS as u128)) as i128;
    let ey = ((pos.y as u128) * (EARTH_CIRCUMFERENCE_MM as u128) / (WORLD_UNITS as u128)) as i128;
    ((ex - half) as i64, (half - ey) as i64)
}

/// Everything one dispatched fetch needs: the tile to get and the grid-snap
/// residual of the chunk's position inside that tile.
pub struct ChunkFetchPlan {
    pub key: TileKey,
    pub align_offset: (u64, u64),
}

/// The per-chunk dispatch pipeline: chunk grid position to world pixels, to
/// a world position against the session reference, to the tile containing
/// it, together with the alignment residual.  `None` exactly when the chunk
/// lies outside the world square.
pub fn plan_chunk_fetch(chunk: (i32, i32), reference: MercatorPos, zoom: u32, tile_size: u32)
    -> (r: Option<ChunkFetchPlan>)
    requires
        reference.valid(),
        zoom <= MAX_TILE_ZOOM,
        1 <= tile_size <= 100_000,
    ensures
        ({
            let wx = chunk.0 as int * tile_size as int;
            let wy = chunk.1 as int * tile_size as int;
            let sx = reference.x + spec_pixel_to_units(wx, zoom as nat, tile_size as int);
            let sy = reference.y + spec_pixel_to_units(wy, zoom as nat, tile_size as int);
            if 0 <= sx < WORLD_UNITS && 0 <= sy < WORLD_UNITS {
                let pos = MercatorPos { x: sx as u64, y: sy as u64 };
                let t = spec_tile_units(zoom as nat) as int;
                let (tx, ty) = spec_tile_of(pos, zoom as nat);
                r matches Some(p) && p.key.zoom == zoom && (p.key.x as int, p.key.y as int) == (
                tx,
                ty,
                ) && p.key.valid() && p.align_offset.0 == sx - tx * t && p.align_offset.1 == sy
                    - ty * t
            } else {
                r is None
            }
        }),
{
    let (wx, wy) = chunk_pos_to_world_pos(chunk, tile_size);
    proof {
        assert(-0x8000_0000 * 100_000 <= (chunk.0 as int) * (tile_size as int) <= 0x8000_0000
            * 100_000 && -0x8000_0000 * 100_000 <= (chunk.1 as int) * (tile_size as int)
            <= 0x8000_0000 * 100_000) by (nonlinear_arith)
            requires
                -0x8000_0000 <= (chunk.0 as int) < 0x8000_0000,
                -0x8000_0000 <= (chunk.1 as int) < 0x8000_0000,
                1 <= (tile_size as int) <= 100_000,
        ;
    }
    let pos = match offset_position(wx, wy, reference, zoom, tile_size) {
        None => {
            return None;
        },
        Some(p) => p,
    };
    let key = geo_to_tile_index(pos, zoom);
    let align_offset = tile_alignment_offset(pos, zoom);
    Some(ChunkFetchPlan { key, align_offset })
}

} // verus!
