use ofm_viewer::coords::{MercatorPos, TileKey, WORLD_UNITS};
use ofm_viewer::projection::{
    camera_pos_to_chunk_pos, chunk_pos_to_world_pos, geo_to_tile_index, offset_position,
    plan_chunk_fetch, pow2_u64, tile_alignment_offset, tile_index_to_geo, tile_units,
    tile_width_meters, tile_width_millimeters, to_mercator_meters,
};

#[test]
fn mercator_meters_are_zero_at_the_centre() {
    let centre = MercatorPos::new(WORLD_UNITS / 2, WORLD_UNITS / 2);
    assert_eq!(to_mercator_meters(centre), (0, 0));
    // The north-west corner of the square projects to the far west and far
    // north of the plane: half the equator in millimetres each way.
    let corner = MercatorPos::new(0, 0);
    assert_eq!(to_mercator_meters(corner), (-20_037_508_343, 20_037_508_343));
    // Three quarters of the way east: a quarter equator east of centre.
    let east = MercatorPos::new(3 * (WORLD_UNITS / 4), WORLD_UNITS / 2);
    assert_eq!(to_mercator_meters(east).0, 10_018_754_171);
}

#[test]
fn pow2_values() {
    assert_eq!(pow2_u64(0), 1);
    assert_eq!(pow2_u64(14), 16_384);
    assert_eq!(pow2_u64(32), 0x1_0000_0000);
}

#[test]
fn tile_units_is_world_over_grid() {
    assert_eq!(tile_units(0), WORLD_UNITS);
    assert_eq!(tile_units(14), WORLD_UNITS / 16_384);
    assert_eq!(tile_units(19), WORLD_UNITS / 524_288);
}

#[test]
fn tile_index_round_trip_stays_within_one_tile() {
    // Positions across the world, every zoom level: the recovered tile
    // corner is never east or south of the position, and never a full tile
    // width away.
    let positions = [
        MercatorPos::new(0, 0),
        MercatorPos::new(0x1234_5678, 0x9abc_def0),
        MercatorPos::new(WORLD_UNITS - 1, WORLD_UNITS - 1),
        MercatorPos::new(WORLD_UNITS / 2, WORLD_UNITS / 3),
    ];
    for zoom in 0..=19u32 {
        let tu = tile_units(zoom);
        for pos in positions {
            let key = geo_to_tile_index(pos, zoom);
            assert_eq!(key.zoom, zoom);
            let back = tile_index_to_geo(key);
            assert!(back.x <= pos.x && pos.x - back.x < tu);
            assert!(back.y <= pos.y && pos.y - back.y < tu);
        }
    }
}

#[test]
fn tile_index_concrete_values() {
    let pos = MercatorPos::new(0x1234_5678, 0x0abc_def0);
    let key = geo_to_tile_index(pos, 14);
    // One tile spans 2^18 units at zoom 14.
    assert_eq!(key.x, (0x1234_5678u64 >> 18) as u32);
    assert_eq!(key.y, (0x0abc_def0u64 >> 18) as u32);
    let origin = tile_index_to_geo(key);
    assert_eq!(origin.x, (key.x as u64) << 18);
    assert_eq!(origin.y, (key.y as u64) << 18);
}

#[test]
fn alignment_offset_is_the_remainder() {
    let pos = MercatorPos::new(0x1234_5678, 0x0abc_def0);
    let (dx, dy) = tile_alignment_offset(pos, 14);
    assert_eq!(dx, 0x1234_5678 % (1 << 18));
    assert_eq!(dy, 0x0abc_def0 % (1 << 18));
    let key = geo_to_tile_index(pos, 14);
    let origin = tile_index_to_geo(key);
    assert_eq!(origin.x + dx, pos.x);
    assert_eq!(origin.y + dy, pos.y);
}

#[test]
fn zero_offset_returns_the_reference_exactly() {
    let refs = [
        MercatorPos::new(1, 1),
        MercatorPos::new(WORLD_UNITS / 2, WORLD_UNITS / 2),
        MercatorPos::new(WORLD_UNITS - 1, 7),
    ];
    for reference in refs {
        for zoom in [0u32, 7, 14, 19] {
            for tile_size in [1u32, 256, 1000] {
                let moved = offset_position(0, 0, reference, zoom, tile_size)
                    .expect("zero offset stays inside the world");
                assert_eq!(moved, reference);
            }
        }
    }
}

#[test]
fn offset_moves_by_units_per_pixel() {
    let reference = MercatorPos::new(WORLD_UNITS / 2, WORLD_UNITS / 2);
    // At zoom 14 with 256-pixel tiles the world is 2^22 pixels wide, so one
    // pixel is 2^10 world units.
    let moved = offset_position(3, -2, reference, 14, 256).unwrap();
    assert_eq!(moved.x, WORLD_UNITS / 2 + 3 * 1024);
    assert_eq!(moved.y, WORLD_UNITS / 2 - 2 * 1024);
}

#[test]
fn offset_off_the_world_is_rejected() {
    let reference = MercatorPos::new(5, 5);
    // A large westward offset leaves the world square.
    let r = offset_position(-10_000_000, 0, reference, 14, 256);
    assert!(r.is_none());
}

#[test]
fn tile_width_shrinks_by_zoom() {
    assert_eq!(tile_width_millimeters(0), 40_075_016_686);
    assert_eq!(tile_width_millimeters(1), 20_037_508_343);
    assert_eq!(tile_width_meters(0), 40_075_016);
    assert_eq!(tile_width_meters(14), 40_075_016_686 / 16_384 / 1000);
    assert_eq!(tile_width_meters(19), 76);
}

#[test]
fn camera_to_chunk_floors_towards_negative_infinity() {
    assert_eq!(camera_pos_to_chunk_pos(0, 0, 256), (0, 0));
    assert_eq!(camera_pos_to_chunk_pos(255, 255, 256), (0, 0));
    assert_eq!(camera_pos_to_chunk_pos(256, 511, 256), (1, 1));
    assert_eq!(camera_pos_to_chunk_pos(-1, -256, 256), (-1, -1));
    assert_eq!(camera_pos_to_chunk_pos(-257, 0, 256), (-2, 0));
}

#[test]
fn chunk_to_world_scales_back_up() {
    assert_eq!(chunk_pos_to_world_pos((0, 0), 256), (0, 0));
    assert_eq!(chunk_pos_to_world_pos((3, -2), 256), (768, -512));
    let (cx, cy) = camera_pos_to_chunk_pos(768, -512, 256);
    assert_eq!((cx, cy), (3, -2));
}

#[test]
fn chunk_fetch_plan_composes_the_pipeline() {
    let reference = MercatorPos::new(WORLD_UNITS / 2, WORLD_UNITS / 2);
    let plan = plan_chunk_fetch((0, 0), reference, 14, 256).unwrap();
    let expect: TileKey = geo_to_tile_index(reference, 14);
    assert_eq!(plan.key, expect);
    let (ax, ay) = tile_alignment_offset(reference, 14);
    assert_eq!(plan.align_offset, (ax, ay));

    // One chunk east is 256 pixels, i.e. 2^18 units at this zoom: exactly
    // the next tile column.
    let plan_e = plan_chunk_fetch((1, 0), reference, 14, 256).unwrap();
    assert_eq!(plan_e.key.x, expect.x + 1);
    assert_eq!(plan_e.key.y, expect.y);
}
