use ofm_viewer::coords::{Coord, RasterTile, Tile};
use ofm_viewer::mvt::decode_tile;
use ofm_viewer::render::{get_ofm_data, style_for, DrawOp, PathCmd};

/// Appends a base-128 varint.
fn put_varint(out: &mut Vec<u8>, mut v: u64) {
    loop {
        let b = (v & 0x7f) as u8;
        v >>= 7;
        if v == 0 {
            out.push(b);
            break;
        }
        out.push(b | 0x80);
    }
}

/// Appends a length-delimited field.
fn put_len_field(out: &mut Vec<u8>, field: u64, payload: &[u8]) {
    put_varint(out, field << 3 | 2);
    put_varint(out, payload.len() as u64);
    out.extend_from_slice(payload);
}

/// Appends a varint field.
fn put_varint_field(out: &mut Vec<u8>, field: u64, value: u64) {
    put_varint(out, field << 3 | 0);
    put_varint(out, value);
}

fn zigzag_enc(v: i64) -> u64 {
    ((v << 1) ^ (v >> 63)) as u64
}

/// A feature message with the given geometry type and command words.
fn feature_bytes(geom_type: u64, words: &[u64]) -> Vec<u8> {
    let mut geom = Vec::new();
    for w in words {
        put_varint(&mut geom, *w);
    }
    let mut f = Vec::new();
    put_varint_field(&mut f, 3, geom_type);
    put_len_field(&mut f, 4, &geom);
    f
}

/// A layer message with a name and features.
fn layer_bytes(name: &str, features: &[Vec<u8>]) -> Vec<u8> {
    let mut l = Vec::new();
    put_len_field(&mut l, 1, name.as_bytes());
    for f in features {
        put_len_field(&mut l, 2, f);
    }
    l
}

/// A tile message from layers.
fn tile_bytes(layers: &[Vec<u8>]) -> Vec<u8> {
    let mut t = Vec::new();
    for l in layers {
        put_len_field(&mut t, 3, l);
    }
    t
}

/// Command words for a closed square ring with corner `(0, 0)` and edge 10,
/// wound so that its signed area is positive (an exterior ring).
fn square_ring_words() -> Vec<u64> {
    let mut w = vec![1 << 3 | 1]; // MoveTo, count 1
    w.push(zigzag_enc(0));
    w.push(zigzag_enc(0));
    w.push(3 << 3 | 2); // LineTo, count 3
    for (dx, dy) in [(10i64, 0i64), (0, 10), (-10, 0)] {
        w.push(zigzag_enc(dx));
        w.push(zigzag_enc(dy));
    }
    w.push(1 << 3 | 7); // ClosePath
    w
}

#[test]
fn decoder_reads_names_kinds_and_points() {
    let data = tile_bytes(&[layer_bytes("building", &[feature_bytes(3, &square_ring_words())])]);
    let layers = decode_tile(&data).expect("well-formed tile");
    assert_eq!(layers.len(), 1);
    assert_eq!(layers[0].name, b"building".to_vec());
    assert_eq!(layers[0].features.len(), 1);
    let f = &layers[0].features[0];
    assert_eq!(f.geom_type, 3);
    assert_eq!(f.paths.len(), 1);
    assert!(f.paths[0].closed);
    assert_eq!(f.paths[0].points, vec![(0, 0), (10, 0), (10, 10), (0, 10)]);
}

#[test]
fn decoder_rejects_malformed_payloads() {
    // A dangling continuation byte is not a varint.
    assert!(decode_tile(&vec![0xff]).is_none());
    // An unknown geometry command word.
    let bad = tile_bytes(&[layer_bytes("road", &[feature_bytes(2, &[1 << 3 | 3])])]);
    assert!(decode_tile(&bad).is_none());
    // A close command with no run to close.
    let bad2 = tile_bytes(&[layer_bytes("road", &[feature_bytes(3, &[1 << 3 | 7])])]);
    assert!(decode_tile(&bad2).is_none());
}

#[test]
fn decoder_skips_unknown_fields() {
    let mut l = Vec::new();
    put_varint_field(&mut l, 15, 2); // version, skipped
    put_len_field(&mut l, 1, b"park");
    put_varint_field(&mut l, 5, 4096); // extent, skipped
    put_len_field(&mut l, 3, b"somekey"); // keys, skipped
    let mut t = Vec::new();
    put_len_field(&mut t, 3, &l);
    let layers = decode_tile(&t).expect("unknown fields are skipped");
    assert_eq!(layers[0].name, b"park".to_vec());
    assert_eq!(layers[0].features.len(), 0);
}

#[test]
fn building_polygons_fill_white_at_half_opacity() {
    let data = tile_bytes(&[layer_bytes("building", &[feature_bytes(3, &square_ring_words())])]);
    let plan = get_ofm_data(&data, 256, 14);
    assert_eq!(plan.size, 256);
    assert_eq!(plan.scale_micro, 256 * 597_014_925_373 / 2_446_000_000);
    assert_eq!(plan.tasks.len(), 1);
    let task = &plan.tasks[0];
    assert_eq!(task.style.op, DrawOp::Fill);
    assert_eq!((task.style.red, task.style.green, task.style.blue), (255, 255, 255));
    assert_eq!(task.style.alpha_millis, 500);
    // The ring outline: every vertex stated twice, the closing vertex
    // repeated at the end.
    let expect = vec![
        PathCmd::MoveTo(0, 0),
        PathCmd::LineTo(0, 0),
        PathCmd::LineTo(10, 0),
        PathCmd::LineTo(10, 0),
        PathCmd::LineTo(10, 10),
        PathCmd::LineTo(10, 10),
        PathCmd::LineTo(0, 10),
        PathCmd::LineTo(0, 10),
        PathCmd::LineTo(0, 0),
        PathCmd::LineTo(0, 0),
    ];
    assert_eq!(task.cmds, expect);
}

#[test]
fn interior_rings_are_not_filled() {
    // The same square wound the other way has negative area: a hole.
    let mut w = vec![1 << 3 | 1];
    w.push(zigzag_enc(0));
    w.push(zigzag_enc(0));
    w.push(3 << 3 | 2);
    for (dx, dy) in [(0i64, 10i64), (10, 0), (0, -10)] {
        w.push(zigzag_enc(dx));
        w.push(zigzag_enc(dy));
    }
    w.push(1 << 3 | 7);
    let data = tile_bytes(&[layer_bytes("building", &[feature_bytes(3, &w)])]);
    let plan = get_ofm_data(&data, 256, 14);
    assert_eq!(plan.tasks.len(), 1);
    assert_eq!(plan.tasks[0].cmds.len(), 0);
}

#[test]
fn unknown_geometry_kinds_produce_a_complete_plan() {
    // A feature of an unsupported collection kind stands beside a normal
    // road line; the tile still renders, the odd feature just paints
    // nothing.
    let road = feature_bytes(2, &[
        1 << 3 | 1,
        zigzag_enc(0),
        zigzag_enc(0),
        1 << 3 | 2,
        zigzag_enc(5),
        zigzag_enc(5),
    ]);
    let odd = feature_bytes(7, &square_ring_words());
    let data = tile_bytes(&[layer_bytes("transportation", &[odd, road])]);
    let plan = get_ofm_data(&data, 256, 14);
    assert_eq!(plan.size, 256);
    assert_eq!(plan.tasks.len(), 2);
    assert_eq!(plan.tasks[0].cmds.len(), 0);
    assert_eq!(plan.tasks[1].cmds, vec![PathCmd::MoveTo(0, 0), PathCmd::LineTo(5, 5)]);
}

#[test]
fn malformed_payloads_plan_a_blank_tile() {
    let plan = get_ofm_data(&vec![0xff, 0x00, 0x13], 256, 14);
    assert_eq!(plan.size, 256);
    assert_eq!(plan.tasks.len(), 0);
}

#[test]
fn point_markers_appear_only_from_zoom_15() {
    let pt = feature_bytes(1, &[1 << 3 | 1, zigzag_enc(5), zigzag_enc(6)]);
    let data = tile_bytes(&[layer_bytes("poi", &[pt])]);
    let low = get_ofm_data(&data, 256, 14);
    assert_eq!(low.tasks.len(), 1);
    assert_eq!(low.tasks[0].cmds.len(), 0);
    let high = get_ofm_data(&data, 256, 15);
    assert_eq!(high.tasks[0].cmds, vec![
        PathCmd::MoveTo(5, 6),
        PathCmd::LineTo(6, 7),
        PathCmd::LineTo(6, 6),
        PathCmd::LineTo(5, 7),
    ]);
}

#[test]
fn line_strings_restate_segment_starts() {
    let line = feature_bytes(2, &[
        1 << 3 | 1,
        zigzag_enc(0),
        zigzag_enc(0),
        2 << 3 | 2,
        zigzag_enc(4),
        zigzag_enc(0),
        zigzag_enc(0),
        zigzag_enc(3),
    ]);
    let data = tile_bytes(&[layer_bytes("transportation", &[line])]);
    let plan = get_ofm_data(&data, 256, 14);
    let task = &plan.tasks[0];
    assert_eq!(task.style.op, DrawOp::Stroke);
    assert_eq!(task.style.stroke_width, 10);
    assert_eq!(task.style.alpha_millis, 1000);
    assert_eq!(task.cmds, vec![
        PathCmd::MoveTo(0, 0),
        PathCmd::LineTo(4, 0),
        PathCmd::LineTo(4, 0),
        PathCmd::LineTo(4, 3),
    ]);
}

#[test]
fn reserved_layers_draw_nothing() {
    let road = feature_bytes(2, &[1 << 3 | 1, 0, 0, 1 << 3 | 2, zigzag_enc(1), zigzag_enc(1)]);
    let data = tile_bytes(&[
        layer_bytes("water", &[road.clone()]),
        layer_bytes("waterway", &[road.clone()]),
        layer_bytes("mountain_peak", &[road.clone()]),
        layer_bytes("landuse", &[road.clone()]),
        layer_bytes("park", &[road]),
    ]);
    let plan = get_ofm_data(&data, 256, 14);
    // Only the park layer survives: it fills green at half opacity.
    assert_eq!(plan.tasks.len(), 1);
    assert_eq!(plan.tasks[0].style.op, DrawOp::Fill);
    assert_eq!(
        (plan.tasks[0].style.red, plan.tasks[0].style.green, plan.tasks[0].style.blue),
        (0, 255, 0)
    );
}

#[test]
fn style_table_matches_names_and_fragments() {
    assert_eq!(style_for(&b"building".to_vec()).op, DrawOp::Fill);
    assert_eq!(style_for(&b"park".to_vec()).op, DrawOp::Fill);
    assert_eq!(style_for(&b"water".to_vec()).op, DrawOp::Skip);
    assert_eq!(style_for(&b"landcover".to_vec()).op, DrawOp::Skip);
    assert_eq!(style_for(&b"mountain_peak".to_vec()).op, DrawOp::Skip);
    assert_eq!(style_for(&b"buildings".to_vec()).op, DrawOp::Stroke);
    assert_eq!(style_for(&b"transportation".to_vec()).op, DrawOp::Stroke);
    assert_eq!(style_for(&b"".to_vec()).op, DrawOp::Stroke);
}

#[test]
fn raster_tiles_carry_exactly_their_pixels() {
    let blank = RasterTile::blank(4);
    assert_eq!(blank.size, 4);
    assert_eq!(blank.data.len(), 64);
    assert!(blank.data.iter().all(|b| *b == 0));

    assert!(RasterTile::new(2, vec![0u8; 16]).is_some());
    assert!(RasterTile::new(2, vec![0u8; 15]).is_none());

    let tile = Tile::new(
        String::from("14_8000_5000"),
        RasterTile::blank(2),
        Coord::new(52_207_590, 186_745),
        14,
    );
    assert_eq!(tile.zoom, 14);
    assert_eq!(tile.image.size, 2);
}

#[test]
fn tiles_compare_by_identity_not_pixels() {
    let loc = Coord::new(52_207_590, 186_745);
    let a = Tile::new(String::from("t"), RasterTile::blank(2), loc, 14);
    let b = Tile::new(String::from("t"), RasterTile::blank(4), loc, 14);
    let c = Tile::new(String::from("u"), RasterTile::blank(2), loc, 14);
    let d = Tile::new(String::from("t"), RasterTile::blank(2), loc, 15);
    assert!(a == b);
    assert!(a != c);
    assert!(a != d);
}
