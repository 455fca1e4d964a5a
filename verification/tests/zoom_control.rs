use ofm_viewer::chunk::ChunkManager;
use ofm_viewer::zoom::ZoomManager;

fn manager_at(zoom: u32) -> ZoomManager {
    ZoomManager { zoom_level: zoom, last_zoom_level: 0, last_scale_millis: 0, tile_size: 256 }
}

#[test]
fn defaults_start_at_level_14() {
    let zm = ZoomManager::new();
    assert_eq!(zm.zoom_level, 14);
    assert_eq!(zm.last_zoom_level, 0);
    assert_eq!(zm.last_scale_millis, 0);
    assert_eq!(zm.tile_size, 256);
}

#[test]
fn scale_sequence_one_then_two_and_a_half_steps_out() {
    // Starting at level 10, a scale of 1.0 changes nothing, then 2.5 steps
    // the level down to 9 and empties the realized-chunk bookkeeping.
    let mut zm = manager_at(10);
    let mut cm = ChunkManager::new();
    cm.spawn_chunks_around_camera((0, 0), 2);
    assert_eq!(cm.spawned_chunks.len(), 25);

    let t1 = zm.detect_zoom_level(&mut cm, 1000);
    assert!(!t1);
    assert_eq!(zm.zoom_level, 10);
    assert_eq!(cm.spawned_chunks.len(), 25);

    let t2 = zm.detect_zoom_level(&mut cm, 2500);
    assert!(t2);
    assert_eq!(zm.zoom_level, 9);
    assert_eq!(zm.last_zoom_level, 10);
    assert_eq!(cm.spawned_chunks.len(), 0);
    assert_eq!(cm.to_spawn_chunks.len(), 0);
    assert!(cm.update);
}

#[test]
fn scale_well_below_half_steps_in() {
    let mut zm = manager_at(10);
    let mut cm = ChunkManager::new();
    let t = zm.detect_zoom_level(&mut cm, 400);
    assert!(t);
    assert_eq!(zm.zoom_level, 11);
    assert_eq!(zm.last_zoom_level, 10);
}

#[test]
fn comfortable_scale_changes_nothing_but_the_latch() {
    let mut zm = manager_at(10);
    let mut cm = ChunkManager::new();
    cm.take_update();
    let t = zm.detect_zoom_level(&mut cm, 1500);
    assert!(!t);
    assert_eq!(zm.zoom_level, 10);
    assert!(cm.update);
}

#[test]
fn unchanged_scale_is_ignored() {
    let mut zm = manager_at(10);
    zm.last_scale_millis = 2500;
    let mut cm = ChunkManager::new();
    cm.take_update();
    let t = zm.detect_zoom_level(&mut cm, 2500);
    assert!(!t);
    assert_eq!(zm.zoom_level, 10);
    assert!(!cm.update);
}

#[test]
fn lower_bound_blocks_zooming_out() {
    let mut zm = manager_at(3);
    let mut cm = ChunkManager::new();
    let t = zm.detect_zoom_level(&mut cm, 2500);
    assert!(!t);
    assert_eq!(zm.zoom_level, 3);
}

#[test]
fn upper_bound_blocks_zooming_in() {
    let mut zm = manager_at(19);
    let mut cm = ChunkManager::new();
    let t = zm.detect_zoom_level(&mut cm, 100);
    assert!(!t);
    assert_eq!(zm.zoom_level, 19);
}

#[test]
fn zero_scale_never_zooms_in() {
    let mut zm = manager_at(10);
    zm.last_scale_millis = 700;
    let mut cm = ChunkManager::new();
    let t = zm.detect_zoom_level(&mut cm, 0);
    assert!(!t);
    assert_eq!(zm.zoom_level, 10);
}
