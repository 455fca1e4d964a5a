use ofm_viewer::chunk::ChunkManager;

#[test]
fn spawn_pass_fills_the_square_around_the_anchor() {
    let mut cm = ChunkManager::new();
    let newly = cm.spawn_chunks_around_camera((0, 0), 2);
    assert_eq!(newly.len(), 25);
    assert_eq!(cm.spawned_chunks.len(), 25);
    for x in -2..=2 {
        for y in -2..=2 {
            assert!(cm.contains_spawned((x, y)), "missing ({x}, {y})");
        }
    }
    assert!(!cm.contains_spawned((3, 0)));
    assert!(!cm.contains_spawned((0, -3)));
}

#[test]
fn spawn_pass_reserves_each_position_only_once() {
    let mut cm = ChunkManager::new();
    cm.spawn_chunks_around_camera((0, 0), 2);
    // A second pass over an overlapping square only returns the new rim.
    let newly = cm.spawn_chunks_around_camera((1, 0), 2);
    assert_eq!(newly.len(), 5);
    for p in &newly {
        assert_eq!(p.0, 3);
    }
    assert_eq!(cm.spawned_chunks.len(), 30);
}

#[test]
fn moving_the_anchor_far_evicts_everything() {
    let mut cm = ChunkManager::new();
    cm.spawn_chunks_around_camera((0, 0), 2);
    assert_eq!(cm.spawned_chunks.len(), 25);
    // Anchor chunk (10, 10) stands at world pixels (2560, 2560); every
    // original chunk is further than ten tile widths from there.
    let removed = cm.despawn_outofrange_chunks((2560, 2560), 256);
    assert_eq!(removed.len(), 25);
    assert_eq!(cm.spawned_chunks.len(), 0);
}

#[test]
fn eviction_keeps_chunks_at_the_threshold() {
    let mut cm = ChunkManager::new();
    cm.reserve((10, 0));
    cm.reserve((11, 0));
    // (10, 0) lies exactly ten tile widths east of the camera: kept.
    // (11, 0) lies beyond: evicted.
    let removed = cm.despawn_outofrange_chunks((0, 0), 256);
    assert_eq!(removed, vec![(11, 0)]);
    assert!(cm.contains_spawned((10, 0)));
    assert!(!cm.contains_spawned((11, 0)));
}

#[test]
fn first_completion_wins() {
    let mut cm = ChunkManager::new();
    cm.merge_completion((1, 2), vec![1, 2, 3]);
    cm.merge_completion((1, 2), vec![9, 9, 9]);
    cm.merge_completion((3, 4), vec![7]);
    assert_eq!(cm.to_spawn_chunks.len(), 2);
    assert_eq!(cm.to_spawn_chunks[0], ((1, 2), vec![1, 2, 3]));
    assert_eq!(cm.to_spawn_chunks[1], ((3, 4), vec![7]));
}

#[test]
fn take_pending_empties_and_reserves() {
    let mut cm = ChunkManager::new();
    cm.merge_completion((5, 6), vec![1]);
    cm.merge_completion((7, 8), vec![2]);
    let done = cm.take_pending();
    assert_eq!(done.len(), 2);
    assert_eq!(done[0].0, (5, 6));
    assert_eq!(done[1].0, (7, 8));
    assert_eq!(cm.to_spawn_chunks.len(), 0);
    assert!(cm.contains_spawned((5, 6)));
    assert!(cm.contains_spawned((7, 8)));
}

#[test]
fn update_latch_reads_once() {
    let mut cm = ChunkManager::new();
    assert!(cm.take_update());
    assert!(!cm.take_update());
    cm.request_update();
    assert!(cm.take_update());
}

#[test]
fn clear_forgets_everything() {
    let mut cm = ChunkManager::new();
    cm.spawn_chunks_around_camera((0, 0), 1);
    cm.merge_completion((0, 0), vec![1]);
    cm.clear();
    assert_eq!(cm.spawned_chunks.len(), 0);
    assert_eq!(cm.to_spawn_chunks.len(), 0);
}
