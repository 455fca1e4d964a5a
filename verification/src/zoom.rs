//! Discrete zoom-level controller.
//!
//! The camera's continuous scale factor is sampled once per update tick, held
//! here in thousandths (a scale of 1.0 is 1000).  When the scale leaves the
//! comfortable band the controller snaps to the neighbouring zoom level,
//! flushes every loaded chunk, and asks the caller to reset the camera scale
//! to 1.0, so that each level is rebuilt as an independent clean slate.

use vstd::prelude::*;

use crate::chunk::ChunkManager;
use crate::{MAX_ZOOM_LEVEL, MIN_ZOOM_LEVEL, TILE_QUALITY};

verus! {

/// Scale (in thousandths) above which the view is zoomed out one level.
pub const ZOOM_OUT_SCALE_MILLIS: u32 = 2000;

/// Scale (in thousandths) below which the view is zoomed in one level.
pub const ZOOM_IN_SCALE_MILLIS: u32 = 500;

/// The scale the caller resets the camera to after a transition.
pub const RESET_SCALE_MILLIS: u32 = 1000;

/// The sampled scale demands a step to a coarser level and one is available.
pub open spec fn zoom_out_trigger(scale_millis: int, zoom_level: int) -> bool {
    scale_millis > ZOOM_OUT_SCALE_MILLIS && zoom_level > MIN_ZOOM_LEVEL
}

/// The sampled scale demands a step to a finer level and one is available.
pub open spec fn zoom_in_trigger(scale_millis: int, zoom_level: int) -> bool {
    scale_millis < ZOOM_IN_SCALE_MILLIS && scale_millis != 0 && zoom_level < MAX_ZOOM_LEVEL
}

/// Discrete zoom state: the current level, the level before the last
/// transition, the scale sample of the previous tick, and the session's tile
/// pixel size.
pub struct ZoomManager {
    /// Current zoom level, always within the controller's bounds.
    pub zoom_level: u32,
    /// Zoom level that was current before the most recent transition.
    pub last_zoom_level: u32,
    /// Scale sample (thousandths) observed on the previous update tick.
    pub last_scale_millis: u32,
    /// Edge length of one tile in pixels; fixed for the session.
    pub tile_size: u32,
}

impl ZoomManager {
    /// The level stays within the controller's bounds and the tile size is a
    /// usable pixel count.
    pub open spec fn wf(self) -> bool {
        &&& MIN_ZOOM_LEVEL <= self.zoom_level <= MAX_ZOOM_LEVEL
        &&& 1 <= self.tile_size <= 100_000
    }

    /// The starting state: level 14 over the session's tile size, with no
    /// scale yet sampled.
    pub fn new() -> (m: ZoomManager)
        ensures
            m.zoom_level == 14,
            m.last_zoom_level == 0,
            m.last_scale_millis == 0,
            m.tile_size == TILE_QUALITY,
            m.wf(),
    {
        ZoomManager { zoom_level: 14, last_zoom_level: 0, last_scale_millis: 0, tile_size: TILE_QUALITY }
    }

    /// One controller tick over the sampled camera scale (thousandths).
    ///
    /// Nothing happens while the scale is unchanged since the last tick.  On
    /// a changed scale the sample is recorded and the transition rule runs:
    /// beyond the out threshold the level steps down, below the in threshold
    /// it steps up, otherwise it stays; on either step every loaded chunk is
    /// flushed.  Any changed scale raises the chunk manager's update latch.
    /// Returns whether a transition happened, in which case the caller must
    /// tear down the chunk visuals and reset the camera scale to
    /// `RESET_SCALE_MILLIS`.
    pub fn detect_zoom_level(&mut self, chunks: &mut ChunkManager, scale_millis: u32) -> (transitioned: bool)
        requires
            old(self).wf(),
            old(chunks).wf(),
        ensures
            final(self).wf(),
            final(chunks).wf(),
            final(self).tile_size == old(self).tile_size,
            scale_millis == old(self).last_scale_millis ==> *final(self) == *old(self)
                && *final(chunks) == *old(chunks) && !transitioned,
            scale_millis != old(self).last_scale_millis ==> {
                &&& final(self).last_scale_millis == scale_millis
                &&& final(chunks).update
                &&& final(chunks).offset == old(chunks).offset
                &&& transitioned == (zoom_out_trigger(scale_millis as int, old(self).zoom_level as int)
                    || zoom_in_trigger(scale_millis as int, old(self).zoom_level as int))
                &&& if zoom_out_trigger(scale_millis as int, old(self).zoom_level as int) {
                    &&& final(self).zoom_level == old(self).zoom_level - 1
                    &&& final(self).last_zoom_level == old(self).zoom_level
                    &&& final(chunks).spawned_chunks@.len() == 0
                    &&& final(chunks).to_spawn_chunks@.len() == 0
                } else if zoom_in_trigger(scale_millis as int, old(self).zoom_level as int) {
                    &&& final(self).zoom_level == old(self).zoom_level + 1
                    &&& final(self).last_zoom_level == old(self).zoom_level
                    &&& final(chunks).spawned_chunks@.len() == 0
                    &&& final(chunks).to_spawn_chunks@.len() == 0
                } else {
                    &&& final(self).zoom_level == old(self).zoom_level
                    &&& final(self).last_zoom_level == old(self).last_zoom_level
                    &&& final(chunks).spawned_chunks == old(chunks).spawned_chunks
                    &&& final(chunks).to_spawn_chunks == old(chunks).to_spawn_chunks
                }
            },
    {
        if scale_millis == self.last_scale_millis {
            return false;
        }
        self.last_scale_millis = scale_millis;
        let mut transitioned = false;
        if scale_millis > ZOOM_OUT_SCALE_MILLIS && self.zoom_level > MIN_ZOOM_LEVEL {
            self.last_zoom_level = self.zoom_level;
            self.zoom_level = self.zoom_level - 1;
            chunks.clear();
            transitioned = true;
        } else if scale_millis < ZOOM_IN_SCALE_MILLIS && scale_millis != 0
            && self.zoom_level < MAX_ZOOM_LEVEL {
            self.last_zoom_level = self.zoom_level;
            self.zoom_level = self.zoom_level + 1;
            chunks.clear();
            transitioned = true;
        }
        chunks.request_update();
        transitioned
    }
}

impl Default for ZoomManager {
    /// Same starting state as `new`.
    fn default() -> (m: ZoomManager)
        ensures
            m.zoom_level == 14,
            m.last_zoom_level == 0,
            m.last_scale_millis == 0,
            m.tile_size == TILE_QUALITY,
            m.wf(),
    {
        ZoomManager::new()
    }
}

} // verus!
