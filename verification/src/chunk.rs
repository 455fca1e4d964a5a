//! Chunk lifecycle state: which grid positions are requested or realized,
//! which completed rasters await realization, and the update latch that
//! drives a recompute of the visible set.
//!
//! A chunk position is a pair of signed grid coordinates; one chunk shows one
//! tile.  The membership structures are plain vectors with a uniqueness
//! invariant, so that every operation carries an exact membership contract.

use vstd::prelude::*;

verus! {

/// Chebyshev radius (in chunks) of the square of chunks kept loaded around
/// the camera's anchor chunk.
pub const SPAWN_RADIUS: i32 = 2;

/// A realized chunk is evicted once its corner lies further from the camera
/// than this many tile widths (measured in world pixels).
pub const EVICT_DISTANCE_TILES: i64 = 10;

/// No position occurs twice.
pub open spec fn unique_positions(s: Seq<(i32, i32)>) -> bool {
    forall|i: int, j: int| 0 <= i < j < s.len() ==> s[i] != s[j]
}

/// No chunk position is keyed twice among pending results.
pub open spec fn unique_keys(s: Seq<((i32, i32), Vec<u8>)>) -> bool {
    forall|i: int, j: int| 0 <= i < j < s.len() ==> s[i].0 != s[j].0
}

/// The key sequence of a pending-result list.
pub open spec fn keys_of(s: Seq<((i32, i32), Vec<u8>)>) -> Seq<(i32, i32)> {
    s.map_values(|e: ((i32, i32), Vec<u8>)| e.0)
}

/// `p` lies within the Chebyshev `radius` of `anchor`.
pub open spec fn in_square(p: (i32, i32), anchor: (i32, i32), radius: int) -> bool {
    &&& anchor.0 - radius <= p.0 <= anchor.0 + radius
    &&& anchor.1 - radius <= p.1 <= anchor.1 + radius
}

/// The world-pixel corner of chunk `p` lies strictly beyond the eviction
/// distance from the camera position.
pub open spec fn spec_far(p: (i32, i32), camera: (i64, i64), tile_size: int) -> bool {
    let dx = camera.0 - p.0 * tile_size;
    let dy = camera.1 - p.1 * tile_size;
    dx * dx + dy * dy > (EVICT_DISTANCE_TILES * tile_size) * (EVICT_DISTANCE_TILES * tile_size)
}

/// Pushing an element extends membership by exactly that element.
proof fn lemma_push_contains(s: Seq<(i32, i32)>, p: (i32, i32))
    ensures
        forall|q: (i32, i32)|
            #![trigger s.push(p).contains(q)]
            s.push(p).contains(q) == (s.contains(q) || q == p),
{
    assert forall|q: (i32, i32)|
        #![trigger s.push(p).contains(q)]
        s.push(p).contains(q) == (s.contains(q) || q == p) by {
        if s.push(p).contains(q) {
            let k = choose|k: int| 0 <= k < s.push(p).len() && s.push(p)[k] == q;
            if k < s.len() {
                assert(s[k] == q);
            }
        }
        if s.contains(q) {
            let k = choose|k: int| 0 <= k < s.len() && s[k] == q;
            assert(s.push(p)[k] == q);
        }
        if q == p {
            assert(s.push(p)[s.len() as int] == p);
        }
    }
}

/// Pushing a fresh element keeps a duplicate-free sequence duplicate-free.
proof fn lemma_push_unique(s: Seq<(i32, i32)>, p: (i32, i32))
    requires
        unique_positions(s),
        !s.contains(p),
    ensures
        unique_positions(s.push(p)),
{
    assert forall|i: int, j: int|
        0 <= i < j < s.push(p).len() implies s.push(p)[i] != s.push(p)[j] by {
        if j == s.len() {
            assert(s.push(p)[i] == s[i]);
            assert(s.contains(s[i]));
        } else {
            assert(s.push(p)[i] == s[i]);
            assert(s.push(p)[j] == s[j]);
        }
    }
}

/// Taking one element more extends the membership of a prefix by exactly the
/// element at that index.
proof fn lemma_take_one_more_contains(s: Seq<(i32, i32)>, i: int)
    requires
        0 <= i < s.len(),
    ensures
        forall|q: (i32, i32)|
            #![trigger s.take(i + 1).contains(q)]
            s.take(i + 1).contains(q) == (s.take(i).contains(q) || q == s[i]),
{
    assert forall|q: (i32, i32)|
        #![trigger s.take(i + 1).contains(q)]
        s.take(i + 1).contains(q) == (s.take(i).contains(q) || q == s[i]) by {
        if s.take(i + 1).contains(q) {
            let k = choose|k: int| 0 <= k < s.take(i + 1).len() && #[trigger] s.take(i + 1)[k]
                == q;
            if k < i {
                assert(s.take(i)[k] == q);
            }
        }
        if s.take(i).contains(q) {
            let k = choose|k: int| 0 <= k < i && s.take(i)[k] == q;
            assert(s.take(i + 1)[k] == q);
        }
        if q == s[i] {
            assert(s.take(i + 1)[i] == q);
        }
    }
}

/// Whether chunk `p` lies beyond the eviction distance, by exact integer
/// arithmetic on squared distances.
fn is_far(p: (i32, i32), camera: (i64, i64), tile_size: u32) -> (r: bool)
    requires
        1 <= tile_size <= 100_000,
        -0x4_0000_0000_0000 <= camera.0 <= 0x4_0000_0000_0000,
        -0x4_0000_0000_0000 <= camera.1 <= 0x4_0000_0000_0000,
    ensures
        r == spec_far(p, camera, tile_size as int),
{
    proof {
        assert(-0x8000_0000 * 100_000 <= (p.0 as int) * (tile_size as int) <= 0x8000_0000
            * 100_000 && -0x8000_0000 * 100_000 <= (p.1 as int) * (tile_size as int)
            <= 0x8000_0000 * 100_000) by (nonlinear_arith)
            requires
                -0x8000_0000 <= (p.0 as int) < 0x8000_0000,
                -0x8000_0000 <= (p.1 as int) < 0x8000_0000,
                1 <= (tile_size as int) <= 100_000,
        ;
    }
    let wx = (p.0 as i128) * (tile_size as i128);
    let wy = (p.1 as i128) * (tile_size as i128);
    let dx = (camera.0 as i128) - wx;
    let dy = (camera.1 as i128) - wy;
    proof {
        assert(0 <= (EVICT_DISTANCE_TILES as int) * (tile_size as int) <= 1_000_000)
            by (nonlinear_arith)
            requires
                EVICT_DISTANCE_TILES == 10,
                1 <= (tile_size as int) <= 100_000,
        ;
    }
    let limit = (EVICT_DISTANCE_TILES as i128) * (tile_size as i128);
    proof {
        let b: int = 0x10_0000_0000_0000;
        assert(-b * b <= (dx as int) * (dx as int) <= b * b && -b * b <= (dy as int) * (dy as int)
            <= b * b) by (nonlinear_arith)
            requires
                b == 0x10_0000_0000_0000,
                -b <= (dx as int) <= b,
                -b <= (dy as int) <= b,
        ;
        assert(0 <= (limit as int) * (limit as int) <= 1_000_000 * 1_000_000) by (nonlinear_arith)
            requires
                0 <= (limit as int) <= 1_000_000,
        ;
    }
    dx * dx + dy * dy > limit * limit
}

/// Requested-or-realized chunk positions, completed rasters awaiting
/// realization, the last grid-snap correction, and the update latch.
pub struct ChunkManager {
    /// Positions that have been reserved: an async fetch is in flight for
    /// each, or its chunk is already realized.
    pub spawned_chunks: Vec<(i32, i32)>,
    /// Completed raster buffers, keyed by chunk position, awaiting
    /// realization; at most one entry per position (first arrival wins).
    pub to_spawn_chunks: Vec<((i32, i32), Vec<u8>)>,
    /// Grid-snap residual of the most recently planned chunk, in world units.
    pub offset: (u64, u64),
    /// Set when the visible set must be recomputed on the next update tick.
    pub update: bool,
}

impl ChunkManager {
    /// Both membership structures hold each position at most once.
    pub open spec fn wf(self) -> bool {
        &&& unique_positions(self.spawned_chunks@)
        &&& unique_keys(self.to_spawn_chunks@)
    }

    /// A fresh manager: nothing spawned, nothing pending, and an initial
    /// update requested.
    pub fn new() -> (m: ChunkManager)
        ensures
            m.wf(),
            m.spawned_chunks@.len() == 0,
            m.to_spawn_chunks@.len() == 0,
            m.offset == (0u64, 0u64),
            m.update,
    {
        ChunkManager {
            spawned_chunks: Vec::new(),
            to_spawn_chunks: Vec::new(),
            offset: (0, 0),
            update: true,
        }
    }

    /// Whether `p` has been reserved.
    pub fn contains_spawned(&self, p: (i32, i32)) -> (r: bool)
        ensures
            r == self.spawned_chunks@.contains(p),
    {
        let n = self.spawned_chunks.len();
        let mut i: usize = 0;
        while i < n
            invariant
                i <= n == self.spawned_chunks@.len(),
                forall|k: int| 0 <= k < i ==> self.spawned_chunks@[k] != p,
            decreases n - i,
        {
            if self.spawned_chunks[i].0 == p.0 && self.spawned_chunks[i].1 == p.1 {
                return true;
            }
            i = i + 1;
        }
        false
    }

    /// Whether a pending result is already held for `p`.
    pub fn contains_pending(&self, p: (i32, i32)) -> (r: bool)
        ensures
            r == keys_of(self.to_spawn_chunks@).contains(p),
    {
        let n = self.to_spawn_chunks.len();
        let mut i: usize = 0;
        while i < n
            invariant
                i <= n == self.to_spawn_chunks@.len(),
                forall|k: int| 0 <= k < i ==> self.to_spawn_chunks@[k].0 != p,
            decreases n - i,
        {
            if self.to_spawn_chunks[i].0.0 == p.0 && self.to_spawn_chunks[i].0.1 == p.1 {
                proof {
                    assert(keys_of(self.to_spawn_chunks@)[i as int] == p);
                }
                return true;
            }
            i = i + 1;
        }
        proof {
            assert forall|k: int| 0 <= k < keys_of(self.to_spawn_chunks@).len()
                implies keys_of(self.to_spawn_chunks@)[k] != p by {
                assert(self.to_spawn_chunks@[k].0 != p);
            }
        }
        false
    }

    /// Reserves `p` if it is not yet reserved; returns whether it was newly
    /// reserved.  Reservation happens before a fetch is dispatched, so a
    /// position is never requested twice.
    pub fn reserve(&mut self, p: (i32, i32)) -> (added: bool)
        requires
            old(self).wf(),
        ensures
            final(self).wf(),
            added == !old(self).spawned_chunks@.contains(p),
            forall|q: (i32, i32)|
                final(self).spawned_chunks@.contains(q) == (old(self).spawned_chunks@.contains(q)
                    || q == p),
            final(self).to_spawn_chunks == old(self).to_spawn_chunks,
            final(self).offset == old(self).offset,
            final(self).update == old(self).update,
    {
        if self.contains_spawned(p) {
            false
        } else {
            self.spawned_chunks.push(p);
            proof {
                let s = self.spawned_chunks@;
                let prev = old(self).spawned_chunks@;
                assert forall|q: (i32, i32)| s.contains(q) == (prev.contains(q) || q == p) by {
                    if s.contains(q) {
                        let k = choose|k: int| 0 <= k < s.len() && s[k] == q;
                        if k < prev.len() {
                            assert(prev[k] == q);
                        }
                    } else {
                        assert(forall|k: int| 0 <= k < prev.len() ==> prev[k] == s[k]);
                    }
                    if prev.contains(q) {
                        let k = choose|k: int| 0 <= k < prev.len() && prev[k] == q;
                        assert(s[k] == q);
                    }
                    if q == p {
                        assert(s[s.len() - 1] == p);
                    }
                }
            }
            true
        }
    }

    /// Records the grid-snap correction computed for the latest plan.
    pub fn set_offset(&mut self, off: (u64, u64))
        ensures
            *final(self) == (ChunkManager { offset: off, ..*old(self) }),
    {
        self.offset = off;
    }

    /// Raises the update latch: the next update tick recomputes the visible
    /// set.
    pub fn request_update(&mut self)
        ensures
            *final(self) == (ChunkManager { update: true, ..*old(self) }),
    {
        self.update = true;
    }

    /// Lowers and reports the update latch; the caller runs a spawn pass
    /// exactly when it was raised.
    pub fn take_update(&mut self) -> (was: bool)
        ensures
            was == old(self).update,
            *final(self) == (ChunkManager { update: false, ..*old(self) }),
    {
        let was = self.update;
        self.update = false;
        was
    }

    /// One spawn pass: reserves every chunk within the Chebyshev `radius` of
    /// `anchor` that is not yet reserved, and returns exactly those newly
    /// reserved positions, each of which the caller dispatches one fetch for.
    #[verifier::rlimit(60)]
    pub fn spawn_chunks_around_camera(&mut self, anchor: (i32, i32), radius: i32) -> (newly: Vec<
        (i32, i32),
    >)
        requires
            old(self).wf(),
            0 <= radius <= 1024,
            -0x4000_0000 <= anchor.0 <= 0x4000_0000,
            -0x4000_0000 <= anchor.1 <= 0x4000_0000,
        ensures
            final(self).wf(),
            forall|q: (i32, i32)|
                #![trigger final(self).spawned_chunks@.contains(q)]
                final(self).spawned_chunks@.contains(q) == (old(self).spawned_chunks@.contains(q)
                    || in_square(q, anchor, radius as int)),
            forall|q: (i32, i32)|
                #![trigger newly@.contains(q)]
                newly@.contains(q) == (in_square(q, anchor, radius as int) && !old(self).spawned_chunks@.contains(q)),
            unique_positions(newly@),
            final(self).to_spawn_chunks == old(self).to_spawn_chunks,
            final(self).offset == old(self).offset,
            final(self).update == old(self).update,
    {
        let ghost init_spawned = self.spawned_chunks@;
        let mut newly: Vec<(i32, i32)> = Vec::new();
        let mut y = anchor.1 - radius;
        while y <= anchor.1 + radius
            invariant
                self.wf(),
                anchor.1 - radius <= y <= anchor.1 + radius + 1,
                0 <= radius <= 1024,
                -0x4000_0000 <= anchor.0 <= 0x4000_0000,
                -0x4000_0000 <= anchor.1 <= 0x4000_0000,
                forall|q: (i32, i32)|
                    #![trigger self.spawned_chunks@.contains(q)]
                    self.spawned_chunks@.contains(q) == (init_spawned.contains(q) || (
                    in_square(q, anchor, radius as int) && q.1 < y)),
                forall|q: (i32, i32)|
                    #![trigger newly@.contains(q)]
                    newly@.contains(q) == (in_square(q, anchor, radius as int) && q.1 < y && !init_spawned.contains(q)),
                unique_positions(newly@),
                self.to_spawn_chunks == old(self).to_spawn_chunks,
                self.offset == old(self).offset,
                self.update == old(self).update,
            decreases anchor.1 + radius + 1 - y,
        {
            let mut x = anchor.0 - radius;
            proof {
                assert forall|q: (i32, i32)|
                    #![trigger self.spawned_chunks@.contains(q)]
                    self.spawned_chunks@.contains(q) == (init_spawned.contains(q) || (
                    in_square(q, anchor, radius as int) && (q.1 < y || (q.1 == y && q.0 < x)))) by {
                    assert(self.spawned_chunks@.contains(q) == (init_spawned.contains(q) || (in_square(q, anchor, radius as int) && q.1 < y)));
                }
                assert forall|q: (i32, i32)|
                    #![trigger newly@.contains(q)]
                    newly@.contains(q) == (in_square(q, anchor, radius as int) && (q.1 < y || (q.1 == y && q.0
                        < x)) && !init_spawned.contains(q)) by {
                    assert(newly@.contains(q) == (in_square(q, anchor, radius as int) && q.1 < y && !init_spawned.contains(q)));
                }
            }
            while x <= anchor.0 + radius
                invariant
                    self.wf(),
                    anchor.0 - radius <= x <= anchor.0 + radius + 1,
                    anchor.1 - radius <= y <= anchor.1 + radius,
                    0 <= radius <= 1024,
                    -0x4000_0000 <= anchor.0 <= 0x4000_0000,
                    -0x4000_0000 <= anchor.1 <= 0x4000_0000,
                    forall|q: (i32, i32)|
                        #![trigger self.spawned_chunks@.contains(q)]
                        self.spawned_chunks@.contains(q) == (init_spawned.contains(q) || (in_square(q, anchor, radius as int) && (
                        q.1 < y || (q.1 == y && q.0 < x)))),
                    forall|q: (i32, i32)|
                        #![trigger newly@.contains(q)]
                        newly@.contains(q) == (in_square(q, anchor, radius as int) && (q.1 < y || (
                        q.1 == y && q.0 < x)) && !init_spawned.contains(q)),
                    unique_positions(newly@),
                    self.to_spawn_chunks == old(self).to_spawn_chunks,
                    self.offset == old(self).offset,
                    self.update == old(self).update,
                decreases anchor.0 + radius + 1 - x,
            {
                let p = (x, y);
                let ghost newly_prev = newly@;
                let ghost spawned_prev = self.spawned_chunks@;
                let added = self.reserve(p);
                if added {
                    newly.push(p);
                    proof {
                        assert forall|q: (i32, i32)|
                            #![trigger newly@.contains(q)]
                            newly@.contains(q) == (newly_prev.contains(q) || q == p) by {
                            if newly@.contains(q) {
                                let k = choose|k: int|
                                    0 <= k < newly@.len() && newly@[k] == q;
                                if k < newly_prev.len() {
                                    assert(newly_prev[k] == q);
                                }
                            }
                            if newly_prev.contains(q) {
                                let k = choose|k: int|
                                    0 <= k < newly_prev.len() && newly_prev[k] == q;
                                assert(newly@[k] == q);
                            }
                            if q == p {
                                assert(newly@[newly@.len() - 1] == p);
                            }
                        }
                        assert(unique_positions(newly@)) by {
                            assert(!newly_prev.contains(p));
                            assert forall|i: int, j: int|
                                0 <= i < j < newly@.len() implies newly@[i] != newly@[j] by {
                                if j + 1 == newly@.len() {
                                    assert(newly@[i] == newly_prev[i]);
                                    assert(newly_prev.contains(newly_prev[i]));
                                    assert(newly@[j] == p);
                                } else {
                                    assert(newly@[i] == newly_prev[i]);
                                    assert(newly@[j] == newly_prev[j]);
                                }
                            }
                        }
                    }
                }
                proof {
                    assert forall|q: (i32, i32)|
                        #![trigger self.spawned_chunks@.contains(q)]
                        self.spawned_chunks@.contains(q) == (init_spawned.contains(q) || (in_square(q, anchor, radius as int) && (q.1 < y || (
                        q.1 == y && q.0 < x + 1)))) by {
                        assert(self.spawned_chunks@.contains(q) == (spawned_prev.contains(q) || q
                            == p));
                        assert(spawned_prev.contains(q) == (init_spawned.contains(q)
                            || (in_square(q, anchor, radius as int) && (q.1 < y || (q.1 == y && q.0 < x)))));
                    }
                    assert forall|q: (i32, i32)|
                        #![trigger newly@.contains(q)]
                        newly@.contains(q) == (in_square(q, anchor, radius as int) && (q.1 < y || (q.1 == y
                            && q.0 < x + 1)) && !init_spawned.contains(q)) by {
                        if added {
                            assert(newly@.contains(q) == (newly_prev.contains(q) || q == p));
                        } else {
                            assert(newly@ == newly_prev);
                            assert(spawned_prev.contains(p));
                        }
                        assert(newly_prev.contains(q) == (in_square(q, anchor, radius as int) && (q.1 < y || (
                        q.1 == y && q.0 < x)) && !init_spawned.contains(q)));
                    }
                }
                x = x + 1;
            }
            proof {
                assert forall|q: (i32, i32)|
                    #![trigger self.spawned_chunks@.contains(q)]
                    self.spawned_chunks@.contains(q) == (init_spawned.contains(q) || (
                    in_square(q, anchor, radius as int) && q.1 < y + 1)) by {
                    assert(self.spawned_chunks@.contains(q) == (init_spawned.contains(q) || (in_square(q, anchor, radius as int) && (q.1 < y || (q.1
                        == y && q.0 < x)))));
                }
                assert forall|q: (i32, i32)|
                    #![trigger newly@.contains(q)]
                    newly@.contains(q) == (in_square(q, anchor, radius as int) && q.1 < y + 1 && !init_spawned.contains(q)) by {
                    assert(newly@.contains(q) == (in_square(q, anchor, radius as int) && (q.1 < y || (q.1 == y
                        && q.0 < x)) && !init_spawned.contains(q)));
                }
            }
            y = y + 1;
        }
        newly
    }

    /// Merges one completed raster into the pending results.  The first
    /// arrival for a position wins; a duplicate completion is dropped.
    pub fn merge_completion(&mut self, chunk: (i32, i32), data: Vec<u8>)
        requires
            old(self).wf(),
        ensures
            final(self).wf(),
            keys_of(old(self).to_spawn_chunks@).contains(chunk) ==> final(self).to_spawn_chunks
                == old(self).to_spawn_chunks,
            !keys_of(old(self).to_spawn_chunks@).contains(chunk) ==> final(self).to_spawn_chunks@
                == old(self).to_spawn_chunks@.push((chunk, data)),
            final(self).spawned_chunks == old(self).spawned_chunks,
            final(self).offset == old(self).offset,
            final(self).update == old(self).update,
    {
        if !self.contains_pending(chunk) {
            proof {
                let prev = self.to_spawn_chunks@;
                assert forall|k: int| 0 <= k < prev.len() implies prev[k].0 != chunk by {
                    assert(keys_of(prev)[k] == prev[k].0);
                }
            }
            self.to_spawn_chunks.push((chunk, data));
        }
    }

    /// Takes every pending result for realization, in arrival order.  Each
    /// taken position is (re-)reserved, so a realized chunk is always
    /// accounted for in `spawned_chunks`, and the pending list is left empty.
    pub fn take_pending(&mut self) -> (done: Vec<((i32, i32), Vec<u8>)>)
        requires
            old(self).wf(),
        ensures
            final(self).wf(),
            done@ == old(self).to_spawn_chunks@,
            final(self).to_spawn_chunks@.len() == 0,
            forall|q: (i32, i32)|
                final(self).spawned_chunks@.contains(q) == (old(self).spawned_chunks@.contains(q)
                    || keys_of(old(self).to_spawn_chunks@).contains(q)),
            final(self).offset == old(self).offset,
            final(self).update == old(self).update,
    {
        let mut done: Vec<((i32, i32), Vec<u8>)> = Vec::new();
        core::mem::swap(&mut done, &mut self.to_spawn_chunks);
        let n = done.len();
        let mut i: usize = 0;
        while i < n
            invariant
                self.wf(),
                i <= n == done@.len(),
                done@ == old(self).to_spawn_chunks@,
                self.to_spawn_chunks@.len() == 0,
                forall|q: (i32, i32)|
                    self.spawned_chunks@.contains(q) == (old(self).spawned_chunks@.contains(q)
                        || exists|k: int| 0 <= k < i && done@[k].0 == q),
                self.offset == old(self).offset,
                self.update == old(self).update,
            decreases n - i,
        {
            let p = (done[i].0.0, done[i].0.1);
            self.reserve(p);
            proof {
                assert(done@[i as int].0 == p);
            }
            i = i + 1;
        }
        proof {
            assert forall|q: (i32, i32)|
                (exists|k: int| 0 <= k < n && done@[k].0 == q) == keys_of(
                    old(self).to_spawn_chunks@,
                ).contains(q) by {
                if exists|k: int| 0 <= k < n && done@[k].0 == q {
                    let k = choose|k: int| 0 <= k < n && done@[k].0 == q;
                    assert(keys_of(old(self).to_spawn_chunks@)[k] == q);
                }
                if keys_of(old(self).to_spawn_chunks@).contains(q) {
                    let k = choose|k: int|
                        0 <= k < keys_of(old(self).to_spawn_chunks@).len() && keys_of(
                            old(self).to_spawn_chunks@,
                        )[k] == q;
                    assert(done@[k].0 == q);
                }
            }
        }
        done
    }

    /// One eviction pass: drops every reserved position whose chunk corner
    /// lies further than `EVICT_DISTANCE_TILES` tile widths from the camera's
    /// world-pixel position, and returns exactly the dropped positions so the
    /// caller can tear their visuals down.
    pub fn despawn_outofrange_chunks(&mut self, camera: (i64, i64), tile_size: u32) -> (removed:
        Vec<(i32, i32)>)
        requires
            old(self).wf(),
            1 <= tile_size <= 100_000,
            -0x4_0000_0000_0000 <= camera.0 <= 0x4_0000_0000_0000,
            -0x4_0000_0000_0000 <= camera.1 <= 0x4_0000_0000_0000,
        ensures
            final(self).wf(),
            forall|q: (i32, i32)|
                #![trigger final(self).spawned_chunks@.contains(q)]
                final(self).spawned_chunks@.contains(q) == (old(self).spawned_chunks@.contains(q)
                    && !spec_far(q, camera, tile_size as int)),
            forall|q: (i32, i32)|
                #![trigger removed@.contains(q)]
                removed@.contains(q) == (old(self).spawned_chunks@.contains(q) && spec_far(
                    q,
                    camera,
                    tile_size as int,
                )),
            unique_positions(removed@),
            final(self).to_spawn_chunks == old(self).to_spawn_chunks,
            final(self).offset == old(self).offset,
            final(self).update == old(self).update,
    {
        let mut kept: Vec<(i32, i32)> = Vec::new();
        let mut removed: Vec<(i32, i32)> = Vec::new();
        let n = self.spawned_chunks.len();
        let mut i: usize = 0;
        while i < n
            invariant
                self == old(self),
                self.wf(),
                1 <= tile_size <= 100_000,
                -0x4_0000_0000_0000 <= camera.0 <= 0x4_0000_0000_0000,
                -0x4_0000_0000_0000 <= camera.1 <= 0x4_0000_0000_0000,
                i <= n == self.spawned_chunks@.len(),
                forall|q: (i32, i32)|
                    #![trigger kept@.contains(q)]
                    kept@.contains(q) == (self.spawned_chunks@.take(i as int).contains(q)
                        && !spec_far(q, camera, tile_size as int)),
                forall|q: (i32, i32)|
                    #![trigger removed@.contains(q)]
                    removed@.contains(q) == (self.spawned_chunks@.take(i as int).contains(q)
                        && spec_far(q, camera, tile_size as int)),
                unique_positions(kept@),
                unique_positions(removed@),
            decreases n - i,
        {
            let p = (self.spawned_chunks[i].0, self.spawned_chunks[i].1);
            let ghost kept_prev = kept@;
            let ghost removed_prev = removed@;
            let ghost prefix = self.spawned_chunks@.take(i as int);
            proof {
                assert(self.spawned_chunks@.take(i + 1).drop_last() == prefix);
                assert(self.spawned_chunks@.take(i + 1).last() == p);
                assert(!prefix.contains(p)) by {
                    if prefix.contains(p) {
                        let k = choose|k: int| 0 <= k < prefix.len() && prefix[k] == p;
                        assert(self.spawned_chunks@[k] == p);
                        assert(self.spawned_chunks@[i as int] == p);
                    }
                }
            }
            if is_far(p, camera, tile_size) {
                removed.push(p);
                proof {
                    lemma_push_contains(removed_prev, p);
                    lemma_take_one_more_contains(self.spawned_chunks@, i as int);
                    assert(unique_positions(removed@)) by {
                        assert(!removed_prev.contains(p));
                        lemma_push_unique(removed_prev, p);
                    }
                }
            } else {
                kept.push(p);
                proof {
                    lemma_push_contains(kept_prev, p);
                    lemma_take_one_more_contains(self.spawned_chunks@, i as int);
                    assert(unique_positions(kept@)) by {
                        assert(!kept_prev.contains(p));
                        lemma_push_unique(kept_prev, p);
                    }
                }
            }
            proof {
                lemma_take_one_more_contains(self.spawned_chunks@, i as int);
            }
            i = i + 1;
        }
        proof {
            assert(self.spawned_chunks@.take(n as int) == self.spawned_chunks@);
        }
        self.spawned_chunks = kept;
        removed
    }

    /// Forgets every reservation and every pending result, as a zoom
    /// transition does before the world is rebuilt at the new level.
    pub fn clear(&mut self)
        ensures
            final(self).spawned_chunks@.len() == 0,
            final(self).to_spawn_chunks@.len() == 0,
            final(self).offset == old(self).offset,
            final(self).update == old(self).update,
            final(self).wf(),
    {
        self.spawned_chunks.clear();
        self.to_spawn_chunks.clear();
    }
}

impl Default for ChunkManager {
    /// Same starting state as `new`.
    fn default() -> (m: ChunkManager)
        ensures
            m.wf(),
            m.spawned_chunks@.len() == 0,
            m.to_spawn_chunks@.len() == 0,
            m.offset == (0u64, 0u64),
            m.update,
    {
        ChunkManager::new()
    }
}

} // verus!
