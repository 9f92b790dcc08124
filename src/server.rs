use vstd::prelude::*;
use crate::block_types::AIR;
use crate::chunk::{Chunk, LENGTH, WIDTH, block_index, generated_cell, local_in_bounds};
use crate::coords::{BlockPos, ChunkPos, LocalBlockPos, block_axis_in_grid};
use crate::mapping::ChunkMap;
use crate::worldgen::WorldGen;

verus! {

/// Whether chunk `p` lies within Euclidean distance `radius` of `center` (the boundary
/// circle included).
pub open spec fn in_region(p: ChunkPos, center: ChunkPos, radius: int) -> bool {
    (p.x - center.x) * (p.x - center.x) + (p.z - center.z) * (p.z - center.z) <= radius * radius
}

/// Whether two chunks share an edge.
pub open spec fn adjacent(p: ChunkPos, q: ChunkPos) -> bool {
    ||| (p.z == q.z && (p.x - q.x == 1 || q.x - p.x == 1))
    ||| (p.x == q.x && (p.z - q.z == 1 || q.z - p.z == 1))
}

/// Whether every chunk of a map is well formed.
pub open spec fn chunks_wf(m: Map<ChunkPos, Chunk>) -> bool {
    forall|p: ChunkPos| #[trigger] m.contains_key(p) ==> m[p].wf()
}

/// What unloading the chunks outside a region does: `new` keeps exactly the chunks of `old`
/// inside the region, with their blocks; a kept chunk becomes dirty when an edge neighbour
/// of it was dropped.
pub open spec fn region_unloaded(
    old: Map<ChunkPos, Chunk>,
    new: Map<ChunkPos, Chunk>,
    center: ChunkPos,
    radius: int,
) -> bool {
    &&& forall|p: ChunkPos| #[trigger]
        new.contains_key(p) <==> old.contains_key(p) && in_region(p, center, radius)
    &&& forall|p: ChunkPos| #[trigger]
        new.contains_key(p) ==> {
            &&& new[p].cells() == old[p].cells()
            &&& new[p].dirty() <==> (old[p].dirty() || exists|q: ChunkPos|
                #![trigger adjacent(q, p)]
                old.contains_key(q) && !in_region(q, center, radius) && adjacent(q, p))
        }
}

/// The chunk that owns block `pos`, if loaded.
pub open spec fn owner_loaded(m: Map<ChunkPos, Chunk>, pos: BlockPos) -> bool {
    pos.in_grid() && m.contains_key(pos.spec_chunk_pos())
}

/// The block at world position `pos`: air where its chunk is not loaded.
pub open spec fn world_block(m: Map<ChunkPos, Chunk>, pos: BlockPos) -> u8 {
    if owner_loaded(m, pos) {
        m[pos.spec_chunk_pos()].cell(pos.local_x(), pos.y as int, pos.local_z())
    } else {
        0
    }
}

/// Whether editing block `pos` changes faces of the neighbouring chunk `p`: the block lies
/// on the edge of its chunk that faces `p`.
pub open spec fn edge_neighbour(pos: BlockPos, p: ChunkPos) -> bool {
    let c = pos.spec_chunk_pos();
    ||| (pos.local_x() == 0 && p.x == c.x - 1 && p.z == c.z)
    ||| (pos.local_x() == 15 && p.x == c.x + 1 && p.z == c.z)
    ||| (pos.local_z() == 0 && p.x == c.x && p.z == c.z - 1)
    ||| (pos.local_z() == 15 && p.x == c.x && p.z == c.z + 1)
}

/// A chunk within the region lies within the square of side 2 * radius + 1 around it.
proof fn lemma_region_bounds(p: ChunkPos, center: ChunkPos, radius: int)
    requires
        radius >= 0,
        in_region(p, center, radius),
    ensures
        -radius <= p.x - center.x <= radius,
        -radius <= p.z - center.z <= radius,
{
    let dx = p.x - center.x;
    let dz = p.z - center.z;
    assert(dx * dx <= radius * radius && dz * dz <= radius * radius) by (nonlinear_arith)
        requires dx * dx + dz * dz <= radius * radius;
    assert(-radius <= dx <= radius) by (nonlinear_arith)
        requires dx * dx <= radius * radius, radius >= 0;
    assert(-radius <= dz <= radius) by (nonlinear_arith)
        requires dz * dz <= radius * radius, radius >= 0;
}

/// `a * a + b * b`, exactly.
fn square_sum(a: i64, b: i64) -> (r: i128)
    requires
        -0x1_0000_0000 <= a <= 0x1_0000_0000,
        -0x1_0000_0000 <= b <= 0x1_0000_0000,
    ensures
        r == a * a + b * b,
{
    let a = a as i128;
    let b = b as i128;
    assert(0 <= a * a <= 0x1_0000_0000_0000_0000 && 0 <= b * b <= 0x1_0000_0000_0000_0000)
        by (nonlinear_arith)
        requires -0x1_0000_0000 <= a <= 0x1_0000_0000, -0x1_0000_0000 <= b <= 0x1_0000_0000;
    a * a + b * b
}

/// Owner of all loaded chunks, and of the rules that generate them.
pub struct ServerWorld {
    chunks: ChunkMap<Chunk>,
    worldgen: WorldGen,
}

impl ServerWorld {
    /// The loaded chunks by position.
    pub closed spec fn chunks_v(&self) -> Map<ChunkPos, Chunk> {
        self.chunks.view()
    }

    pub closed spec fn seed_v(&self) -> u32 {
        self.worldgen.seed_v()
    }

    /// The chunk table is well formed.
    pub closed spec fn store_wf(&self) -> bool {
        self.chunks.wf()
    }

    pub open spec fn wf(&self) -> bool {
        self.store_wf() && chunks_wf(self.chunks_v())
    }

    pub fn create(seed: u32) -> (r: Self)
        ensures
            r.wf(),
            r.chunks_v() == Map::<ChunkPos, Chunk>::empty(),
            r.seed_v() == seed,
    {
        Self { chunks: ChunkMap::new(), worldgen: WorldGen::create(seed) }
    }

    pub fn worldgen(&self) -> (r: &WorldGen)
        ensures
            r.seed_v() == self.seed_v(),
    {
        &self.worldgen
    }

    /// Marks the chunk at `p` dirty, if loaded.
    fn mark_dirty_at(&mut self, p: ChunkPos)
        requires
            old(self).wf(),
        ensures
            final(self).wf(),
            final(self).seed_v() == old(self).seed_v(),
            final(self).chunks_v().dom() == old(self).chunks_v().dom(),
            forall|q: ChunkPos| #[trigger]
                final(self).chunks_v().contains_key(q) ==> final(self).chunks_v()[q].cells()
                    == old(self).chunks_v()[q].cells() && (final(self).chunks_v()[q].dirty() <==> (
                old(self).chunks_v()[q].dirty() || q == p)),
    {
        match self.chunks.remove(&p) {
            Some(chunk) => {
                let mut chunk = chunk;
                chunk.mark_dirty();
                self.chunks.insert(p, chunk);
                assert(self.chunks.view().dom() =~= old(self).chunks_v().dom());
            },
            None => {},
        }
    }

    /// Marks dirty each loaded chunk that shares an edge with `p`.
    fn mark_neighbours_dirty(&mut self, p: ChunkPos)
        requires
            old(self).wf(),
        ensures
            final(self).wf(),
            final(self).seed_v() == old(self).seed_v(),
            final(self).chunks_v().dom() == old(self).chunks_v().dom(),
            forall|q: ChunkPos| #[trigger]
                final(self).chunks_v().contains_key(q) ==> final(self).chunks_v()[q].cells()
                    == old(self).chunks_v()[q].cells() && (final(self).chunks_v()[q].dirty() <==> (
                old(self).chunks_v()[q].dirty() || adjacent(p, q))),
    {
        if p.x > i32::MIN {
            self.mark_dirty_at(ChunkPos::new(p.x - 1, p.z));
        }
        if p.x < i32::MAX {
            self.mark_dirty_at(ChunkPos::new(p.x + 1, p.z));
        }
        if p.z > i32::MIN {
            self.mark_dirty_at(ChunkPos::new(p.x, p.z - 1));
        }
        if p.z < i32::MAX {
            self.mark_dirty_at(ChunkPos::new(p.x, p.z + 1));
        }
    }

    /// Unloads every chunk farther than `radius` from `position`, marking the loaded edge
    /// neighbours of each dropped chunk dirty, and returns the positions inside the region
    /// that are not loaded: those that `load_chunk` must generate to complete the region.
    pub fn load_region(&mut self, position: &ChunkPos, radius: usize) -> (missing: Vec<ChunkPos>)
        requires
            old(self).wf(),
            i32::MIN <= position.x - radius,
            position.x + radius <= i32::MAX,
            i32::MIN <= position.z - radius,
            position.z + radius <= i32::MAX,
        ensures
            final(self).wf(),
            final(self).seed_v() == old(self).seed_v(),
            region_unloaded(old(self).chunks_v(), final(self).chunks_v(), *position, radius as int),
            missing@.no_duplicates(),
            forall|p: ChunkPos|
                #![trigger missing@.contains(p)]
                missing@.contains(p) <==> in_region(p, *position, radius as int)
                    && !final(self).chunks_v().contains_key(p),
    {
        let ghost old_map = self.chunks.view();
        let ghost center = *position;
        let ghost rad = radius as int;
        let r64 = radius as i64;
        let keys = self.chunks.keys();
        let mut i: usize = 0;
        while i < keys.len()
            invariant
                self.wf(),
                self.seed_v() == old(self).seed_v(),
                old_map == old(self).chunks_v(),
                center == *position,
                rad == radius,
                r64 == radius,
                r64 <= i32::MAX,
                i <= keys@.len(),
                keys@.no_duplicates(),
                forall|k: int| 0 <= k < keys@.len() ==> old_map.contains_key(#[trigger] keys@[k]),
                forall|p: ChunkPos| #[trigger] old_map.contains_key(p) ==> keys@.contains(p),
                forall|p: ChunkPos| #[trigger]
                    self.chunks_v().contains_key(p) <==> old_map.contains_key(p) && (in_region(
                        p, center, rad) || !keys@.subrange(0, i as int).contains(p)),
                forall|p: ChunkPos| #[trigger]
                    self.chunks_v().contains_key(p) ==> {
                        &&& self.chunks_v()[p].cells() == old_map[p].cells()
                        &&& self.chunks_v()[p].dirty() <==> (old_map[p].dirty() || exists|k: int|
                            0 <= k < i && !in_region(#[trigger] keys@[k], center, rad) && adjacent(
                                keys@[k], p))
                    },
            decreases keys@.len() - i,
        {
            let p = keys[i];
            let dx = p.x as i64 - position.x as i64;
            let dz = p.z as i64 - position.z as i64;
            if square_sum(dx, dz) > square_sum(r64, 0) {
                self.mark_neighbours_dirty(p);
                let _ = self.chunks.remove(&p);
                assert forall|q: ChunkPos| #[trigger]
                    self.chunks_v().contains_key(q) implies (self.chunks_v()[q].dirty() <==> (
                    old_map[q].dirty() || exists|k: int|
                        0 <= k < i + 1 && !in_region(#[trigger] keys@[k], center, rad) && adjacent(
                            keys@[k], q))) by {
                    if adjacent(p, q) {
                        assert(adjacent(keys@[i as int], q) && !in_region(keys@[i as int], center, rad));
                    }
                    if exists|k: int|
                        0 <= k < i + 1 && !in_region(#[trigger] keys@[k], center, rad) && adjacent(
                            keys@[k], q) {
                        let k = choose|k: int|
                            0 <= k < i + 1 && !in_region(#[trigger] keys@[k], center, rad)
                                && adjacent(keys@[k], q);
                        if k < i {
                        } else {
                            assert(keys@[k] == p);
                        }
                    }
                }
            } else {
                assert(in_region(p, center, rad));
            }
            assert(keys@.subrange(0, i + 1) == keys@.subrange(0, i as int).push(p));
            assert forall|q: ChunkPos| #[trigger]
                self.chunks_v().contains_key(q) <==> old_map.contains_key(q) && (in_region(
                    q, center, rad) || !keys@.subrange(0, i + 1).contains(q)) by {
                let prefix = keys@.subrange(0, i as int);
                let longer = keys@.subrange(0, i + 1);
                if longer.contains(q) && q != p {
                    let k = choose|k: int| 0 <= k < i + 1 && longer[k] == q;
                    assert(prefix[k] == q);
                }
                if prefix.contains(q) {
                    let k = choose|k: int| 0 <= k < i && prefix[k] == q;
                    assert(keys@.subrange(0, i + 1)[k] == q);
                }
                if q == p {
                    assert(keys@.subrange(0, i + 1)[i as int] == q);
                }
            }
            i = i + 1;
        }
        assert(keys@.subrange(0, keys@.len() as int) == keys@);
        assert forall|q: ChunkPos| #[trigger]
            self.chunks_v().contains_key(q) implies (self.chunks_v()[q].dirty() <==> (
            old_map[q].dirty() || exists|w: ChunkPos|
                #![trigger adjacent(w, q)]
                old_map.contains_key(w) && !in_region(w, center, rad) && adjacent(w, q))) by {
            if exists|w: ChunkPos|
                #![trigger adjacent(w, q)]
                old_map.contains_key(w) && !in_region(w, center, rad) && adjacent(w, q) {
                let w = choose|w: ChunkPos|
                    #![trigger adjacent(w, q)]
                    old_map.contains_key(w) && !in_region(w, center, rad) && adjacent(w, q);
                assert(keys@.contains(w));
                let k = choose|k: int| 0 <= k < keys@.len() && keys@[k] == w;
                assert(!in_region(keys@[k], center, rad) && adjacent(keys@[k], q));
            }
        }
        self.missing_in_region(position, radius)
    }

    /// The positions within `radius` of `position` that are not loaded, scanning x-major.
    fn missing_in_region(&self, position: &ChunkPos, radius: usize) -> (missing: Vec<ChunkPos>)
        requires
            self.wf(),
            i32::MIN <= position.x - radius,
            position.x + radius <= i32::MAX,
            i32::MIN <= position.z - radius,
            position.z + radius <= i32::MAX,
        ensures
            missing@.no_duplicates(),
            forall|p: ChunkPos|
                #![trigger missing@.contains(p)]
                missing@.contains(p) <==> in_region(p, *position, radius as int)
                    && !self.chunks_v().contains_key(p),
    {
        let r = radius as i64;
        let mut missing: Vec<ChunkPos> = Vec::new();
        let mut x: i64 = -r;
        assert forall|p: ChunkPos|
            #![trigger missing@.contains(p)]
            in_region(p, *position, radius as int) implies -r <= p.x - position.x by {
            lemma_region_bounds(p, *position, radius as int);
        }
        while x <= r
            invariant
                self.wf(),
                r == radius,
                r <= i32::MAX,
                -r <= x <= r + 1,
                i32::MIN <= position.x - radius,
                position.x + radius <= i32::MAX,
                i32::MIN <= position.z - radius,
                position.z + radius <= i32::MAX,
                missing@.no_duplicates(),
                forall|k: int| 0 <= k < missing@.len() ==> (#[trigger] missing@[k]).x - position.x < x,
                forall|p: ChunkPos|
                    #![trigger missing@.contains(p)]
                    missing@.contains(p) <==> p.x - position.x < x && in_region(p, *position, radius as int)
                        && !self.chunks_v().contains_key(p),
            decreases r + 1 - x,
        {
            let mut z: i64 = -r;
            assert forall|p: ChunkPos|
                #![trigger missing@.contains(p)]
                in_region(p, *position, radius as int) implies -r <= p.z - position.z by {
                lemma_region_bounds(p, *position, radius as int);
            }
            while z <= r
                invariant
                    self.wf(),
                    r == radius,
                    r <= i32::MAX,
                    -r <= x <= r,
                    -r <= z <= r + 1,
                    i32::MIN <= position.x - radius,
                    position.x + radius <= i32::MAX,
                    i32::MIN <= position.z - radius,
                    position.z + radius <= i32::MAX,
                    missing@.no_duplicates(),
                    forall|k: int| 0 <= k < missing@.len() ==> (#[trigger] missing@[k]).x - position.x < x
                        || (missing@[k].x - position.x == x && missing@[k].z - position.z < z),
                    forall|p: ChunkPos|
                        #![trigger missing@.contains(p)]
                        missing@.contains(p) <==> (p.x - position.x < x || (p.x - position.x == x
                            && p.z - position.z < z)) && in_region(p, *position, radius as int)
                            && !self.chunks_v().contains_key(p),
                decreases r + 1 - z,
            {
                let p = ChunkPos::new((position.x as i64 + x) as i32, (position.z as i64 + z) as i32);
                if square_sum(x, z) <= square_sum(r, 0)
                    && !self.chunks.contains_key(&p) {
                    let ghost before = missing@;
                    assert(!before.contains(p));
                    missing.push(p);
                    assert forall|q: ChunkPos|
                        #![trigger missing@.contains(q)]
                        missing@.contains(q) <==> (q.x - position.x < x || (q.x - position.x == x
                            && q.z - position.z < z + 1)) && in_region(q, *position, radius as int)
                            && !self.chunks_v().contains_key(q) by {
                        if missing@.contains(q) && q != p {
                            let k = choose|k: int| 0 <= k < missing@.len() && missing@[k] == q;
                            assert(before[k] == q);
                        }
                        if before.contains(q) {
                            let k = choose|k: int| 0 <= k < before.len() && before[k] == q;
                            assert(missing@[k] == q);
                        }
                        if q == p {
                            assert(missing@[missing@.len() - 1] == q);
                        }
                    }
                } else {
                    assert forall|q: ChunkPos|
                        #![trigger missing@.contains(q)]
                        missing@.contains(q) <==> (q.x - position.x < x || (q.x - position.x == x
                            && q.z - position.z < z + 1)) && in_region(q, *position, radius as int)
                            && !self.chunks_v().contains_key(q) by {
                        if q.x - position.x == x && q.z - position.z == z {
                            assert(q == p);
                        }
                    }
                }
                z = z + 1;
            }
            assert forall|p: ChunkPos|
                #![trigger missing@.contains(p)]
                missing@.contains(p) <==> p.x - position.x < x + 1 && in_region(p, *position, radius as int)
                    && !self.chunks_v().contains_key(p) by {
                if in_region(p, *position, radius as int) {
                    lemma_region_bounds(p, *position, radius as int);
                }
            }
            x = x + 1;
        }
        assert forall|p: ChunkPos|
            #![trigger missing@.contains(p)]
            in_region(p, *position, radius as int) implies p.x - position.x < x by {
            lemma_region_bounds(p, *position, radius as int);
        }
        missing
    }

    /// Generates and loads the chunk at `position` from its column heights, marking its
    /// loaded edge neighbours dirty. Does nothing if the chunk is already loaded.
    pub fn load_chunk(&mut self, position: &ChunkPos, heights: &Vec<usize>) -> (created: bool)
        requires
            old(self).wf(),
            heights@.len() == 256,
        ensures
            final(self).wf(),
            final(self).seed_v() == old(self).seed_v(),
            created == !old(self).chunks_v().contains_key(*position),
            !created ==> final(self).chunks_v() == old(self).chunks_v(),
            created ==> final(self).chunks_v().dom() == old(self).chunks_v().dom().insert(*position),
            created ==> forall|q: ChunkPos| #[trigger]
                old(self).chunks_v().contains_key(q) ==> final(self).chunks_v()[q].cells()
                    == old(self).chunks_v()[q].cells() && (final(self).chunks_v()[q].dirty() <==> (
                old(self).chunks_v()[q].dirty() || adjacent(*position, q))),
            created ==> final(self).chunks_v()[*position].dirty(),
            created ==> forall|x: int, y: int, z: int| #![trigger final(self).chunks_v()[*position].cell(x, y, z)]
                local_in_bounds(x, y, z) ==> final(self).chunks_v()[*position].cell(x, y, z)
                    == generated_cell(old(self).seed_v(), *position, heights@, x, y, z),
    {
        if self.chunks.contains_key(position) {
            return false;
        }
        self.mark_neighbours_dirty(*position);
        let chunk = Chunk::create(&self.worldgen, position, heights);
        self.chunks.insert(*position, chunk);
        assert(self.chunks_v().dom() =~= old(self).chunks_v().dom().insert(*position));
        true
    }

    /// The loaded chunk at `position`, if any.
    pub fn get_chunk(&self, position: &ChunkPos) -> (r: Option<&Chunk>)
        requires
            self.wf(),
        ensures
            match r {
                Some(c) => self.chunks_v().contains_key(*position) && *c == self.chunks_v()[*position]
                    && c.wf(),
                None => !self.chunks_v().contains_key(*position),
            },
    {
        self.chunks.get(position)
    }

    /// The positions of all loaded chunks, each once.
    pub fn get_all_chunks(&self) -> (r: Vec<ChunkPos>)
        requires
            self.wf(),
        ensures
            r@.no_duplicates(),
            forall|i: int| 0 <= i < r@.len() ==> self.chunks_v().contains_key(#[trigger] r@[i]),
            forall|p: ChunkPos| #[trigger] self.chunks_v().contains_key(p) ==> r@.contains(p),
    {
        self.chunks.keys()
    }

    /// Marks the chunk at `position` clean, once its mesh has been rebuilt.
    pub fn mark_chunk_clean(&mut self, position: &ChunkPos)
        requires
            old(self).wf(),
        ensures
            final(self).wf(),
            final(self).seed_v() == old(self).seed_v(),
            final(self).chunks_v().dom() == old(self).chunks_v().dom(),
            forall|q: ChunkPos| #[trigger]
                final(self).chunks_v().contains_key(q) ==> final(self).chunks_v()[q].cells()
                    == old(self).chunks_v()[q].cells() && (final(self).chunks_v()[q].dirty() <==> (
                old(self).chunks_v()[q].dirty() && q != *position)),
    {
        match self.chunks.remove(position) {
            Some(chunk) => {
                let mut chunk = chunk;
                chunk.mark_clean();
                self.chunks.insert(*position, chunk);
                assert(self.chunks.view().dom() =~= old(self).chunks_v().dom());
            },
            None => {},
        }
    }

    /// The chunk that owns `position` and the block's local coordinates in it, when the
    /// chunk index fits the grid.
    fn locate(position: &BlockPos) -> (r: Option<(ChunkPos, usize, usize)>)
        ensures
            match r {
                Some((c, lx, lz)) => position.in_grid() && c == position.spec_chunk_pos()
                    && lx == position.local_x() && lz == position.local_z(),
                None => !position.in_grid(),
            },
    {
        let cx = position.x.checked_div_euclid(WIDTH as i64).unwrap();
        let cz = position.z.checked_div_euclid(LENGTH as i64).unwrap();
        if cx < i32::MIN as i64 || cx > i32::MAX as i64 || cz < i32::MIN as i64 || cz > i32::MAX as i64 {
            return None;
        }
        let lx = (position.x - cx * WIDTH as i64) as usize;
        let lz = (position.z - cz * LENGTH as i64) as usize;
        Some((ChunkPos::new(cx as i32, cz as i32), lx, lz))
    }

    /// The block at a world position; air where its chunk is not loaded or the height is
    /// outside the chunk.
    pub fn get_block(&self, position: &BlockPos) -> (r: u8)
        requires
            self.wf(),
        ensures
            r == world_block(self.chunks_v(), *position),
    {
        match Self::locate(position) {
            None => AIR,
            Some((chunk_pos, lx, lz)) => match self.chunks.get(&chunk_pos) {
                None => AIR,
                Some(chunk) => {
                    if position.y < 0 || position.y >= 256 {
                        AIR
                    } else {
                        chunk.get_block(&LocalBlockPos::new(lx, position.y as usize, lz))
                    }
                },
            },
        }
    }

    /// Writes a block at a world position. Fails, changing nothing, where the owning chunk is
    /// not loaded or the height is outside the chunk. On success the owning chunk becomes
    /// dirty, and so does the loaded neighbour across the edge the block sits on.
    pub fn set_block(&mut self, position: &BlockPos, block: u8) -> (ok: bool)
        requires
            old(self).wf(),
        ensures
            final(self).wf(),
            final(self).seed_v() == old(self).seed_v(),
            ok == (owner_loaded(old(self).chunks_v(), *position) && 0 <= position.y < 256),
            !ok ==> final(self).chunks_v() == old(self).chunks_v(),
            final(self).chunks_v().dom() == old(self).chunks_v().dom(),
            ok ==> forall|q: ChunkPos| #[trigger]
                final(self).chunks_v().contains_key(q) ==> {
                    &&& final(self).chunks_v()[q].cells() == if q == position.spec_chunk_pos() {
                        old(self).chunks_v()[q].cells().update(
                            block_index(position.local_x(), position.y as int, position.local_z()),
                            block,
                        )
                    } else {
                        old(self).chunks_v()[q].cells()
                    }
                    &&& final(self).chunks_v()[q].dirty() <==> (old(self).chunks_v()[q].dirty()
                        || q == position.spec_chunk_pos() || edge_neighbour(*position, q))
                },
    {
        let (chunk_pos, lx, lz) = match Self::locate(position) {
            None => return false,
            Some(t) => t,
        };
        if position.y < 0 || position.y >= 256 {
            return false;
        }
        let chunk = match self.chunks.remove(&chunk_pos) {
            None => return false,
            Some(c) => c,
        };
        let mut chunk = chunk;
        let _ = chunk.set_block(&LocalBlockPos::new(lx, position.y as usize, lz), block);
        self.chunks.insert(chunk_pos, chunk);
        assert(self.chunks.view().dom() =~= old(self).chunks_v().dom());
        if lx == 0 {
            if chunk_pos.x > i32::MIN {
                self.mark_dirty_at(ChunkPos::new(chunk_pos.x - 1, chunk_pos.z));
            }
        } else if lx >= WIDTH - 1 {
            if chunk_pos.x < i32::MAX {
                self.mark_dirty_at(ChunkPos::new(chunk_pos.x + 1, chunk_pos.z));
            }
        }
        if lz == 0 {
            if chunk_pos.z > i32::MIN {
                self.mark_dirty_at(ChunkPos::new(chunk_pos.x, chunk_pos.z - 1));
            }
        } else if lz >= LENGTH - 1 {
            if chunk_pos.z < i32::MAX {
                self.mark_dirty_at(ChunkPos::new(chunk_pos.x, chunk_pos.z + 1));
            }
        }
        true
    }
}

/// Loading the same region twice in succession: the second load keeps every chunk that the
/// first one left, with its blocks, and marks none of them dirty.
pub proof fn lemma_region_load_idempotent(
    first: Map<ChunkPos, Chunk>,
    between: Map<ChunkPos, Chunk>,
    after: Map<ChunkPos, Chunk>,
    center: ChunkPos,
    radius: int,
)
    requires
        region_unloaded(first, between, center, radius),
        region_unloaded(between, after, center, radius),
    ensures
        after.dom() == between.dom(),
        forall|p: ChunkPos| #[trigger]
            after.contains_key(p) ==> after[p].cells() == between[p].cells() && after[p].dirty()
                == between[p].dirty(),
{
    assert(after.dom() =~= between.dom());
    assert forall|p: ChunkPos| #[trigger] after.contains_key(p) implies after[p].dirty()
        == between[p].dirty() by {
        if exists|q: ChunkPos|
            #![trigger adjacent(q, p)]
            between.contains_key(q) && !in_region(q, center, radius) && adjacent(q, p) {
            let q = choose|q: ChunkPos|
                #![trigger adjacent(q, p)]
                between.contains_key(q) && !in_region(q, center, radius) && adjacent(q, p);
            assert(between.contains_key(q));
        }
    }
}

} // verus!
