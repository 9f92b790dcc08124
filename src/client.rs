use vstd::prelude::*;
use crate::chunk::Chunk;
use crate::coords::{ChunkPos, Coord};
use crate::mapping::ChunkMap;
use crate::mesh::{ChunkData, NextChunks, NextView, chunk_mesh};
use crate::resources::BlockRegistry;
use crate::server::ServerWorld;

verus! {

/// The chunk x that the view is nearest to: its chunk, or the next one once past the middle.
pub open spec fn view_center_x(view: Coord) -> int {
    view.chunk_x_v() + if 2 * view.local_x_v() >= 1048576 { 1int } else { 0int }
}

/// The chunk z that the view is nearest to.
pub open spec fn view_center_z(view: Coord) -> int {
    view.chunk_z_v() + if 2 * view.local_z_v() >= 1048576 { 1int } else { 0int }
}

/// Whether chunk `p` lies within `distance` chunks of (cx, cz), the boundary included.
pub open spec fn in_view(p: ChunkPos, cx: int, cz: int, distance: int) -> bool {
    (p.x - cx) * (p.x - cx) + (p.z - cz) * (p.z - cz) <= distance * distance
}

/// Whether the cache keeps the mesh of `p`: its chunk is loaded and clean, or it is in view.
/// So the mesh of a loaded, clean chunk stays at any distance (it goes once the world unloads
/// the chunk), while the mesh of a dirty or unloaded chunk is dropped as soon as it is out of
/// view rather than rebuilt.
pub open spec fn keeps_mesh(world: Map<ChunkPos, Chunk>, p: ChunkPos, cx: int, cz: int, distance: int) -> bool {
    (world.contains_key(p) && !world[p].dirty()) || in_view(p, cx, cz, distance)
}

/// The loaded chunk at (x, z), if the position exists and is loaded.
pub open spec fn loaded_at(world: Map<ChunkPos, Chunk>, x: int, z: int) -> Option<Chunk> {
    if i32::MIN <= x <= i32::MAX && i32::MIN <= z <= i32::MAX && world.contains_key(
        ChunkPos { x: x as i32, z: z as i32 },
    ) {
        Some(world[ChunkPos { x: x as i32, z: z as i32 }])
    } else {
        None
    }
}

/// The four horizontal neighbours of `p` in the world.
pub open spec fn world_neighbours(world: Map<ChunkPos, Chunk>, p: ChunkPos) -> NextView {
    NextView {
        left: loaded_at(world, p.x - 1, p.z as int),
        right: loaded_at(world, p.x + 1, p.z as int),
        back: loaded_at(world, p.x as int, p.z - 1),
        front: loaded_at(world, p.x as int, p.z + 1),
    }
}

/// Whether `dx * dx + dz * dz <= radius * radius`.
fn within(dx: i64, dz: i64, radius: usize) -> (r: bool)
    requires
        -0x2_0000_0000 <= dx <= 0x2_0000_0000,
        -0x2_0000_0000 <= dz <= 0x2_0000_0000,
    ensures
        r == (dx * dx + dz * dz <= radius * radius),
{
    let dx = dx as i128;
    let dz = dz as i128;
    let wide = radius as i128;
    let capped: i128 = if wide > 0x4_0000_0000 { 0x4_0000_0000 } else { wide };
    assert(0 <= dx * dx <= 0x4_0000_0000_0000_0000 && 0 <= dz * dz <= 0x4_0000_0000_0000_0000)
        by (nonlinear_arith)
        requires -0x2_0000_0000 <= dx <= 0x2_0000_0000, -0x2_0000_0000 <= dz <= 0x2_0000_0000;
    assert(0 <= capped * capped <= 0x10_0000_0000_0000_0000) by (nonlinear_arith)
        requires 0 <= capped <= 0x4_0000_0000;
    if wide > 0x4_0000_0000 {
        assert(radius * radius > 0x10_0000_0000_0000_0000) by (nonlinear_arith)
            requires radius > 0x4_0000_0000;
    }
    dx * dx + dz * dz <= capped * capped
}

/// The meshes of the chunks around the view, rebuilt one dirty chunk at a time.
pub struct ClientWorld {
    chunk_meshes: ChunkMap<ChunkData>,
}

impl ClientWorld {
    /// The cached meshes by chunk position.
    pub closed spec fn meshes_v(&self) -> Map<ChunkPos, ChunkData> {
        self.chunk_meshes.view()
    }

    pub closed spec fn wf(&self) -> bool {
        self.chunk_meshes.wf()
    }

    pub fn create() -> (r: Self)
        ensures
            r.wf(),
            r.meshes_v() == Map::<ChunkPos, ChunkData>::empty(),
    {
        Self { chunk_meshes: ChunkMap::new() }
    }

    /// The cached mesh of `position`, if any.
    pub fn get_mesh(&self, position: &ChunkPos) -> (r: Option<&ChunkData>)
        requires
            self.wf(),
        ensures
            match r {
                Some(m) => self.meshes_v().contains_key(*position) && *m == self.meshes_v()[*position],
                None => !self.meshes_v().contains_key(*position),
            },
    {
        self.chunk_meshes.get(position)
    }

    /// The positions of all cached meshes, each once.
    pub fn get_all_meshes(&self) -> (r: Vec<ChunkPos>)
        requires
            self.wf(),
        ensures
            r@.no_duplicates(),
            forall|i: int| 0 <= i < r@.len() ==> self.meshes_v().contains_key(#[trigger] r@[i]),
            forall|p: ChunkPos| #[trigger] self.meshes_v().contains_key(p) ==> r@.contains(p),
    {
        self.chunk_meshes.keys()
    }

    /// Drops the cached meshes that the cache does not keep (see `keeps_mesh`).
    fn evict(&mut self, world: &ServerWorld, cx: i64, cz: i64, view_distance: usize)
        requires
            old(self).wf(),
            world.wf(),
            i32::MIN <= cx <= i32::MAX + 1,
            i32::MIN <= cz <= i32::MAX + 1,
        ensures
            final(self).wf(),
            forall|q: ChunkPos| #[trigger]
                final(self).meshes_v().contains_key(q) <==> old(self).meshes_v().contains_key(q)
                    && keeps_mesh(world.chunks_v(), q, cx as int, cz as int, view_distance as int),
            forall|q: ChunkPos| #[trigger]
                final(self).meshes_v().contains_key(q) ==> final(self).meshes_v()[q] == old(
                    self).meshes_v()[q],
    {
        let ghost old_map = self.meshes_v();
        let keys = self.chunk_meshes.keys();
        let mut i: usize = 0;
        while i < keys.len()
            invariant
                self.wf(),
                world.wf(),
                old_map == old(self).meshes_v(),
                i32::MIN <= cx <= i32::MAX + 1,
                i32::MIN <= cz <= i32::MAX + 1,
                i <= keys@.len(),
                forall|k: int| 0 <= k < keys@.len() ==> old_map.contains_key(#[trigger] keys@[k]),
                forall|p: ChunkPos| #[trigger] old_map.contains_key(p) ==> keys@.contains(p),
                forall|q: ChunkPos| #[trigger]
                    self.meshes_v().contains_key(q) <==> old_map.contains_key(q) && (keeps_mesh(
                        world.chunks_v(),
                        q,
                        cx as int,
                        cz as int,
                        view_distance as int,
                    ) || !keys@.subrange(0, i as int).contains(q)),
                forall|q: ChunkPos| #[trigger]
                    self.meshes_v().contains_key(q) ==> self.meshes_v()[q] == old_map[q],
            decreases keys@.len() - i,
        {
            let p = keys[i];
            let clean = match world.get_chunk(&p) {
                Some(chunk) => !chunk.is_dirty(),
                None => false,
            };
            let ghost before = self.meshes_v();
            let near = within(p.x as i64 - cx, p.z as i64 - cz, view_distance);
            assert(clean == (world.chunks_v().contains_key(p) && !world.chunks_v()[p].dirty()));
            assert(near == in_view(p, cx as int, cz as int, view_distance as int));
            if !clean && !near {
                let _ = self.chunk_meshes.remove(&p);
                assert forall|q: ChunkPos| #[trigger]
                    self.meshes_v().contains_key(q) implies self.meshes_v()[q] == old_map[q] by {
                    assert(before.contains_key(q));
                }
            }
            let ghost prefix = keys@.subrange(0, i as int);
            let ghost longer = keys@.subrange(0, i + 1);
            assert forall|q: ChunkPos| #[trigger]
                self.meshes_v().contains_key(q) <==> old_map.contains_key(q) && (keeps_mesh(
                    world.chunks_v(),
                    q,
                    cx as int,
                    cz as int,
                    view_distance as int,
                ) || !longer.contains(q)) by {
                if longer.contains(q) && q != p {
                    let k = choose|k: int| 0 <= k < i + 1 && longer[k] == q;
                    assert(prefix[k] == q);
                }
                if prefix.contains(q) {
                    let k = choose|k: int| 0 <= k < i && prefix[k] == q;
                    assert(longer[k] == q);
                }
                if q == p {
                    assert(longer[i as int] == q);
                }
            }
            i = i + 1;
        }
        assert(keys@.subrange(0, keys@.len() as int) == keys@);
    }

    /// The first loaded chunk, in the world's order, that is dirty and in view.
    fn first_dirty_in_view(world: &ServerWorld, cx: i64, cz: i64, view_distance: usize) -> (r: Option<ChunkPos>)
        requires
            world.wf(),
            i32::MIN <= cx <= i32::MAX + 1,
            i32::MIN <= cz <= i32::MAX + 1,
        ensures
            match r {
                Some(p) => world.chunks_v().contains_key(p) && world.chunks_v()[p].dirty() && in_view(
                    p, cx as int, cz as int, view_distance as int),
                None => forall|p: ChunkPos| #[trigger]
                    world.chunks_v().contains_key(p) && in_view(p, cx as int, cz as int, view_distance as int)
                        ==> !world.chunks_v()[p].dirty(),
            },
    {
        let positions = world.get_all_chunks();
        let mut i: usize = 0;
        while i < positions.len()
            invariant
                world.wf(),
                i32::MIN <= cx <= i32::MAX + 1,
                i32::MIN <= cz <= i32::MAX + 1,
                i <= positions@.len(),
                forall|k: int| 0 <= k < positions@.len() ==> world.chunks_v().contains_key(#[trigger] positions@[k]),
                forall|p: ChunkPos| #[trigger] world.chunks_v().contains_key(p) ==> positions@.contains(p),
                forall|k: int| 0 <= k < i ==> !(world.chunks_v()[#[trigger] positions@[k]].dirty() && in_view(
                    positions@[k], cx as int, cz as int, view_distance as int)),
            decreases positions@.len() - i,
        {
            let p = positions[i];
            match world.get_chunk(&p) {
                Some(chunk) => {
                    if chunk.is_dirty() && within(p.x as i64 - cx, p.z as i64 - cz, view_distance) {
                        return Some(p);
                    }
                },
                None => {},
            }
            i = i + 1;
        }
        None
    }

    /// Rebuilds the mesh of the loaded chunk `p` from the world's current blocks and marks the
    /// chunk clean.
    fn rebuild(&mut self, block_registry: &BlockRegistry, world: &mut ServerWorld, p: ChunkPos)
        requires
            old(self).wf(),
            old(world).wf(),
            block_registry.wf(),
            old(world).chunks_v().contains_key(p),
        ensures
            final(self).wf(),
            final(world).wf(),
            final(world).seed_v() == old(world).seed_v(),
            final(world).chunks_v().dom() == old(world).chunks_v().dom(),
            forall|q: ChunkPos| #[trigger]
                final(world).chunks_v().contains_key(q) ==> final(world).chunks_v()[q].cells()
                    == old(world).chunks_v()[q].cells() && (final(world).chunks_v()[q].dirty() <==> (
                old(world).chunks_v()[q].dirty() && q != p)),
            final(self).meshes_v().dom() == old(self).meshes_v().dom().insert(p),
            forall|q: ChunkPos| #[trigger]
                final(self).meshes_v().contains_key(q) && q != p ==> final(self).meshes_v()[q] == old(
                    self).meshes_v()[q],
            final(self).meshes_v()[p].vertices_v() == chunk_mesh(
                *block_registry,
                old(world).chunks_v()[p],
                world_neighbours(old(world).chunks_v(), p),
            ),
    {
        let ghost w = world.chunks_v();
        let mut chunk_data = ChunkData::create();
        match world.get_chunk(&p) {
            Some(chunk) => {
                let left = if p.x > i32::MIN { world.get_chunk(&ChunkPos::new(p.x - 1, p.z)) } else { None };
                let right = if p.x < i32::MAX { world.get_chunk(&ChunkPos::new(p.x + 1, p.z)) } else { None };
                let back = if p.z > i32::MIN { world.get_chunk(&ChunkPos::new(p.x, p.z - 1)) } else { None };
                let front = if p.z < i32::MAX { world.get_chunk(&ChunkPos::new(p.x, p.z + 1)) } else { None };
                let next = NextChunks::create(left, right, back, front);
                assert(next@ == world_neighbours(w, p));
                chunk_data.build(block_registry, chunk, &next);
            },
            None => {},
        }
        self.chunk_meshes.insert(p, chunk_data);
        assert(self.meshes_v().dom() =~= old(self).meshes_v().dom().insert(p));
        world.mark_chunk_clean(&p);
    }

    /// Brings the cache up to date for a view: drops the meshes that it does not keep (see
    /// `keeps_mesh`), then rebuilds the mesh of at most one loaded chunk that is dirty and within
    /// `view_distance` chunks of the view, the first in the world's order, and marks that chunk
    /// clean. Returns the chunk rebuilt, if any.
    pub fn update(
        &mut self,
        block_registry: &BlockRegistry,
        view_position: &Coord,
        view_distance: usize,
        world: &mut ServerWorld,
    ) -> (rebuilt: Option<ChunkPos>)
        requires
            old(self).wf(),
            old(world).wf(),
            block_registry.wf(),
            view_position.wf(),
        ensures
            final(self).wf(),
            final(world).wf(),
            final(world).seed_v() == old(world).seed_v(),
            final(world).chunks_v().dom() == old(world).chunks_v().dom(),
            ({
                let w = old(world).chunks_v();
                let cx = view_center_x(*view_position);
                let cz = view_center_z(*view_position);
                &&& forall|q: ChunkPos| #[trigger]
                    final(self).meshes_v().contains_key(q) <==> (old(self).meshes_v().contains_key(q)
                        && keeps_mesh(w, q, cx, cz, view_distance as int)) || rebuilt == Some(q)
                &&& forall|q: ChunkPos| #[trigger]
                    final(self).meshes_v().contains_key(q) && rebuilt != Some(q) ==> final(
                        self).meshes_v()[q] == old(self).meshes_v()[q]
                &&& forall|q: ChunkPos| #[trigger]
                    final(world).chunks_v().contains_key(q) ==> final(world).chunks_v()[q].cells()
                        == w[q].cells() && (final(world).chunks_v()[q].dirty() <==> (w[q].dirty()
                        && rebuilt != Some(q)))
                &&& match rebuilt {
                    Some(p) => {
                        &&& w.contains_key(p)
                        &&& w[p].dirty()
                        &&& in_view(p, cx, cz, view_distance as int)
                        &&& final(self).meshes_v()[p].vertices_v() == chunk_mesh(
                            *block_registry,
                            w[p],
                            world_neighbours(w, p),
                        )
                    },
                    None => forall|p: ChunkPos| #[trigger]
                        w.contains_key(p) && in_view(p, cx, cz, view_distance as int) ==> !w[p].dirty(),
                }
            }),
    {
        let half: i64 = 524288;
        let cx = view_position.get_chunk_x() as i64 + if view_position.get_local_x() >= half { 1i64 } else { 0i64 };
        let cz = view_position.get_chunk_z() as i64 + if view_position.get_local_z() >= half { 1i64 } else { 0i64 };
        self.evict(world, cx, cz, view_distance);
        match Self::first_dirty_in_view(world, cx, cz, view_distance) {
            Some(p) => {
                self.rebuild(block_registry, world, p);
                Some(p)
            },
            None => {
                assert(world.chunks_v() == old(world).chunks_v());
                None
            },
        }
    }
}

} // verus!
