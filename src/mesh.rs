use vstd::prelude::*;
use crate::chunk::{Chunk, HEIGHT, LENGTH, WIDTH};
use crate::coords::LocalBlockPos;
use crate::resources::{Block, BlockRegistry, Face, TerrainAtlas, face_id};

verus! {

/// A vertex packed into 32 bits: x in bits 0-4, y in bits 5-13, z in bits 14-18, the
/// atlas column in bits 19-23, the atlas row in bits 24-28 and the face tag in bits 29-31.
pub open spec fn pack(x: usize, y: usize, z: usize, u: usize, v: usize, face: Face) -> u32 {
    ((x & 0x1F) as u32) | (((y & 0x1FF) as u32) << 5u32) | (((z & 0x1F) as u32) << 14u32) | (((u
        & 0x1F) as u32) << 19u32) | (((v & 0x1F) as u32) << 24u32) | ((face_id(face) & 0x7)
        << 29u32)
}

/// One packed mesh vertex.
pub struct Vertex {
    pub data: u32,
}

impl Vertex {
    pub fn create(position: &LocalBlockPos, uv: (usize, usize), face: Face) -> (r: Self)
        ensures
            r.data == pack(position.x, position.y, position.z, uv.0, uv.1, face),
    {
        Self {
            data: ((position.x & 0x1F) as u32) | (((position.y & 0x1FF) as u32) << 5u32) | (((
            position.z & 0x1F) as u32) << 14u32) | (((uv.0 & 0x1F) as u32) << 19u32) | (((uv.1
                & 0x1F) as u32) << 24u32) | ((face.id() & 0x7) << 29u32),
        }
    }
}

/// The six packed vertices (two triangles, counter-clockwise seen from outside) of `face` of
/// the block at (x, y, z), textured with atlas cell `texture`.
#[verifier::opaque]
pub open spec fn face_vertices(face: Face, x: usize, y: usize, z: usize, texture: usize) -> Seq<u32> {
    let u0 = texture % 16;
    let v0 = texture / 16;
    let u1 = (u0 + 1) as usize;
    let v1 = (v0 + 1) as usize;
    let x1 = (x + 1) as usize;
    let y1 = (y + 1) as usize;
    let z1 = (z + 1) as usize;
    match face {
        Face::Left => seq![
            pack(x, y, z, u0, v0, face), pack(x, y, z1, u1, v0, face), pack(x, y1, z, u0, v1, face),
            pack(x, y1, z1, u1, v1, face), pack(x, y1, z, u0, v1, face), pack(x, y, z1, u1, v0, face),
        ],
        Face::Right => seq![
            pack(x1, y, z1, u0, v0, face), pack(x1, y, z, u1, v0, face), pack(x1, y1, z1, u0, v1, face),
            pack(x1, y1, z, u1, v1, face), pack(x1, y1, z1, u0, v1, face), pack(x1, y, z, u1, v0, face),
        ],
        Face::Bottom => seq![
            pack(x, y, z, u0, v0, face), pack(x1, y, z, u1, v0, face), pack(x, y, z1, u0, v1, face),
            pack(x1, y, z1, u1, v1, face), pack(x, y, z1, u0, v1, face), pack(x1, y, z, u1, v0, face),
        ],
        Face::Top => seq![
            pack(x, y1, z1, u0, v0, face), pack(x1, y1, z1, u1, v0, face), pack(x, y1, z, u0, v1, face),
            pack(x1, y1, z, u1, v1, face), pack(x, y1, z, u0, v1, face), pack(x1, y1, z1, u1, v0, face),
        ],
        Face::Back => seq![
            pack(x1, y, z, u1, v0, face), pack(x, y, z, u0, v0, face), pack(x1, y1, z, u1, v1, face),
            pack(x, y1, z, u0, v1, face), pack(x1, y1, z, u1, v1, face), pack(x, y, z, u0, v0, face),
        ],
        Face::Front => seq![
            pack(x, y, z1, u0, v0, face), pack(x1, y, z1, u1, v0, face), pack(x, y1, z1, u0, v1, face),
            pack(x1, y1, z1, u1, v1, face), pack(x, y1, z1, u0, v1, face), pack(x1, y, z1, u1, v0, face),
        ],
    }
}

/// The four horizontal neighbours of a chunk being meshed; a missing one counts as empty.
pub struct NextChunks<'a> {
    pub left: Option<&'a Chunk>,
    pub right: Option<&'a Chunk>,
    pub back: Option<&'a Chunk>,
    pub front: Option<&'a Chunk>,
}

/// The contents of the four horizontal neighbours of a chunk, `None` where not loaded.
pub struct NextView {
    pub left: Option<Chunk>,
    pub right: Option<Chunk>,
    pub back: Option<Chunk>,
    pub front: Option<Chunk>,
}

/// The chunk behind an optional reference.
pub open spec fn deref_option(c: Option<&Chunk>) -> Option<Chunk> {
    match c {
        Some(c) => Some(*c),
        None => None,
    }
}

/// Whether an optional neighbour is empty at (x, y, z).
pub open spec fn neighbour_empty_at(next: Option<Chunk>, x: int, y: int, z: int) -> bool {
    match next {
        None => true,
        Some(c) => c.cell(x, y, z) == 0,
    }
}

impl<'a> NextChunks<'a> {
    pub fn create(
        left: Option<&'a Chunk>,
        right: Option<&'a Chunk>,
        back: Option<&'a Chunk>,
        front: Option<&'a Chunk>,
    ) -> (r: Self)
        ensures
            r.left == left,
            r.right == right,
            r.back == back,
            r.front == front,
    {
        Self { left, right, back, front }
    }

    pub open spec fn view(&self) -> NextView {
        NextView {
            left: deref_option(self.left),
            right: deref_option(self.right),
            back: deref_option(self.back),
            front: deref_option(self.front),
        }
    }

    pub open spec fn wf(&self) -> bool {
        &&& (self.left matches Some(c) ==> c.wf())
        &&& (self.right matches Some(c) ==> c.wf())
        &&& (self.back matches Some(c) ==> c.wf())
        &&& (self.front matches Some(c) ==> c.wf())
    }
}

/// Whether the cell across `face` of block (x, y, z) is empty. Horizontal faces on the
/// chunk's edge look into the neighbour; vertical ones never leave the chunk.
pub open spec fn face_visible(chunk: Chunk, next: NextView, face: Face, x: int, y: int, z: int) -> bool {
    match face {
        Face::Left => if x == 0 {
            neighbour_empty_at(next.left, 15, y, z)
        } else {
            chunk.cell(x - 1, y, z) == 0
        },
        Face::Right => if x >= 15 {
            neighbour_empty_at(next.right, 0, y, z)
        } else {
            chunk.cell(x + 1, y, z) == 0
        },
        Face::Bottom => y == 0 || chunk.cell(x, y - 1, z) == 0,
        Face::Top => y >= 255 || chunk.cell(x, y + 1, z) == 0,
        Face::Back => if z == 0 {
            neighbour_empty_at(next.back, x, y, 15)
        } else {
            chunk.cell(x, y, z - 1) == 0
        },
        Face::Front => if z >= 15 {
            neighbour_empty_at(next.front, x, y, 0)
        } else {
            chunk.cell(x, y, z + 1) == 0
        },
    }
}

/// The vertices of one face of a block: six if the face is visible, none otherwise.
pub open spec fn face_part(
    chunk: Chunk,
    next: NextView,
    block: Block,
    face: Face,
    x: usize,
    y: usize,
    z: usize,
) -> Seq<u32> {
    if face_visible(chunk, next, face, x as int, y as int, z as int) {
        face_vertices(face, x, y, z, block.texture_of(face))
    } else {
        Seq::empty()
    }
}

/// The vertices that the block at (x, y, z) contributes: nothing for air, else its visible
/// faces in the order left, right, bottom, top, back, front.
pub open spec fn block_faces(
    registry: BlockRegistry,
    chunk: Chunk,
    next: NextView,
    x: usize,
    y: usize,
    z: usize,
) -> Seq<u32> {
    let id = chunk.cell(x as int, y as int, z as int);
    if id == 0 {
        Seq::empty()
    } else {
        let block = registry.entry(id as int);
        face_part(chunk, next, block, Face::Left, x, y, z) + face_part(
            chunk,
            next,
            block,
            Face::Right,
            x,
            y,
            z,
        ) + face_part(chunk, next, block, Face::Bottom, x, y, z) + face_part(
            chunk,
            next,
            block,
            Face::Top,
            x,
            y,
            z,
        ) + face_part(chunk, next, block, Face::Back, x, y, z) + face_part(
            chunk,
            next,
            block,
            Face::Front,
            x,
            y,
            z,
        )
    }
}

/// The mesh of the first `n` blocks of a chunk, visiting x, then y, then z, slowest first.
pub open spec fn mesh_upto(registry: BlockRegistry, chunk: Chunk, next: NextView, n: nat) -> Seq<u32>
    decreases n,
{
    if n == 0 {
        Seq::empty()
    } else {
        let k = (n - 1) as int;
        mesh_upto(registry, chunk, next, (n - 1) as nat) + block_faces(
            registry,
            chunk,
            next,
            (k / 4096) as usize,
            ((k / 16) % 256) as usize,
            (k % 16) as usize,
        )
    }
}

/// The mesh of a whole chunk.
pub open spec fn chunk_mesh(registry: BlockRegistry, chunk: Chunk, next: NextView) -> Seq<u32> {
    mesh_upto(registry, chunk, next, 65536)
}

/// The vertex buffer of a chunk mesh.
pub struct ChunkData {
    vertices: Vec<u32>,
}

impl ChunkData {
    pub closed spec fn vertices_v(&self) -> Seq<u32> {
        self.vertices@
    }

    pub fn create() -> (r: Self)
        ensures
            r.vertices_v() == Seq::<u32>::empty(),
    {
        Self { vertices: Vec::new() }
    }

    /// The packed vertices, three per triangle.
    pub fn vertices(&self) -> (r: &Vec<u32>)
        ensures
            r@ == self.vertices_v(),
    {
        &self.vertices
    }

    fn put_vertex(&mut self, vertex: Vertex)
        ensures
            final(self).vertices_v() == old(self).vertices_v().push(vertex.data),
    {
        self.vertices.push(vertex.data);
    }

    /// Appends the six vertices of `face` of the block at (x, y, z).
    fn put_face(&mut self, face: Face, x: usize, y: usize, z: usize, texture: usize)
        requires
            x < 16,
            y < 256,
            z < 16,
        ensures
            final(self).vertices_v() == old(self).vertices_v() + face_vertices(face, x, y, z, texture),
    {
        let (u0, v0) = TerrainAtlas::get_uv(texture);
        let (u1, v1) = (u0 + 1, v0 + 1);
        let (x1, y1, z1) = (x + 1, y + 1, z + 1);
        let ghost start = self.vertices@;
        proof {
            reveal(face_vertices);
        }
        match face {
            Face::Left => {
                self.put_vertex(Vertex::create(&LocalBlockPos::new(x, y, z), (u0, v0), face));
                self.put_vertex(Vertex::create(&LocalBlockPos::new(x, y, z1), (u1, v0), face));
                self.put_vertex(Vertex::create(&LocalBlockPos::new(x, y1, z), (u0, v1), face));
                self.put_vertex(Vertex::create(&LocalBlockPos::new(x, y1, z1), (u1, v1), face));
                self.put_vertex(Vertex::create(&LocalBlockPos::new(x, y1, z), (u0, v1), face));
                self.put_vertex(Vertex::create(&LocalBlockPos::new(x, y, z1), (u1, v0), face));
            },
            Face::Right => {
                self.put_vertex(Vertex::create(&LocalBlockPos::new(x1, y, z1), (u0, v0), face));
                self.put_vertex(Vertex::create(&LocalBlockPos::new(x1, y, z), (u1, v0), face));
                self.put_vertex(Vertex::create(&LocalBlockPos::new(x1, y1, z1), (u0, v1), face));
                self.put_vertex(Vertex::create(&LocalBlockPos::new(x1, y1, z), (u1, v1), face));
                self.put_vertex(Vertex::create(&LocalBlockPos::new(x1, y1, z1), (u0, v1), face));
                self.put_vertex(Vertex::create(&LocalBlockPos::new(x1, y, z), (u1, v0), face));
            },
            Face::Bottom => {
                self.put_vertex(Vertex::create(&LocalBlockPos::new(x, y, z), (u0, v0), face));
                self.put_vertex(Vertex::create(&LocalBlockPos::new(x1, y, z), (u1, v0), face));
                self.put_vertex(Vertex::create(&LocalBlockPos::new(x, y, z1), (u0, v1), face));
                self.put_vertex(Vertex::create(&LocalBlockPos::new(x1, y, z1), (u1, v1), face));
                self.put_vertex(Vertex::create(&LocalBlockPos::new(x, y, z1), (u0, v1), face));
                self.put_vertex(Vertex::create(&LocalBlockPos::new(x1, y, z), (u1, v0), face));
            },
            Face::Top => {
                self.put_vertex(Vertex::create(&LocalBlockPos::new(x, y1, z1), (u0, v0), face));
                self.put_vertex(Vertex::create(&LocalBlockPos::new(x1, y1, z1), (u1, v0), face));
                self.put_vertex(Vertex::create(&LocalBlockPos::new(x, y1, z), (u0, v1), face));
                self.put_vertex(Vertex::create(&LocalBlockPos::new(x1, y1, z), (u1, v1), face));
                self.put_vertex(Vertex::create(&LocalBlockPos::new(x, y1, z), (u0, v1), face));
                self.put_vertex(Vertex::create(&LocalBlockPos::new(x1, y1, z1), (u1, v0), face));
            },
            Face::Back => {
                self.put_vertex(Vertex::create(&LocalBlockPos::new(x1, y, z), (u1, v0), face));
                self.put_vertex(Vertex::create(&LocalBlockPos::new(x, y, z), (u0, v0), face));
                self.put_vertex(Vertex::create(&LocalBlockPos::new(x1, y1, z), (u1, v1), face));
                self.put_vertex(Vertex::create(&LocalBlockPos::new(x, y1, z), (u0, v1), face));
                self.put_vertex(Vertex::create(&LocalBlockPos::new(x1, y1, z), (u1, v1), face));
                self.put_vertex(Vertex::create(&LocalBlockPos::new(x, y, z), (u0, v0), face));
            },
            Face::Front => {
                self.put_vertex(Vertex::create(&LocalBlockPos::new(x, y, z1), (u0, v0), face));
                self.put_vertex(Vertex::create(&LocalBlockPos::new(x1, y, z1), (u1, v0), face));
                self.put_vertex(Vertex::create(&LocalBlockPos::new(x, y1, z1), (u0, v1), face));
                self.put_vertex(Vertex::create(&LocalBlockPos::new(x1, y1, z1), (u1, v1), face));
                self.put_vertex(Vertex::create(&LocalBlockPos::new(x, y1, z1), (u0, v1), face));
                self.put_vertex(Vertex::create(&LocalBlockPos::new(x1, y, z1), (u1, v0), face));
            },
        }
        assert(self.vertices@ =~= start + face_vertices(face, x, y, z, texture));
    }

    /// Whether `face` of block (x, y, z) is visible.
    fn is_visible(chunk: &Chunk, next_chunks: &NextChunks, face: Face, x: usize, y: usize, z: usize) -> (r: bool)
        requires
            chunk.wf(),
            next_chunks.wf(),
            x < 16,
            y < 256,
            z < 16,
        ensures
            r == face_visible(*chunk, next_chunks@, face, x as int, y as int, z as int),
    {
        match face {
            Face::Left => if x == 0 {
                match next_chunks.left {
                    None => true,
                    Some(c) => c.get_block(&LocalBlockPos::new(WIDTH - 1, y, z)) == 0,
                }
            } else {
                chunk.get_block(&LocalBlockPos::new(x - 1, y, z)) == 0
            },
            Face::Right => if x >= WIDTH - 1 {
                match next_chunks.right {
                    None => true,
                    Some(c) => c.get_block(&LocalBlockPos::new(0, y, z)) == 0,
                }
            } else {
                chunk.get_block(&LocalBlockPos::new(x + 1, y, z)) == 0
            },
            Face::Bottom => y == 0 || chunk.get_block(&LocalBlockPos::new(x, y - 1, z)) == 0,
            Face::Top => y >= HEIGHT - 1 || chunk.get_block(&LocalBlockPos::new(x, y + 1, z)) == 0,
            Face::Back => if z == 0 {
                match next_chunks.back {
                    None => true,
                    Some(c) => c.get_block(&LocalBlockPos::new(x, y, LENGTH - 1)) == 0,
                }
            } else {
                chunk.get_block(&LocalBlockPos::new(x, y, z - 1)) == 0
            },
            Face::Front => if z >= LENGTH - 1 {
                match next_chunks.front {
                    None => true,
                    Some(c) => c.get_block(&LocalBlockPos::new(x, y, 0)) == 0,
                }
            } else {
                chunk.get_block(&LocalBlockPos::new(x, y, z + 1)) == 0
            },
        }
    }

    /// Appends `face` of block (x, y, z) if it is visible.
    fn put_face_if_visible(
        &mut self,
        chunk: &Chunk,
        next_chunks: &NextChunks,
        block: &Block,
        face: Face,
        x: usize,
        y: usize,
        z: usize,
    )
        requires
            chunk.wf(),
            next_chunks.wf(),
            x < 16,
            y < 256,
            z < 16,
        ensures
            final(self).vertices_v() == old(self).vertices_v() + face_part(
                *chunk,
                next_chunks@,
                *block,
                face,
                x,
                y,
                z,
            ),
    {
        if Self::is_visible(chunk, next_chunks, face, x, y, z) {
            self.put_face(face, x, y, z, block.texture(face));
        } else {
            assert(old(self).vertices_v() + Seq::<u32>::empty() =~= old(self).vertices_v());
        }
    }

    /// Appends the visible faces of block (x, y, z).
    fn put_block(
        &mut self,
        block_registry: &BlockRegistry,
        chunk: &Chunk,
        next_chunks: &NextChunks,
        x: usize,
        y: usize,
        z: usize,
    )
        requires
            block_registry.wf(),
            chunk.wf(),
            next_chunks.wf(),
            x < 16,
            y < 256,
            z < 16,
        ensures
            final(self).vertices_v() == old(self).vertices_v() + block_faces(
                *block_registry,
                *chunk,
                next_chunks@,
                x,
                y,
                z,
            ),
    {
        let id = chunk.get_block(&LocalBlockPos::new(x, y, z));
        if id == 0 {
            assert(old(self).vertices_v() + Seq::<u32>::empty() =~= old(self).vertices_v());
            return;
        }
        let block = block_registry.get(id as usize);
        let ghost next = next_chunks@;
        let ghost parts = seq![
            face_part(*chunk, next, *block, Face::Left, x, y, z),
            face_part(*chunk, next, *block, Face::Right, x, y, z),
            face_part(*chunk, next, *block, Face::Bottom, x, y, z),
            face_part(*chunk, next, *block, Face::Top, x, y, z),
            face_part(*chunk, next, *block, Face::Back, x, y, z),
            face_part(*chunk, next, *block, Face::Front, x, y, z),
        ];
        self.put_face_if_visible(chunk, next_chunks, block, Face::Left, x, y, z);
        self.put_face_if_visible(chunk, next_chunks, block, Face::Right, x, y, z);
        self.put_face_if_visible(chunk, next_chunks, block, Face::Bottom, x, y, z);
        self.put_face_if_visible(chunk, next_chunks, block, Face::Top, x, y, z);
        self.put_face_if_visible(chunk, next_chunks, block, Face::Back, x, y, z);
        self.put_face_if_visible(chunk, next_chunks, block, Face::Front, x, y, z);
        assert(self.vertices_v() =~= old(self).vertices_v() + (parts[0] + parts[1] + parts[2]
            + parts[3] + parts[4] + parts[5]));
        assert(block_faces(*block_registry, *chunk, next, x, y, z) == parts[0] + parts[1] + parts[2]
            + parts[3] + parts[4] + parts[5]);
    }

    /// Rebuilds the mesh of `chunk`: one face for each side of a solid block whose neighbouring
    /// cell is empty, the horizontal neighbours consulted across the chunk's edges.
    pub fn build(&mut self, block_registry: &BlockRegistry, chunk: &Chunk, next_chunks: &NextChunks)
        requires
            block_registry.wf(),
            chunk.wf(),
            next_chunks.wf(),
        ensures
            final(self).vertices_v() == chunk_mesh(*block_registry, *chunk, next_chunks@),
    {
        self.vertices.clear();
        let mut x: usize = 0;
        while x < WIDTH
            invariant
                block_registry.wf(),
                chunk.wf(),
                next_chunks.wf(),
                x <= 16,
                self.vertices@ == mesh_upto(*block_registry, *chunk, next_chunks@, (x * 4096) as nat),
            decreases 16 - x,
        {
            let mut y: usize = 0;
            while y < HEIGHT
                invariant
                    block_registry.wf(),
                    chunk.wf(),
                    next_chunks.wf(),
                    x < 16,
                    y <= 256,
                    self.vertices@ == mesh_upto(*block_registry, *chunk, next_chunks@, (x * 4096 + y * 16) as nat),
                decreases 256 - y,
            {
                let mut z: usize = 0;
                while z < LENGTH
                    invariant
                        block_registry.wf(),
                        chunk.wf(),
                        next_chunks.wf(),
                        x < 16,
                        y < 256,
                        z <= 16,
                        self.vertices@ == mesh_upto(
                            *block_registry,
                            *chunk,
                            next_chunks@,
                            (x * 4096 + y * 16 + z) as nat,
                        ),
                    decreases 16 - z,
                {
                    let ghost k = x * 4096 + y * 16 + z;
                    assert(k / 4096 == x && (k / 16) % 256 == y && k % 16 == z) by (nonlinear_arith)
                        requires k == x * 4096 + y * 16 + z, x < 16, y < 256, z < 16;
                    self.put_block(block_registry, chunk, next_chunks, x, y, z);
                    z = z + 1;
                }
                y = y + 1;
            }
            x = x + 1;
        }
    }
}

/// 1 where the chunk is empty at (x, y, z), 0 where it is solid.
pub open spec fn empty_count(chunk: Chunk, x: int, y: int, z: int) -> int {
    if chunk.cell(x, y, z) == 0 {
        1
    } else {
        0
    }
}

/// A solid block away from the chunk's edges gets one face, six vertices, for each empty
/// cell among its six neighbours: six faces when isolated, five with one solid neighbour.
pub proof fn lemma_interior_block_faces(
    registry: BlockRegistry,
    chunk: Chunk,
    next: NextView,
    x: usize,
    y: usize,
    z: usize,
)
    requires
        0 < x < 15,
        0 < y < 255,
        0 < z < 15,
        chunk.cell(x as int, y as int, z as int) != 0,
    ensures
        block_faces(registry, chunk, next, x, y, z).len() == 6 * (empty_count(chunk, x - 1, y as int, z as int)
            + empty_count(chunk, x + 1, y as int, z as int) + empty_count(chunk, x as int, y - 1, z as int)
            + empty_count(chunk, x as int, y + 1, z as int) + empty_count(chunk, x as int, y as int, z - 1)
            + empty_count(chunk, x as int, y as int, z + 1)),
{
    reveal(face_vertices);
}

/// The mesh of a chunk whose only solid block is at (x, y, z) is that block's faces.
pub proof fn lemma_single_block_mesh(
    registry: BlockRegistry,
    chunk: Chunk,
    next: NextView,
    x: usize,
    y: usize,
    z: usize,
)
    requires
        x < 16,
        y < 256,
        z < 16,
        forall|a: int, b: int, c: int| #![trigger chunk.cell(a, b, c)]
            (a != x || b != y || c != z) ==> chunk.cell(a, b, c) == 0,
    ensures
        chunk_mesh(registry, chunk, next) == block_faces(registry, chunk, next, x, y, z),
{
    let target = x * 4096 + y * 16 + z;
    lemma_single_block_prefix(registry, chunk, next, x, y, z, 65536);
    assert(target < 65536);
}

/// A single solid block away from the chunk's edges, in an otherwise empty chunk, is meshed
/// as exactly six faces: 36 vertices.
pub proof fn lemma_isolated_block_mesh(
    registry: BlockRegistry,
    chunk: Chunk,
    next: NextView,
    x: usize,
    y: usize,
    z: usize,
)
    requires
        0 < x < 15,
        0 < y < 255,
        0 < z < 15,
        chunk.cell(x as int, y as int, z as int) != 0,
        forall|a: int, b: int, c: int| #![trigger chunk.cell(a, b, c)]
            (a != x || b != y || c != z) ==> chunk.cell(a, b, c) == 0,
    ensures
        chunk_mesh(registry, chunk, next).len() == 36,
{
    lemma_single_block_mesh(registry, chunk, next, x, y, z);
    lemma_interior_block_faces(registry, chunk, next, x, y, z);
    assert(chunk.cell(x - 1, y as int, z as int) == 0);
    assert(chunk.cell(x + 1, y as int, z as int) == 0);
    assert(chunk.cell(x as int, y - 1, z as int) == 0);
    assert(chunk.cell(x as int, y + 1, z as int) == 0);
    assert(chunk.cell(x as int, y as int, z - 1) == 0);
    assert(chunk.cell(x as int, y as int, z + 1) == 0);
}

proof fn lemma_single_block_prefix(
    registry: BlockRegistry,
    chunk: Chunk,
    next: NextView,
    x: usize,
    y: usize,
    z: usize,
    n: nat,
)
    requires
        x < 16,
        y < 256,
        z < 16,
        n <= 65536,
        forall|a: int, b: int, c: int| #![trigger chunk.cell(a, b, c)]
            (a != x || b != y || c != z) ==> chunk.cell(a, b, c) == 0,
    ensures
        mesh_upto(registry, chunk, next, n) == if x * 4096 + y * 16 + z < n {
            block_faces(registry, chunk, next, x, y, z)
        } else {
            Seq::empty()
        },
    decreases n,
{
    if n > 0 {
        let k = (n - 1) as int;
        lemma_single_block_prefix(registry, chunk, next, x, y, z, (n - 1) as nat);
        let a = k / 4096;
        let b = (k / 16) % 256;
        let c = k % 16;
        assert(k == a * 4096 + b * 16 + c && 0 <= a < 16 && 0 <= b < 256 && 0 <= c < 16)
            by (nonlinear_arith)
            requires 0 <= k < 65536, a == k / 4096, b == (k / 16) % 256, c == k % 16;
        if a == x && b == y && c == z {
            assert(Seq::<u32>::empty() + block_faces(registry, chunk, next, x, y, z) =~= block_faces(
                registry, chunk, next, x, y, z));
        } else {
            assert(chunk.cell(a, b, c) == 0);
            let prev = mesh_upto(registry, chunk, next, (n - 1) as nat);
            assert(prev + Seq::<u32>::empty() =~= prev);
            if x * 4096 + y * 16 + z == k {
                assert(a == x && b == y && c == z) by (nonlinear_arith)
                    requires k == x * 4096 + y * 16 + z, x < 16, y < 256, z < 16,
                        k == a * 4096 + b * 16 + c, 0 <= a < 16, 0 <= b < 256, 0 <= c < 16;
            }
        }
    }
}

} // verus!
