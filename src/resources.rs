use vstd::prelude::*;

verus! {

/// Number of cells per row of the terrain texture atlas.
pub const NUM_ITEMS_X: usize = 16;

/// Number of rows of the terrain texture atlas.
pub const NUM_ITEMS_Y: usize = 16;

/// Layout of the terrain texture atlas: a grid of equally sized cells.
pub struct TerrainAtlas;

impl TerrainAtlas {
    /// The (column, row) of atlas cell `item_id`, filling rows left to right.
    pub fn get_uv(item_id: usize) -> (r: (usize, usize))
        ensures
            r.0 == item_id % 16,
            r.1 == item_id / 16,
    {
        (item_id % NUM_ITEMS_X, item_id / NUM_ITEMS_X)
    }
}

/// A side of a cube.
#[derive(Clone, Copy, Debug, PartialEq, Eq, Structural)]
pub enum Face {
    Left,
    Right,
    Bottom,
    Top,
    Back,
    Front,
}

/// The tag that identifies a face in packed vertices.
pub open spec fn face_id(face: Face) -> u32 {
    match face {
        Face::Left => 0,
        Face::Right => 1,
        Face::Bottom => 2,
        Face::Top => 3,
        Face::Back => 4,
        Face::Front => 5,
    }
}

impl Face {
    pub fn id(&self) -> (r: u32)
        ensures
            r == face_id(*self),
    {
        match self {
            Face::Left => 0,
            Face::Right => 1,
            Face::Bottom => 2,
            Face::Top => 3,
            Face::Back => 4,
            Face::Front => 5,
        }
    }
}

/// The atlas cells that texture each face of a block type.
#[derive(Clone, Copy, Debug, PartialEq, Eq, Structural)]
pub struct Block {
    left_texture: usize,
    right_texture: usize,
    bottom_texture: usize,
    top_texture: usize,
    back_texture: usize,
    front_texture: usize,
}

impl Block {
    /// The atlas cell of a face.
    pub closed spec fn texture_of(self, face: Face) -> usize {
        match face {
            Face::Left => self.left_texture,
            Face::Right => self.right_texture,
            Face::Bottom => self.bottom_texture,
            Face::Top => self.top_texture,
            Face::Back => self.back_texture,
            Face::Front => self.front_texture,
        }
    }

    /// The same texture on every face.
    pub fn all(texture: usize) -> (r: Self)
        ensures
            r == Block::all_spec(texture),
            forall|f: Face| #[trigger] r.texture_of(f) == texture,
    {
        Self {
            left_texture: texture,
            right_texture: texture,
            bottom_texture: texture,
            top_texture: texture,
            back_texture: texture,
            front_texture: texture,
        }
    }

    /// One texture on the four sides, others on the top and the bottom.
    pub fn side(side_texture: usize, top_texture: usize, bottom_texture: usize) -> (r: Self)
        ensures
            r.texture_of(Face::Top) == top_texture,
            r.texture_of(Face::Bottom) == bottom_texture,
            r.texture_of(Face::Left) == side_texture,
            r.texture_of(Face::Right) == side_texture,
            r.texture_of(Face::Back) == side_texture,
            r.texture_of(Face::Front) == side_texture,
    {
        Self {
            left_texture: side_texture,
            right_texture: side_texture,
            top_texture,
            bottom_texture,
            back_texture: side_texture,
            front_texture: side_texture,
        }
    }

    /// The atlas cell of a face.
    pub fn texture(&self, face: Face) -> (r: usize)
        ensures
            r == self.texture_of(face),
    {
        match face {
            Face::Left => self.left_texture,
            Face::Right => self.right_texture,
            Face::Bottom => self.bottom_texture,
            Face::Top => self.top_texture,
            Face::Back => self.back_texture,
            Face::Front => self.front_texture,
        }
    }

    pub fn left_texture(&self) -> (r: usize)
        ensures
            r == self.texture_of(Face::Left),
    {
        self.left_texture
    }

    pub fn right_texture(&self) -> (r: usize)
        ensures
            r == self.texture_of(Face::Right),
    {
        self.right_texture
    }

    pub fn bottom_texture(&self) -> (r: usize)
        ensures
            r == self.texture_of(Face::Bottom),
    {
        self.bottom_texture
    }

    pub fn top_texture(&self) -> (r: usize)
        ensures
            r == self.texture_of(Face::Top),
    {
        self.top_texture
    }

    pub fn back_texture(&self) -> (r: usize)
        ensures
            r == self.texture_of(Face::Back),
    {
        self.back_texture
    }

    pub fn front_texture(&self) -> (r: usize)
        ensures
            r == self.texture_of(Face::Front),
    {
        self.front_texture
    }
}

/// The visuals of each block type, indexed by block id; entry 0 is the fallback.
pub struct BlockRegistry {
    blocks: Vec<Block>,
}

impl BlockRegistry {
    pub closed spec fn entries(&self) -> Seq<Block> {
        self.blocks@
    }

    pub open spec fn wf(&self) -> bool {
        self.entries().len() >= 1
    }

    /// The visuals used for block id `id`: its entry, or entry 0 for an unknown id.
    pub open spec fn entry(&self, id: int) -> Block {
        if 0 <= id < self.entries().len() {
            self.entries()[id]
        } else {
            self.entries()[0]
        }
    }

    /// A registry holding only the fallback entry, textured with atlas cell 0.
    pub fn create() -> (r: Self)
        ensures
            r.wf(),
            r.entries() == seq![Block::all_spec(0)],
    {
        let mut blocks: Vec<Block> = Vec::new();
        blocks.push(Block::all(0));
        let r = Self { blocks };
        assert(r.entries() =~= seq![Block::all_spec(0)]);
        r
    }

    /// Adds the visuals of the next block id.
    pub fn register(&mut self, block: Block)
        requires
            old(self).wf(),
        ensures
            final(self).wf(),
            final(self).entries() == old(self).entries().push(block),
    {
        self.blocks.push(block);
    }

    /// The visuals of block id `id`; unknown ids fall back to entry 0.
    pub fn get(&self, id: usize) -> (r: &Block)
        requires
            self.wf(),
        ensures
            *r == self.entry(id as int),
    {
        if id < self.blocks.len() {
            &self.blocks[id]
        } else {
            &self.blocks[0]
        }
    }
}

impl Block {
    /// The block with every face textured by `texture`.
    pub closed spec fn all_spec(texture: usize) -> Block {
        Block {
            left_texture: texture,
            right_texture: texture,
            bottom_texture: texture,
            top_texture: texture,
            back_texture: texture,
            front_texture: texture,
        }
    }
}

} // verus!
