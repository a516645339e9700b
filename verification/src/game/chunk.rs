use vstd::prelude::*;
use crate::common::block::{BlockType, block_value};
use crate::common::pos::{ChunkPos, IBlockPos, CHUNK_VOLUME, fits_i32};
use crate::game::world::WorldData;
use crate::mesh::chunk_mesh::{ChunkMesh, client_border};
use crate::mesh::faces::{mesh_vertices, mesh_indices, FACE_SLOTS};
use crate::server::chunk_mesh::chunk_origin_fits;

verus! {

/// Block of the ground at absolute height `y`: stone below 200 and above 400, dirt in
/// between.
pub open spec fn ground_block(y: u16) -> u16 {
    if y < 200 || y > 400 {
        block_value(BlockType::STONE)
    } else {
        block_value(BlockType::DIRT)
    }
}

/// Height of the ground, in blocks above the bottom of the chunk at layer `cy`, for a
/// terrain sample `t`.
pub open spec fn local_max_height(t: i32, cy: i32) -> int {
    t * 100 + 400 - cy * 64
}

/// The block at height `y` of a column after generation: ground below the local
/// height, air above it, and the top block (63) left as it was when it is above the
/// ground.
pub open spec fn generated_block(prev: u16, y: int, lm: int, cy: i32) -> u16 {
    if y < lm {
        ground_block((y + cy * 64) as u16)
    } else if y < 63 {
        block_value(BlockType::AIR)
    } else {
        prev
    }
}

/// The blocks of a chunk generated from `old` with terrain samples `terrain`
/// (`terrain[x * 64 + z]` for column `(x, z)`).
pub open spec fn generated_blocks(prev: Seq<u16>, terrain: Seq<i32>, cy: i32) -> Seq<u16> {
    Seq::new(
        prev.len(),
        |i: int|
            generated_block(prev[i], (i / 64) % 64, local_max_height(terrain[(i / 4096) * 64 + i % 64], cy), cy),
    )
}

/// Terrain samples that keep the heights of the chunk at layer `cy` inside `i32`.
pub open spec fn terrain_fits(terrain: Seq<i32>, cy: i32) -> bool {
    &&& fits_i32(cy * 64)
    &&& forall|i: int|
        0 <= i < terrain.len() ==> fits_i32(#[trigger] terrain[i] * 100) && fits_i32(terrain[i] * 100 + 400)
            && fits_i32(local_max_height(terrain[i], cy))
}

/// A freshly generated chunk holds only air, stone and dirt, and the ground is
/// solid: below the local height no block is air.
pub proof fn lemma_generated_kinds(terrain: Seq<i32>, cy: i32)
    requires
        terrain.len() == 4096,
    ensures
        ({
            let g = generated_blocks(Seq::new(CHUNK_VOLUME as nat, |i: int| block_value(BlockType::AIR)), terrain, cy);
            &&& g.len() == CHUNK_VOLUME
            &&& forall|i: int|
                0 <= i < CHUNK_VOLUME ==> #[trigger] g[i] == block_value(BlockType::AIR) || g[i] == block_value(
                    BlockType::STONE,
                ) || g[i] == block_value(BlockType::DIRT)
            &&& forall|i: int|
                0 <= i < CHUNK_VOLUME && (i / 64) % 64 < local_max_height(terrain[(i / 4096) * 64 + i % 64], cy)
                    ==> #[trigger] g[i] != block_value(BlockType::AIR)
        }),
{
}

/// A chunk of the client world: its blocks, indexed by `x * 4096 + y * 64 + z`.
#[derive(Clone)]
pub struct Chunk {
    blocks: Vec<u16>,
    chunk_pos: ChunkPos,
}

impl Chunk {
    pub closed spec fn blocks(&self) -> Seq<u16> {
        self.blocks@
    }

    pub closed spec fn pos(&self) -> ChunkPos {
        self.chunk_pos
    }

    pub open spec fn wf(&self) -> bool {
        self.blocks().len() == CHUNK_VOLUME
    }

    pub open spec fn block_at(&self, p: IBlockPos) -> u16 {
        if p.in_chunk() {
            self.blocks()[p.index()]
        } else {
            0
        }
    }

    /// A chunk of air at `chunk_pos`, generated from the terrain samples of its
    /// columns.
    pub fn new(chunk_pos: ChunkPos, terrain: &Vec<i32>) -> (c: Chunk)
        requires
            terrain@.len() == 4096,
            terrain_fits(terrain@, chunk_pos.y),
        ensures
            c.wf(),
            c.pos() == chunk_pos,
            c.blocks() == generated_blocks(
                Seq::new(CHUNK_VOLUME as nat, |i: int| block_value(BlockType::AIR)),
                terrain@,
                chunk_pos.y,
            ),
    {
        let mut blocks: Vec<u16> = Vec::new();
        let air = BlockType::AIR.get_value();
        let mut i: usize = 0;
        while i < CHUNK_VOLUME
            invariant
                i <= CHUNK_VOLUME,
                air == block_value(BlockType::AIR),
                blocks@ == Seq::new(i as nat, |j: int| block_value(BlockType::AIR)),
            decreases CHUNK_VOLUME - i,
        {
            blocks.push(air);
            i = i + 1;
            assert(blocks@ =~= Seq::new(i as nat, |j: int| block_value(BlockType::AIR)));
        }
        let mut chunk = Chunk { blocks, chunk_pos };
        chunk.generate_chunk(terrain);
        chunk
    }

    /// Fills column `(x, z)` whose local ground height is `lm`.
    fn generate_column(&mut self, x: usize, z: usize, lm: i32)
        requires
            old(self).wf(),
            x < 64,
            z < 64,
            fits_i32(old(self).pos().y * 64),
            fits_i32(lm + old(self).pos().y * 64),
        ensures
            final(self).wf(),
            final(self).pos() == old(self).pos(),
            forall|i: int|
                0 <= i < CHUNK_VOLUME ==> #[trigger] final(self).blocks()[i] == if i / 4096 == x && i % 64 == z {
                    generated_block(old(self).blocks()[i], (i / 64) % 64, lm as int, old(self).pos().y)
                } else {
                    old(self).blocks()[i]
                },
    {
        let cy = self.chunk_pos.y;
        let base = x * 4096 + z;
        let mut y: i32 = 0;
        while y < lm && y < 64
            invariant
                self.wf(),
                self.pos() == old(self).pos(),
                cy == old(self).pos().y,
                x < 64,
                z < 64,
                base == x * 4096 + z,
                0 <= y,
                y <= 64,
                y <= lm || y == 0,
                fits_i32(cy * 64),
                fits_i32(lm + cy * 64),
                forall|i: int|
                    0 <= i < CHUNK_VOLUME ==> #[trigger] self.blocks()[i] == if i / 4096 == x && i % 64 == z
                        && (i / 64) % 64 < y {
                        ground_block(((i / 64) % 64 + cy * 64) as u16)
                    } else {
                        old(self).blocks()[i]
                    },
            decreases 64 - y,
        {
            let v = self.generate_block((y + cy * 64) as u16);
            let idx = base + (y as usize) * 64;
            proof {
                assert(idx / 4096 == x && idx % 64 == z && (idx / 64) % 64 == y) by (nonlinear_arith)
                    requires
                        idx == x * 4096 + y * 64 + z,
                        0 <= x < 64,
                        0 <= y < 64,
                        0 <= z < 64,
                ;
            }
            self.blocks.set(idx, v);
            y = y + 1;
            assert forall|i: int| 0 <= i < CHUNK_VOLUME implies #[trigger] self.blocks()[i] == if i / 4096 == x
                && i % 64 == z && (i / 64) % 64 < y {
                ground_block(((i / 64) % 64 + cy * 64) as u16)
            } else {
                old(self).blocks()[i]
            } by {
                if i != idx {
                    if i / 4096 == x && i % 64 == z && (i / 64) % 64 == y - 1 {
                        assert(i == x * 4096 + (y - 1) * 64 + z) by (nonlinear_arith)
                            requires
                                i / 4096 == x,
                                i % 64 == z,
                                (i / 64) % 64 == y - 1,
                                0 <= i,
                        ;
                    }
                }
            }
        }
        let start: i32 = if lm > 0 { lm } else { 0 };
        let mut y2: i32 = start;
        while y2 < 63
            invariant
                self.wf(),
                self.pos() == old(self).pos(),
                cy == old(self).pos().y,
                x < 64,
                z < 64,
                base == x * 4096 + z,
                start == (if lm > 0 { lm } else { 0 }),
                start <= y2,
                y2 <= 63 || y2 == start,
                fits_i32(cy * 64),
                forall|i: int|
                    0 <= i < CHUNK_VOLUME ==> #[trigger] self.blocks()[i] == if i / 4096 == x && i % 64 == z {
                        let yy = (i / 64) % 64;
                        if yy < lm {
                            ground_block((yy + cy * 64) as u16)
                        } else if start <= yy < y2 {
                            block_value(BlockType::AIR)
                        } else {
                            old(self).blocks()[i]
                        }
                    } else {
                        old(self).blocks()[i]
                    },
            decreases 63 - y2,
        {
            let idx = base + (y2 as usize) * 64;
            proof {
                assert(idx / 4096 == x && idx % 64 == z && (idx / 64) % 64 == y2) by (nonlinear_arith)
                    requires
                        idx == x * 4096 + y2 * 64 + z,
                        0 <= x < 64,
                        0 <= y2 < 64,
                        0 <= z < 64,
                ;
            }
            self.blocks.set(idx, BlockType::AIR.get_value());
            y2 = y2 + 1;
            assert forall|i: int| 0 <= i < CHUNK_VOLUME implies #[trigger] self.blocks()[i] == if i / 4096 == x
                && i % 64 == z {
                let yy = (i / 64) % 64;
                if yy < lm {
                    ground_block((yy + cy * 64) as u16)
                } else if start <= yy < y2 {
                    block_value(BlockType::AIR)
                } else {
                    old(self).blocks()[i]
                }
            } else {
                old(self).blocks()[i]
            } by {
                if i != idx {
                    if i / 4096 == x && i % 64 == z && (i / 64) % 64 == y2 - 1 {
                        assert(i == x * 4096 + (y2 - 1) * 64 + z) by (nonlinear_arith)
                            requires
                                i / 4096 == x,
                                i % 64 == z,
                                (i / 64) % 64 == y2 - 1,
                                0 <= i,
                        ;
                    }
                }
            }
        }
    }

    /// Fills the chunk from the terrain samples of its columns (`terrain[x * 64 + z]`
    /// is the terrain noise at the column's absolute position, as an integer): the
    /// ground reaches `terrain * 100 + 400` blocks, made of `generate_block`, with air
    /// above it (see `generated_blocks`).
    pub fn generate_chunk(&mut self, terrain: &Vec<i32>)
        requires
            old(self).wf(),
            terrain@.len() == 4096,
            terrain_fits(terrain@, old(self).pos().y),
        ensures
            final(self).wf(),
            final(self).pos() == old(self).pos(),
            final(self).blocks() == generated_blocks(old(self).blocks(), terrain@, old(self).pos().y),
    {
        let cy = self.chunk_pos.y;
        let ghost target = generated_blocks(old(self).blocks(), terrain@, cy);
        let mut x: usize = 0;
        while x < 64
            invariant
                x <= 64,
                self.wf(),
                self.pos() == old(self).pos(),
                cy == old(self).pos().y,
                terrain@.len() == 4096,
                terrain_fits(terrain@, cy),
                target == generated_blocks(old(self).blocks(), terrain@, cy),
                old(self).wf(),
                forall|i: int|
                    0 <= i < CHUNK_VOLUME ==> #[trigger] self.blocks()[i] == if i / 4096 < x {
                        target[i]
                    } else {
                        old(self).blocks()[i]
                    },
            decreases 64 - x,
        {
            let mut z: usize = 0;
            while z < 64
                invariant
                    x < 64,
                    z <= 64,
                    self.wf(),
                    self.pos() == old(self).pos(),
                    cy == old(self).pos().y,
                    terrain@.len() == 4096,
                    terrain_fits(terrain@, cy),
                    target == generated_blocks(old(self).blocks(), terrain@, cy),
                    old(self).wf(),
                old(self).wf(),
                    forall|i: int|
                        0 <= i < CHUNK_VOLUME ==> #[trigger] self.blocks()[i] == if i / 4096 < x || (i / 4096
                            == x && i % 64 < z) {
                            target[i]
                        } else {
                            old(self).blocks()[i]
                        },
                decreases 64 - z,
            {
                let t = terrain[x * 64 + z];
                assert(fits_i32(terrain@[x * 64 + z] * 100));
                let lm = t * 100 + 400 - cy * 64;
                let ghost before = self.blocks();
                self.generate_column(x, z, lm);
                z = z + 1;
                assert forall|i: int| 0 <= i < CHUNK_VOLUME implies #[trigger] self.blocks()[i] == if i / 4096
                    < x || (i / 4096 == x && i % 64 < z) {
                    target[i]
                } else {
                    old(self).blocks()[i]
                } by {
                    assert(before[i] == if i / 4096 < x || (i / 4096 == x && i % 64 < z - 1) {
                        target[i]
                    } else {
                        old(self).blocks()[i]
                    });
                    if i / 4096 == x && i % 64 == z - 1 {
                        assert((i / 4096) * 64 + i % 64 == x * 64 + (z - 1));
                        assert(lm == local_max_height(terrain@[x * 64 + (z - 1)], cy));
                    } else {
                        assert(self.blocks()[i] == before[i]);
                    }
                }
            }
            x = x + 1;
        }
        assert(self.blocks() =~= target);
    }

    /// The ground block at absolute height `y` (see `ground_block`).
    pub fn generate_block(&self, y: u16) -> (b: u16)
        ensures
            b == ground_block(y),
    {
        if y < 200 || y > 400 {
            BlockType::STONE.get_value()
        } else {
            BlockType::DIRT.get_value()
        }
    }

    pub fn get_chunk_pos(&self) -> (p: ChunkPos)
        ensures
            p == self.pos(),
    {
        self.chunk_pos
    }

    /// The value of the block at `block_pos`, or 0 (air) outside the chunk.
    pub fn get_block_at(&self, block_pos: IBlockPos) -> (b: u16)
        requires
            self.wf(),
        ensures
            b == self.block_at(block_pos),
    {
        if block_pos.x < 0 || block_pos.x >= 64 || block_pos.y < 0 || block_pos.y >= 64
            || block_pos.z < 0 || block_pos.z >= 64 {
            return 0;
        }
        self.blocks[block_pos.get_index()]
    }

    /// A copy of the block values.
    pub fn get_blocks(&self) -> (blocks: Vec<u16>)
        ensures
            blocks@ == self.blocks(),
    {
        self.blocks.clone()
    }

    /// The mesh of this chunk, with the blocks beyond its faces read from `world`
    /// (see `ChunkMesh::new`).
    pub fn build_mesh(&self, world: &WorldData) -> (mesh: ChunkMesh)
        requires
            self.wf(),
            world.all_wf(),
            chunk_origin_fits(self.pos()),
        ensures
            mesh.vao == 0 && mesh.vbo == 0 && mesh.ebo == 0,
            !mesh.linked,
            mesh.vertices@ == mesh_vertices(self.blocks(), client_border(*world, self.pos()), FACE_SLOTS as nat),
            mesh.indices@ == mesh_indices(self.blocks(), client_border(*world, self.pos()), FACE_SLOTS as nat),
            mesh.nb_indices == mesh.indices@.len(),
    {
        ChunkMesh::new(world, self.chunk_pos, &self.blocks)
    }
}

} // verus!
