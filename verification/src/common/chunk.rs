use vstd::prelude::*;
use crate::common::block::{BlockType, block_value};
use crate::common::pos::{ChunkPos, IBlockPos, CHUNK_VOLUME};

verus! {

/// The two bytes of `v`, least significant first.
pub open spec fn u16_le(v: u16) -> Seq<u8> {
    seq![(v % 256) as u8, (v / 256) as u8]
}

/// Each pair of bytes that `Chunk::serialize` writes reads back as its block value.
pub proof fn lemma_u16_le_decodes(v: u16)
    ensures
        u16_le(v).len() == 2,
        u16_le(v)[0] + 256 * u16_le(v)[1] == v,
{
}

/// The blocks of one chunk, indexed by `x * 4096 + y * 64 + z`.
#[derive(Clone)]
pub struct Chunk {
    blocks: Vec<u16>,
    chunk_pos: ChunkPos,
}

impl Chunk {
    pub closed spec fn blocks(&self) -> Seq<u16> {
        self.blocks@
    }

    pub closed spec fn pos(&self) -> ChunkPos {
        self.chunk_pos
    }

    /// A chunk holds exactly one value per block.
    pub open spec fn wf(&self) -> bool {
        self.blocks().len() == CHUNK_VOLUME
    }

    /// The value of the block at an in-chunk position, and 0 (air) elsewhere.
    pub open spec fn block_at(&self, p: IBlockPos) -> u16 {
        if p.in_chunk() {
            self.blocks()[p.index()]
        } else {
            0
        }
    }

    /// A copy of the block values.
    pub fn get_blocks(&self) -> (blocks: Vec<u16>)
        ensures
            blocks@ == self.blocks(),
    {
        self.blocks.clone()
    }

    pub fn new(chunk_pos: ChunkPos, blocks: Vec<u16>) -> (c: Chunk)
        ensures
            c.blocks() == blocks@,
            c.pos() == chunk_pos,
    {
        Chunk { blocks, chunk_pos }
    }

    /// Sets the block at the in-chunk position of `iblock_pos`; answers whether the
    /// value changed.
    pub fn set_block(&mut self, iblock_pos: IBlockPos, block_type: BlockType) -> (changed: bool)
        requires
            old(self).wf(),
        ensures
            final(self).pos() == old(self).pos(),
            final(self).blocks() == old(self).blocks().update(
                iblock_pos.local().index(),
                block_value(block_type),
            ),
            changed == (old(self).blocks()[iblock_pos.local().index()] != block_value(block_type)),
    {
        let idx = iblock_pos.get_block_pos().get_index();
        let value = block_type.get_value();
        if self.blocks[idx] == value {
            assert(self.blocks@ =~= self.blocks@.update(idx as int, value));
            return false;
        }
        self.blocks.set(idx, value);
        true
    }

    pub fn get_chunk_pos(&self) -> (p: ChunkPos)
        ensures
            p == self.pos(),
    {
        self.chunk_pos
    }

    /// The value of the block at `block_pos`, or 0 (air) when it lies outside the chunk.
    pub fn get_block_at(&self, block_pos: IBlockPos) -> (b: u16)
        requires
            self.wf(),
        ensures
            b == self.block_at(block_pos),
    {
        if block_pos.x < 0 || block_pos.x >= 64 || block_pos.y < 0 || block_pos.y >= 64
            || block_pos.z < 0 || block_pos.z >= 64 {
            return 0;
        }
        self.blocks[block_pos.get_index()]
    }

    /// The block values as bytes, two per block, least significant first.
    pub fn serialize(&self) -> (bytes: Vec<u8>)
        requires
            self.blocks().len() * 2 <= usize::MAX,
        ensures
            bytes@.len() == 2 * self.blocks().len(),
            forall|i: int|
                0 <= i < self.blocks().len() ==> bytes@.subrange(2 * i, 2 * i + 2) == u16_le(
                    #[trigger] self.blocks()[i],
                ),
    {
        let mut bytes: Vec<u8> = Vec::new();
        let mut i: usize = 0;
        while i < self.blocks.len()
            invariant
                i <= self.blocks@.len(),
                self.blocks@.len() * 2 <= usize::MAX,
                bytes@.len() == 2 * i,
                forall|j: int|
                    0 <= j < i ==> bytes@.subrange(2 * j, 2 * j + 2) == u16_le(
                        #[trigger] self.blocks@[j],
                    ),
            decreases self.blocks@.len() - i,
        {
            let v = self.blocks[i];
            let ghost before = bytes@;
            bytes.push((v % 256) as u8);
            bytes.push((v / 256) as u8);
            assert forall|j: int| 0 <= j < i + 1 implies bytes@.subrange(2 * j, 2 * j + 2) == u16_le(
                #[trigger] self.blocks@[j],
            ) by {
                if j < i {
                    assert(bytes@.subrange(2 * j, 2 * j + 2) =~= before.subrange(2 * j, 2 * j + 2));
                } else {
                    assert(bytes@.subrange(2 * j, 2 * j + 2) =~= u16_le(v));
                }
            }
            i = i + 1;
        }
        bytes
    }
}

} // verus!
