use vstd::prelude::*;

verus! {

/// The kinds of blocks a chunk can hold; each is stored in a chunk as its `u16` value.
#[derive(Clone, Copy, PartialEq, Eq, Structural, Debug)]
pub enum BlockType {
    AIR,
    DIRT,
    STONE,
    DEEPSLATE,
    PlatinumOre,
    IKRINEBLOCK,
    IkrineOre,
    StoneBricks,
    GRASS,
}

/// Mining levels of tools.
pub enum BlockLevel {
    DIAMOND,
    IRON,
    COBALT,
    STONE,
    WOOD,
}

/// The value by which a block type is stored in a chunk.
pub open spec fn block_value(b: BlockType) -> u16 {
    match b {
        BlockType::AIR => 0,
        BlockType::DIRT => 1,
        BlockType::STONE => 2,
        BlockType::DEEPSLATE => 3,
        BlockType::PlatinumOre => 4,
        BlockType::IKRINEBLOCK => 5,
        BlockType::IkrineOre => 6,
        BlockType::StoneBricks => 7,
        BlockType::GRASS => 8,
    }
}

impl BlockType {
    /// The value stored in a chunk for this block type.
    pub fn get_value(self) -> (value: u16)
        ensures
            value == block_value(self),
    {
        match self {
            BlockType::AIR => 0,
            BlockType::DIRT => 1,
            BlockType::STONE => 2,
            BlockType::DEEPSLATE => 3,
            BlockType::PlatinumOre => 4,
            BlockType::IKRINEBLOCK => 5,
            BlockType::IkrineOre => 6,
            BlockType::StoneBricks => 7,
            BlockType::GRASS => 8,
        }
    }
}

} // verus!
