use vstd::prelude::*;
use std::collections::HashMap;
use crate::common::block::{BlockType, block_value};
use crate::common::chunk::Chunk;
use crate::common::pos::{ChunkPos, IBlockPos, cpos, fits_i32, lemma_split_recombines, lemma_split_injective, lemma_index_bijective, lemma_pos_key_injective};

verus! {

broadcast use vstd::std_specs::hash::group_hash_axioms;

/// Lowest chunk layer a chunk map accepts.
pub const MIN_CHUNK_Y: i32 = -2;

/// Highest chunk layer a chunk map accepts.
pub const MAX_CHUNK_Y: i32 = 9;

/// What `add_chunk(chunk)` on `before` leaves and answers: the chunk is added when its
/// layer lies in `MIN_CHUNK_Y..=MAX_CHUNK_Y` and its position is free; otherwise
/// nothing changes.
pub open spec fn add_chunk_result(before: ChunkMap, chunk: Chunk, after: ChunkMap, added: bool) -> bool {
    &&& added == (MIN_CHUNK_Y <= chunk.pos().y <= MAX_CHUNK_Y && !before.has(chunk.pos()))
    &&& added ==> after.chunks() == before.chunks().insert(chunk.pos().key(), chunk)
    &&& !added ==> after.chunks() == before.chunks()
}

/// A position takes a chunk at most once: after a first `add_chunk`, adding a chunk
/// at the same position answers false and leaves the map as it was, with the first
/// chunk still there when it was added.
pub proof fn lemma_add_chunk_once(
    m0: ChunkMap,
    c1: Chunk,
    m1: ChunkMap,
    a1: bool,
    c2: Chunk,
    m2: ChunkMap,
    a2: bool,
)
    requires
        add_chunk_result(m0, c1, m1, a1),
        add_chunk_result(m1, c2, m2, a2),
        c2.pos() == c1.pos(),
    ensures
        !a2,
        m2.chunks() == m1.chunks(),
        a1 ==> m2.has(c1.pos()) && m2.chunk(c1.pos()) == c1,
{
}

/// The chunks of a world, each found by its position.
pub struct ChunkMap {
    chunks: HashMap<u128, Chunk>,
}

impl ChunkMap {
    /// The chunks, keyed by the key of their position.
    pub closed spec fn chunks(&self) -> Map<u128, Chunk> {
        self.chunks@
    }

    /// Every chunk is stored under the key of its own position.
    pub open spec fn wf(&self) -> bool {
        forall|k: u128| #[trigger] self.chunks().contains_key(k) ==> self.chunks()[k].pos().key() == k
    }

    pub open spec fn has(&self, p: ChunkPos) -> bool {
        self.chunks().contains_key(p.key())
    }

    pub open spec fn chunk(&self, p: ChunkPos) -> Chunk {
        self.chunks()[p.key()]
    }

    /// The value of the block at an absolute position: the block of its chunk when the
    /// chunk is present, 0 (air) otherwise.
    pub open spec fn block_at(&self, p: IBlockPos) -> u16 {
        if self.has(p.chunk_of()) {
            self.chunk(p.chunk_of()).block_at(p.local())
        } else {
            0
        }
    }

    pub fn new() -> (m: ChunkMap)
        ensures
            m.chunks() == Map::<u128, Chunk>::empty(),
            m.wf(),
    {
        ChunkMap { chunks: HashMap::new() }
    }

    /// The six face neighbours of `pos` followed by `pos` itself.
    pub fn get_neighbours_chunks_pos(pos: &ChunkPos) -> (v: Vec<ChunkPos>)
        requires
            fits_i32(pos.x - 1),
            fits_i32(pos.x + 1),
            fits_i32(pos.y - 1),
            fits_i32(pos.y + 1),
            fits_i32(pos.z - 1),
            fits_i32(pos.z + 1),
        ensures
            v@ == seq![
                cpos(pos.x - 1, pos.y as int, pos.z as int),
                cpos(pos.x + 1, pos.y as int, pos.z as int),
                cpos(pos.x as int, pos.y - 1, pos.z as int),
                cpos(pos.x as int, pos.y + 1, pos.z as int),
                cpos(pos.x as int, pos.y as int, pos.z - 1),
                cpos(pos.x as int, pos.y as int, pos.z + 1),
                *pos,
            ],
    {
        let mut v: Vec<ChunkPos> = Vec::new();
        v.push(ChunkPos::new(pos.x - 1, pos.y, pos.z));
        v.push(ChunkPos::new(pos.x + 1, pos.y, pos.z));
        v.push(ChunkPos::new(pos.x, pos.y - 1, pos.z));
        v.push(ChunkPos::new(pos.x, pos.y + 1, pos.z));
        v.push(ChunkPos::new(pos.x, pos.y, pos.z - 1));
        v.push(ChunkPos::new(pos.x, pos.y, pos.z + 1));
        v.push(*pos);
        assert(v@ =~= seq![
            cpos(pos.x - 1, pos.y as int, pos.z as int),
            cpos(pos.x + 1, pos.y as int, pos.z as int),
            cpos(pos.x as int, pos.y - 1, pos.z as int),
            cpos(pos.x as int, pos.y + 1, pos.z as int),
            cpos(pos.x as int, pos.y as int, pos.z - 1),
            cpos(pos.x as int, pos.y as int, pos.z + 1),
            *pos,
        ]);
        v
    }

    /// Adds a chunk whose layer lies in `MIN_CHUNK_Y..=MAX_CHUNK_Y` and whose position
    /// is free; answers whether it was added.
    pub fn add_chunk(&mut self, chunk: Chunk) -> (added: bool)
        requires
            old(self).wf(),
        ensures
            final(self).wf(),
            add_chunk_result(*old(self), chunk, *final(self), added),
    {
        let pos = chunk.get_chunk_pos();
        if pos.y < MIN_CHUNK_Y || pos.y > MAX_CHUNK_Y {
            return false;
        }
        let key = pos.get_key();
        if self.chunks.contains_key(&key) {
            return false;
        }
        self.chunks.insert(key, chunk);
        assert forall|k: u128| #[trigger] self.chunks@.contains_key(k) implies self.chunks@[k].pos().key() == k by {
            if k != key {
                assert(old(self).chunks().contains_key(k));
            }
        }
        true
    }

    /// Sets a block of a chunk that is present; answers whether the value changed.
    pub fn set_block(&mut self, iblock_pos: IBlockPos, block_type: BlockType) -> (changed: bool)
        requires
            old(self).wf(),
            old(self).has(iblock_pos.chunk_of()),
            old(self).chunk(iblock_pos.chunk_of()).wf(),
        ensures
            final(self).wf(),
            final(self).chunks().dom() == old(self).chunks().dom(),
            forall|k: u128|
                k != iblock_pos.chunk_of().key() && #[trigger] old(self).chunks().contains_key(k)
                    ==> final(self).chunks()[k] == old(self).chunks()[k],
            final(self).chunk(iblock_pos.chunk_of()).pos() == iblock_pos.chunk_of(),
            final(self).chunk(iblock_pos.chunk_of()).blocks() == old(self).chunk(
                iblock_pos.chunk_of(),
            ).blocks().update(iblock_pos.local().index(), block_value(block_type)),
            changed == (old(self).chunk(iblock_pos.chunk_of()).blocks()[iblock_pos.local().index()]
                != block_value(block_type)),
            final(self).block_at(iblock_pos) == block_value(block_type),
            forall|q: IBlockPos| q != iblock_pos ==> #[trigger] final(self).block_at(q) == old(self).block_at(q),
    {
        let key = iblock_pos.get_chunk_pos().get_key();
        let ghost before = self.chunks@;
        let removed = self.chunks.remove(&key);
        assert(removed == Some(before[key]));
        let mut chunk = removed.unwrap();
        let changed = chunk.set_block(iblock_pos, block_type);
        self.chunks.insert(key, chunk);
        proof {
            assert(self.chunks@ == before.insert(key, chunk));
            assert(self.chunks@.dom() =~= before.dom());
            assert forall|k: u128| #[trigger] self.chunks@.contains_key(k) implies self.chunks@[k].pos().key() == k by {
                assert(old(self).chunks().contains_key(k));
            }
            lemma_split_recombines(iblock_pos);
            lemma_index_bijective(iblock_pos.local(), iblock_pos.local());
            assert forall|q: IBlockPos| q != iblock_pos implies #[trigger] self.block_at(q) == old(self).block_at(q) by {
                lemma_split_recombines(q);
                lemma_pos_key_injective(q.chunk_of(), iblock_pos.chunk_of());
                if q.chunk_of() == iblock_pos.chunk_of() {
                    if q.local() == iblock_pos.local() {
                        lemma_split_injective(q, iblock_pos);
                    }
                    lemma_index_bijective(q.local(), iblock_pos.local());
                }
            }
        }
        changed
    }

    /// The value of the block at an absolute position, or 0 (air) when its chunk is
    /// absent.
    pub fn get_block_at(&self, block_pos: IBlockPos) -> (b: u16)
        requires
            self.has(block_pos.chunk_of()) ==> self.chunk(block_pos.chunk_of()).wf(),
        ensures
            b == self.block_at(block_pos),
    {
        match self.get_chunk(&block_pos.get_chunk_pos()) {
            Some(e) => e.get_block_at(block_pos.get_block_pos()),
            None => 0,
        }
    }

    pub fn contains_chunk(&self, chunk_pos: &ChunkPos) -> (r: bool)
        ensures
            r == self.has(*chunk_pos),
    {
        self.chunks.contains_key(&chunk_pos.get_key())
    }

    pub fn get_chunk(&self, chunk_pos: &ChunkPos) -> (r: Option<&Chunk>)
        ensures
            match r {
                Some(c) => self.has(*chunk_pos) && *c == self.chunk(*chunk_pos),
                None => !self.has(*chunk_pos),
            },
    {
        self.chunks.get(&chunk_pos.get_key())
    }

    /// The chunk at `chunk_pos`, to change in place, when present; the map stays well
    /// formed as long as the chunk keeps its position.
    pub fn get_chunk_mut(&mut self, chunk_pos: &ChunkPos) -> (r: Option<&mut Chunk>)
        ensures
            match r {
                Some(c) => {
                    &&& old(self).has(*chunk_pos)
                    &&& *c == old(self).chunk(*chunk_pos)
                    &&& final(self).chunks() == old(self).chunks().insert(chunk_pos.key(), *final(c))
                    &&& old(self).wf() && final(c).pos() == c.pos() ==> final(self).wf()
                },
                None => !old(self).has(*chunk_pos) && final(self).chunks() == old(self).chunks(),
            },
    {
        match self.chunks.entry(chunk_pos.get_key()) {
            std::collections::hash_map::Entry::Occupied(e) => Some(e.into_mut()),
            std::collections::hash_map::Entry::Vacant(_) => None,
        }
    }

    pub fn remove_chunk(&mut self, chunk_pos: &ChunkPos)
        requires
            old(self).wf(),
        ensures
            final(self).wf(),
            final(self).chunks() == old(self).chunks().remove(chunk_pos.key()),
    {
        self.chunks.remove(&chunk_pos.get_key());
        assert forall|k: u128| #[trigger] self.chunks@.contains_key(k) implies self.chunks@[k].pos().key() == k by {
            assert(old(self).chunks().contains_key(k));
        }
    }
}

} // verus!
