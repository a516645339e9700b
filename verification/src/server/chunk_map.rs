use vstd::prelude::*;
use std::collections::HashMap;
use crate::common::block::{BlockType, block_value};
use crate::common::chunk::Chunk;
use crate::common::chunkmap::{ChunkMap, add_chunk_result};
use crate::common::pos::{ChunkPos, IBlockPos};
use crate::server::cube::{
    ChunkPosSet, Exclusion, cube_range, cube_range_spec, cube_ok, exclusion_ok, in_cube_spec,
    lemma_cube_range_contents,
};

verus! {

broadcast use vstd::std_specs::hash::group_hash_axioms;

/// What a player does to a block: break it (left) or place deepslate (right).
#[derive(Clone, Copy, PartialEq, Eq, Structural, Debug)]
pub enum BlockInteraction {
    LEFT,
    RIGHT,
}

/// The block a player interaction leaves.
pub open spec fn interaction_block(i: BlockInteraction) -> BlockType {
    match i {
        BlockInteraction::LEFT => BlockType::AIR,
        BlockInteraction::RIGHT => BlockType::DEEPSLATE,
    }
}

/// The positions of `s` whose chunk is in `m`, in order.
pub open spec fn ready_part(s: Seq<ChunkPos>, m: ChunkMap) -> Seq<ChunkPos> {
    s.filter(|p: ChunkPos| m.has(p))
}

/// The positions of `s` whose chunk is not in `m`, in order.
pub open spec fn waiting_part(s: Seq<ChunkPos>, m: ChunkMap) -> Seq<ChunkPos> {
    s.filter(|p: ChunkPos| !m.has(p))
}

/// `take_ready` loses and duplicates nothing of what a player waits for: each
/// position goes either to the positions sent (its chunk is present) or to those still
/// waited for (it is absent), never to both.
pub proof fn lemma_ready_waiting_partition(s: Seq<ChunkPos>, m: ChunkMap)
    ensures
        ready_part(s, m).len() + waiting_part(s, m).len() == s.len(),
        forall|p: ChunkPos| #[trigger] s.contains(p) <==> (ready_part(s, m).contains(p) || waiting_part(s, m).contains(p)),
        forall|p: ChunkPos| #[trigger] ready_part(s, m).contains(p) ==> m.has(p),
        forall|p: ChunkPos| #[trigger] waiting_part(s, m).contains(p) ==> !m.has(p),
    decreases s.len(),
{
    reveal(Seq::filter);
    if s.len() > 0 {
        let t = s.drop_last();
        let x = s.last();
        lemma_ready_waiting_partition(t, m);
        assert(s == t.push(x));
        let r = ready_part(t, m);
        let w = waiting_part(t, m);
        if m.has(x) {
            assert(ready_part(s, m) == r.push(x));
            assert(waiting_part(s, m) == w);
        } else {
            assert(ready_part(s, m) == r);
            assert(waiting_part(s, m) == w.push(x));
        }
        assert forall|p: ChunkPos| #[trigger] s.contains(p) <==> (ready_part(s, m).contains(p) || waiting_part(s, m).contains(p)) by {
            if s.contains(p) {
                let i = choose|i: int| 0 <= i < s.len() && s[i] == p;
                if i < t.len() {
                    assert(t[i] == p);
                    assert(t.contains(p));
                } else {
                    assert(p == x);
                }
            }
            if r.contains(p) || w.contains(p) {
                assert(t.contains(p));
                let i = choose|i: int| 0 <= i < t.len() && t[i] == p;
                assert(s[i] == p);
            }
        }
    }
}

/// What `compute_chunk_diff` asks to load is exactly the new view cube (half-size
/// `new_view_distance` around `new_pos`) minus the old one (half-size
/// `old_view_distance` around `last_pos`); what it asks to unload is the old cube minus
/// the new one. So a player that neither moves nor changes its view distance loads and
/// unloads nothing.
pub proof fn lemma_chunk_diff_contents(last_pos: ChunkPos, new_pos: ChunkPos, old_view_distance: i32, new_view_distance: i32)
    requires
        cube_ok(last_pos, old_view_distance),
        cube_ok(new_pos, new_view_distance),
    ensures
        forall|p: ChunkPos|
            #[trigger] cube_range_spec(new_pos, new_view_distance, Exclusion::InCube { center: last_pos, vd: old_view_distance }).contains(p)
                <==> (in_cube_spec(new_pos, new_view_distance, p) && !in_cube_spec(last_pos, old_view_distance, p)),
        forall|p: ChunkPos|
            #[trigger] cube_range_spec(last_pos, old_view_distance, Exclusion::InCube { center: new_pos, vd: new_view_distance }).contains(p)
                <==> (in_cube_spec(last_pos, old_view_distance, p) && !in_cube_spec(new_pos, new_view_distance, p)),
        last_pos == new_pos && old_view_distance == new_view_distance ==> cube_range_spec(
            new_pos,
            new_view_distance,
            Exclusion::InCube { center: last_pos, vd: old_view_distance },
        ).len() == 0,
{
    let load = cube_range_spec(new_pos, new_view_distance, Exclusion::InCube { center: last_pos, vd: old_view_distance });
    lemma_cube_range_contents(new_pos, new_view_distance, Exclusion::InCube { center: last_pos, vd: old_view_distance });
    lemma_cube_range_contents(last_pos, old_view_distance, Exclusion::InCube { center: new_pos, vd: new_view_distance });
    if last_pos == new_pos && old_view_distance == new_view_distance && load.len() > 0 {
        assert(load.contains(load[0]));
    }
}

/// The chunks of the server world and, for each player (by id), the positions of the
/// chunks it asked for and has not been sent yet.
pub struct ServerChunkMap {
    chunk_map: ChunkMap,
    asking_for_chunks: HashMap<u64, Vec<ChunkPos>>,
}

impl ServerChunkMap {
    pub closed spec fn map(&self) -> ChunkMap {
        self.chunk_map
    }

    /// The pending positions of each player.
    pub closed spec fn pending(&self) -> Map<u64, Seq<ChunkPos>> {
        Map::new(
            |k: u64| self.asking_for_chunks@.contains_key(k),
            |k: u64| self.asking_for_chunks@[k]@,
        )
    }

    pub open spec fn pending_of(&self, puid: u64) -> Seq<ChunkPos> {
        if self.pending().contains_key(puid) {
            self.pending()[puid]
        } else {
            seq![]
        }
    }

    pub fn new() -> (m: ServerChunkMap)
        ensures
            m.map().chunks() == Map::<u128, Chunk>::empty(),
            m.map().wf(),
            m.pending() == Map::<u64, Seq<ChunkPos>>::empty(),
    {
        let m = ServerChunkMap { chunk_map: ChunkMap::new(), asking_for_chunks: HashMap::new() };
        assert(m.pending() =~= Map::<u64, Seq<ChunkPos>>::empty());
        m
    }

    /// The chunks of the world.
    pub fn get_chunk_map(&self) -> (m: &ChunkMap)
        ensures
            *m == self.map(),
    {
        &self.chunk_map
    }

    /// Queues `vec_pos` after the positions the player already waits for.
    pub fn ask_for_chunks(&mut self, puid: u64, vec_pos: Vec<ChunkPos>)
        ensures
            final(self).map() == old(self).map(),
            final(self).pending() == old(self).pending().insert(
                puid,
                old(self).pending_of(puid) + vec_pos@,
            ),
    {
        let mut entry: Vec<ChunkPos> = match self.asking_for_chunks.remove(&puid) {
            Some(v) => v,
            None => Vec::new(),
        };
        let ghost start = entry@;
        assert(start == old(self).pending_of(puid));
        let mut i: usize = 0;
        while i < vec_pos.len()
            invariant
                i <= vec_pos@.len(),
                entry@ == start + vec_pos@.subrange(0, i as int),
            decreases vec_pos@.len() - i,
        {
            entry.push(vec_pos[i]);
            i = i + 1;
            assert(entry@ =~= start + vec_pos@.subrange(0, i as int));
        }
        assert(vec_pos@.subrange(0, vec_pos@.len() as int) =~= vec_pos@);
        self.asking_for_chunks.insert(puid, entry);
        assert(self.pending() =~= old(self).pending().insert(puid, old(self).pending_of(puid) + vec_pos@));
    }

    /// Forgets what the player waits for.
    pub fn ask_remove_player(&mut self, puid: &u64)
        ensures
            final(self).map() == old(self).map(),
            final(self).pending() == old(self).pending().remove(*puid),
    {
        self.asking_for_chunks.remove(puid);
        assert(self.pending() =~= old(self).pending().remove(*puid));
    }

    /// Adds a generated chunk (see `ChunkMap::add_chunk`).
    pub fn add_chunk(&mut self, chunk: Chunk) -> (added: bool)
        requires
            old(self).map().wf(),
        ensures
            final(self).map().wf(),
            final(self).pending() == old(self).pending(),
            add_chunk_result(old(self).map(), chunk, final(self).map(), added),
    {
        self.chunk_map.add_chunk(chunk)
    }

    /// The positions the player waits for whose chunk is now present, in the order they
    /// were asked for; the player keeps waiting for the others, in order.
    pub fn take_ready(&mut self, puid: u64) -> (ready: Vec<ChunkPos>)
        ensures
            final(self).map() == old(self).map(),
            ready@ == ready_part(old(self).pending_of(puid), old(self).map()),
            old(self).pending().contains_key(puid) ==> final(self).pending() == old(self).pending().insert(
                puid,
                waiting_part(old(self).pending_of(puid), old(self).map()),
            ),
            !old(self).pending().contains_key(puid) ==> final(self).pending() == old(self).pending(),
    {
        let entry = match self.asking_for_chunks.remove(&puid) {
            Some(v) => v,
            None => {
                return Vec::new();
            },
        };
        let ghost s = entry@;
        let mut ready: Vec<ChunkPos> = Vec::new();
        let mut waiting: Vec<ChunkPos> = Vec::new();
        let mut i: usize = 0;
        while i < entry.len()
            invariant
                i <= s.len(),
                entry@ == s,
                ready@ == ready_part(s.subrange(0, i as int), self.chunk_map),
                waiting@ == waiting_part(s.subrange(0, i as int), self.chunk_map),
            decreases s.len() - i,
        {
            let p = entry[i];
            proof {
                let sub = s.subrange(0, i + 1);
                assert(sub.drop_last() =~= s.subrange(0, i as int));
                assert(sub.last() == p);
            }
            if self.chunk_map.contains_chunk(&p) {
                ready.push(p);
            } else {
                waiting.push(p);
            }
            i = i + 1;
            proof {
                let sub = s.subrange(0, i as int);
                reveal(Seq::filter);
                assert(ready@ =~= ready_part(sub, self.chunk_map));
                assert(waiting@ =~= waiting_part(sub, self.chunk_map));
            }
        }
        assert(s.subrange(0, s.len() as int) =~= s);
        self.asking_for_chunks.insert(puid, waiting);
        assert(self.pending() =~= old(self).pending().insert(puid, waiting_part(old(self).pending_of(puid), old(self).map())));
        ready
    }

    /// The positions of the cube of half-size `range` around `pos` that were not
    /// generated yet, nearest first (see `cube_range`).
    pub fn compute_chunks(pos: ChunkPos, range: i32, chunks_generated: &ChunkPosSet) -> (v: Vec<ChunkPos>)
        requires
            cube_ok(pos, range),
        ensures
            v@ == cube_range_spec(pos, range, Exclusion::InSet(chunks_generated)),
    {
        cube_range(pos, range, &Exclusion::InSet(chunks_generated))
    }

    /// The chunks to load (in the new view cube, not within the old one) and to unload
    /// (in the old view cube, not within the new one) when a player moves from `last_pos`
    /// with view distance `old_view_distance` to `new_pos` with `new_view_distance`.
    pub fn compute_chunk_diff(
        last_pos: ChunkPos,
        new_pos: ChunkPos,
        old_view_distance: i32,
        new_view_distance: i32,
    ) -> (r: (Vec<ChunkPos>, Vec<ChunkPos>))
        requires
            cube_ok(last_pos, old_view_distance),
            cube_ok(new_pos, new_view_distance),
            exclusion_ok(Exclusion::InCube { center: new_pos, vd: new_view_distance }, last_pos, old_view_distance),
            exclusion_ok(Exclusion::InCube { center: last_pos, vd: old_view_distance }, new_pos, new_view_distance),
        ensures
            r.0@ == cube_range_spec(
                new_pos,
                new_view_distance,
                Exclusion::InCube { center: last_pos, vd: old_view_distance },
            ),
            r.1@ == cube_range_spec(
                last_pos,
                old_view_distance,
                Exclusion::InCube { center: new_pos, vd: new_view_distance },
            ),
    {
        let old_range = cube_range(
            last_pos,
            old_view_distance,
            &Exclusion::InCube { center: new_pos, vd: new_view_distance },
        );
        let new_range = cube_range(
            new_pos,
            new_view_distance,
            &Exclusion::InCube { center: last_pos, vd: old_view_distance },
        );
        (new_range, old_range)
    }

    /// Applies a player's interaction to a block of a present chunk: left breaks it
    /// (air), right places deepslate. Answers whether the block changed.
    pub fn interact_block(&mut self, iblock_pos: IBlockPos, block_interaction: BlockInteraction) -> (changed: bool)
        requires
            old(self).map().wf(),
            old(self).map().has(iblock_pos.chunk_of()),
            old(self).map().chunk(iblock_pos.chunk_of()).wf(),
        ensures
            final(self).pending() == old(self).pending(),
            final(self).map().wf(),
            final(self).map().chunks().dom() == old(self).map().chunks().dom(),
            forall|k: u128|
                k != iblock_pos.chunk_of().key() && #[trigger] old(self).map().chunks().contains_key(k)
                    ==> final(self).map().chunks()[k] == old(self).map().chunks()[k],
            final(self).map().chunk(iblock_pos.chunk_of()).pos() == iblock_pos.chunk_of(),
            final(self).map().chunk(iblock_pos.chunk_of()).blocks() == old(self).map().chunk(
                iblock_pos.chunk_of(),
            ).blocks().update(iblock_pos.local().index(), block_value(interaction_block(block_interaction))),
            changed == (old(self).map().chunk(iblock_pos.chunk_of()).blocks()[iblock_pos.local().index()]
                != block_value(interaction_block(block_interaction))),
            final(self).map().block_at(iblock_pos) == block_value(interaction_block(block_interaction)),
            forall|q: IBlockPos| q != iblock_pos ==> #[trigger] final(self).map().block_at(q) == old(self).map().block_at(q),
    {
        match block_interaction {
            BlockInteraction::LEFT => self.chunk_map.set_block(iblock_pos, BlockType::AIR),
            BlockInteraction::RIGHT => self.chunk_map.set_block(iblock_pos, BlockType::DEEPSLATE),
        }
    }
}

} // verus!
