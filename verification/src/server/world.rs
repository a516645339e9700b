use vstd::prelude::*;
use crate::common::block::block_value;
use crate::common::chunk::Chunk;
use crate::common::chunkmap::{add_chunk_result, MIN_CHUNK_Y, MAX_CHUNK_Y};
use crate::common::pos::{ChunkPos, IBlockPos, lemma_pos_key_injective};
use crate::server::chunk_map::{BlockInteraction, ServerChunkMap, interaction_block};
use crate::server::chunk_mesh::all_chunks_wf;
use crate::server::cube::{ChunkPosSet, Exclusion, cube_range_spec, cube_ok, abs_diff, lemma_cube_range_contents};

verus! {

/// Half-size of the square of chunks generated at start-up.
pub const SPAWN_RANGE: i32 = 20;

/// Number of chunks generated at start-up: the first of the numbered positions of
/// `from_single_value` over `SPAWN_RANGE`.
pub const SPAWN_CHUNKS: i32 = 2800;

/// Half-size of the cube of chunks generated around a player.
pub const GENERATION_RANGE: i32 = 8;

/// Lowest and highest layer the server generates around players.
pub const GEN_MIN_Y: i32 = 0;

pub const GEN_MAX_Y: i32 = 11;

/// The start-up chunks, in order: `ChunkPos::from_single_value(i, SPAWN_RANGE)` for each
/// `i` in `0..SPAWN_CHUNKS`.
pub open spec fn spawn_positions() -> Seq<ChunkPos> {
    Seq::new(SPAWN_CHUNKS as nat, |i: int| ChunkPos::single_value_pos(i as i32, SPAWN_RANGE))
}

/// The positions of `s` to hand to the generators, given the set `g` of positions
/// already handed over: those in layers `GEN_MIN_Y..=GEN_MAX_Y` not handed over yet
/// (nor earlier in `s`); and the set once they are.
pub open spec fn generation_step(s: Seq<ChunkPos>, g: Set<u128>) -> (Seq<ChunkPos>, Set<u128>)
    decreases s.len(),
{
    if s.len() == 0 {
        (seq![], g)
    } else {
        let (r, g1) = generation_step(s.drop_last(), g);
        let p = s.last();
        if !g1.contains(p.key()) && GEN_MIN_Y <= p.y <= GEN_MAX_Y {
            (r.push(p), g1.insert(p.key()))
        } else {
            (r, g1)
        }
    }
}

/// A position goes to the generators at most once: a batch holds no position handed
/// over before nor any position twice, only positions of the layers
/// `GEN_MIN_Y..=GEN_MAX_Y` taken from the positions asked for, and the recorded set
/// grows by exactly the batch.
pub proof fn lemma_generation_step_fresh(s: Seq<ChunkPos>, g: Set<u128>)
    ensures
        ({
            let (r, g2) = generation_step(s, g);
            &&& forall|i: int| 0 <= i < r.len() ==> !g.contains(#[trigger] r[i].key())
            &&& forall|i: int, j: int| 0 <= i < j < r.len() ==> #[trigger] r[i].key() != #[trigger] r[j].key()
            &&& forall|i: int| 0 <= i < r.len() ==> s.contains(#[trigger] r[i]) && GEN_MIN_Y <= r[i].y <= GEN_MAX_Y
            &&& forall|k: u128| #[trigger] g2.contains(k) <==> (g.contains(k) || exists|i: int| 0 <= i < r.len() && r[i].key() == k)
        }),
    decreases s.len(),
{
    if s.len() > 0 {
        let t = s.drop_last();
        let p = s.last();
        lemma_generation_step_fresh(t, g);
        let (r1, g1) = generation_step(t, g);
        let (r, g2) = generation_step(s, g);
        assert forall|i: int| 0 <= i < r1.len() implies s.contains(#[trigger] r1[i]) by {
            assert(t.contains(r1[i]));
            let j = choose|j: int| 0 <= j < t.len() && t[j] == r1[i];
            assert(s[j] == r1[i]);
        }
        if !g1.contains(p.key()) && GEN_MIN_Y <= p.y <= GEN_MAX_Y {
            assert(r == r1.push(p));
            assert(s[s.len() - 1] == p);
            assert(g2 == g1.insert(p.key()));
            assert forall|k: u128| #[trigger] g2.contains(k) <==> (g.contains(k) || exists|i: int| 0 <= i < r.len() && r[i].key() == k) by {
                let in_g1 = g1.contains(k);
                if k == p.key() {
                    assert(r[r.len() - 1].key() == k);
                } else {
                    if in_g1 && !g.contains(k) {
                        let i = choose|i: int| 0 <= i < r1.len() && r1[i].key() == k;
                        assert(r[i].key() == k);
                    }
                    if exists|i: int| 0 <= i < r.len() && r[i].key() == k {
                        let i = choose|i: int| 0 <= i < r.len() && r[i].key() == k;
                        assert(i < r1.len());
                        assert(r1[i].key() == k);
                    }
                }
            }
        } else {
            assert(r == r1);
        }
    }
}

/// Nothing asked for is left out: a position of `s` goes into the batch exactly when
/// it was not handed over before and its layer lies in `GEN_MIN_Y..=GEN_MAX_Y`.
pub proof fn lemma_generation_step_complete(s: Seq<ChunkPos>, g: Set<u128>)
    ensures
        forall|p: ChunkPos| #[trigger] generation_step(s, g).0.contains(p) <==> (s.contains(p) && !g.contains(p.key())
            && GEN_MIN_Y <= p.y <= GEN_MAX_Y),
    decreases s.len(),
{
    lemma_generation_step_fresh(s, g);
    let (r, g2) = generation_step(s, g);
    assert forall|p: ChunkPos| #[trigger] r.contains(p) implies s.contains(p) && !g.contains(p.key()) && GEN_MIN_Y
        <= p.y <= GEN_MAX_Y by {
        let i = choose|i: int| 0 <= i < r.len() && r[i] == p;
        assert(s.contains(r[i]));
        assert(!g.contains(r[i].key()));
    }
    if s.len() > 0 {
        let t = s.drop_last();
        let q = s.last();
        lemma_generation_step_complete(t, g);
        lemma_generation_step_fresh(t, g);
        let (r1, g1) = generation_step(t, g);
        assert forall|p: ChunkPos| s.contains(p) && !g.contains(p.key()) && GEN_MIN_Y <= p.y <= GEN_MAX_Y implies #[trigger] r.contains(p) by {
            let j = choose|j: int| 0 <= j < s.len() && s[j] == p;
            if j < s.len() - 1 {
                assert(t[j] == p);
                assert(r1.contains(p));
                let i = choose|i: int| 0 <= i < r1.len() && r1[i] == p;
                if !g1.contains(q.key()) && GEN_MIN_Y <= q.y <= GEN_MAX_Y {
                    assert(r == r1.push(q));
                    assert(r[i] == p);
                } else {
                    assert(r == r1);
                }
            } else {
                assert(p == q);
                if !g1.contains(q.key()) {
                    assert(r == r1.push(q));
                    assert(r[r.len() - 1] == p);
                } else {
                    let i = choose|i: int| 0 <= i < r1.len() && r1[i].key() == p.key();
                    lemma_pos_key_injective(r1[i], p);
                    assert(r == r1);
                    assert(r[i] == p);
                }
            }
        }
    }
}

/// The batch generated around a player standing in chunk `center` is exactly the
/// positions within 8 chunks of it along each axis, in layers 0 to 11, that were not
/// generated before (not in `g`).
pub proof fn lemma_generation_batch_contents(center: ChunkPos, g: ChunkPosSet)
    requires
        cube_ok(center, GENERATION_RANGE),
    ensures
        forall|p: ChunkPos| #[trigger] generation_step(
            cube_range_spec(center, GENERATION_RANGE, Exclusion::InSet(&g)),
            g.keys(),
        ).0.contains(p) <==> (abs_diff(p.x, center.x) <= 8 && abs_diff(p.y, center.y) <= 8 && abs_diff(p.z, center.z)
            <= 8 && !g.has(p) && 0 <= p.y <= 11),
{
    lemma_cube_range_contents(center, GENERATION_RANGE, Exclusion::InSet(&g));
    lemma_generation_step_complete(cube_range_spec(center, GENERATION_RANGE, Exclusion::InSet(&g)), g.keys());
}

/// Records the start-up chunks in `pos_register` and returns them in the order they
/// are to be generated.
pub fn generate_base_chunks(pos_register: &mut ChunkPosSet) -> (positions: Vec<ChunkPos>)
    ensures
        positions@ == spawn_positions(),
        final(pos_register).keys() == old(pos_register).keys() + spawn_positions().map_values(
            |p: ChunkPos| p.key(),
        ).to_set(),
{
    let mut positions: Vec<ChunkPos> = Vec::new();
    let mut i: i32 = 0;
    while i < SPAWN_CHUNKS
        invariant
            0 <= i <= SPAWN_CHUNKS,
            positions@ == spawn_positions().subrange(0, i as int),
            pos_register.keys() == old(pos_register).keys() + spawn_positions().subrange(0, i as int).map_values(
                |p: ChunkPos| p.key(),
            ).to_set(),
        decreases SPAWN_CHUNKS - i,
    {
        let pos = ChunkPos::from_single_value(i, SPAWN_RANGE);
        pos_register.insert(pos);
        positions.push(pos);
        i = i + 1;
        proof {
            let pre = spawn_positions().subrange(0, i - 1);
            let cur = spawn_positions().subrange(0, i as int);
            assert(cur =~= pre.push(pos));
            assert(positions@ =~= cur);
            assert(cur.map_values(|p: ChunkPos| p.key()) =~= pre.map_values(|p: ChunkPos| p.key()).push(pos.key()));
            pre.map_values(|p: ChunkPos| p.key()).lemma_push_to_set_commute(pos.key());
            assert(cur.map_values(|p: ChunkPos| p.key()).to_set() =~= pre.map_values(|p: ChunkPos| p.key()).to_set().insert(pos.key()));
            assert(pos_register.keys() =~= old(pos_register).keys() + cur.map_values(|p: ChunkPos| p.key()).to_set());
        }
    }
    assert(spawn_positions().subrange(0, SPAWN_CHUNKS as int) =~= spawn_positions());
    positions
}

/// The chunks to generate around a player standing in chunk `chunk_pos`: the cube of
/// half-size `GENERATION_RANGE` around it, nearest first, kept to the layers
/// `GEN_MIN_Y..=GEN_MAX_Y` and to positions not generated yet, which are then recorded
/// in `chunks_generated`.
pub fn generation_batch(chunk_pos: ChunkPos, chunks_generated: &mut ChunkPosSet) -> (batch: Vec<ChunkPos>)
    requires
        cube_ok(chunk_pos, GENERATION_RANGE),
    ensures
        (batch@, final(chunks_generated).keys()) == generation_step(
            cube_range_spec(chunk_pos, GENERATION_RANGE, Exclusion::InSet(&*old(chunks_generated))),
            old(chunks_generated).keys(),
        ),
        forall|p: ChunkPos| #[trigger] batch@.contains(p) <==> (abs_diff(p.x, chunk_pos.x) <= GENERATION_RANGE
            && abs_diff(p.y, chunk_pos.y) <= GENERATION_RANGE && abs_diff(p.z, chunk_pos.z) <= GENERATION_RANGE
            && !old(chunks_generated).has(p) && GEN_MIN_Y <= p.y <= GEN_MAX_Y),
{
    proof {
        lemma_generation_batch_contents(chunk_pos, *old(chunks_generated));
    }
    let array = ServerChunkMap::compute_chunks(chunk_pos, GENERATION_RANGE, &*chunks_generated);
    let ghost s = array@;
    let mut batch: Vec<ChunkPos> = Vec::new();
    let mut i: usize = 0;
    while i < array.len()
        invariant
            i <= s.len(),
            array@ == s,
            (batch@, chunks_generated.keys()) == generation_step(s.subrange(0, i as int), old(chunks_generated).keys()),
        decreases s.len() - i,
    {
        let p = array[i];
        proof {
            assert(s.subrange(0, i + 1).drop_last() =~= s.subrange(0, i as int));
        }
        if !chunks_generated.contains(&p) && GEN_MIN_Y <= p.y && p.y <= GEN_MAX_Y {
            if chunks_generated.insert(p) {
                batch.push(p);
            }
        }
        i = i + 1;
    }
    assert(s.subrange(0, s.len() as int) =~= s);
    proof {
        let gs = generation_step(s, old(chunks_generated).keys());
        assert(batch@ == gs.0);
        assert forall|p: ChunkPos| #[trigger] batch@.contains(p) <==> (abs_diff(p.x, chunk_pos.x) <= GENERATION_RANGE
            && abs_diff(p.y, chunk_pos.y) <= GENERATION_RANGE && abs_diff(p.z, chunk_pos.z) <= GENERATION_RANGE
            && !old(chunks_generated).has(p) && GEN_MIN_Y <= p.y <= GEN_MAX_Y) by {
            assert(gs.0.contains(p) == batch@.contains(p));
        }
    }
    batch
}


/// What the server's main loop learns from the other threads.
pub enum ServerEvent {
    /// Something a player (by id) did or asked.
    PlayerEvent { e_type: PlayerEvent, puid: u64 },
    InternalEvent(InternalEvent),
}

pub enum PlayerEvent {
    /// The player broke (left) or placed (right) the block at `pos`.
    BlockInteraction { pos: IBlockPos, interaction: BlockInteraction },
    /// The player waits for the chunks at these positions.
    AskChunk(Vec<ChunkPos>),
    /// The player stands in this chunk: generate what is missing around it.
    GenerateChunk(ChunkPos),
    EntityInteraction,
    ConnectPlayer,
    /// The player with this id left.
    DisconnectPlayer(u64),
}

pub enum InternalEvent {
    /// A generator thread finished a chunk.
    GeneratedChunk(Chunk),
}

/// What the main loop has to do after an event.
pub enum WorldAction {
    Nothing,
    /// Tell the player of the event the outcome of its block interaction.
    SendBlock { interaction: BlockInteraction, pos: IBlockPos, changed: bool },
    /// Hand these positions to the generator threads, in order.
    Generate(Vec<ChunkPos>),
    /// Forget the player with this id.
    ForgetPlayer(u64),
}

/// The state of the server world that events change: its chunks with the players'
/// pending requests, and the positions already handed to the generators.
pub struct ServerWorld {
    pub chunks: ServerChunkMap,
    pub chunks_generated: ChunkPosSet,
}

impl ServerWorld {
    /// Chunks are stored under their own positions and hold one value per block.
    pub open spec fn wf(&self) -> bool {
        self.chunks.map().wf() && all_chunks_wf(self.chunks.map())
    }

    /// A world without chunks, requests or generated positions.
    pub fn new() -> (w: ServerWorld)
        ensures
            w.wf(),
            w.chunks.map().chunks() == Map::<u128, Chunk>::empty(),
            w.chunks.pending() == Map::<u64, Seq<ChunkPos>>::empty(),
            w.chunks_generated.keys() == Set::<u128>::empty(),
    {
        ServerWorld { chunks: ServerChunkMap::new(), chunks_generated: ChunkPosSet::new() }
    }

    pub fn get_chunk_map(&self) -> (m: &ServerChunkMap)
        ensures
            *m == self.chunks,
    {
        &self.chunks
    }

    /// Applies one event: a generated chunk is added (see `ChunkMap::add_chunk`); a
    /// block interaction changes the block and is answered to the player; a chunk
    /// request is queued for the player; a player's position starts the generation of
    /// the chunks around it (see `generation_batch`); a player that leaves is forgotten.
    pub fn handle_event(&mut self, event: ServerEvent) -> (action: WorldAction)
        requires
            old(self).wf(),
            event matches ServerEvent::InternalEvent(InternalEvent::GeneratedChunk(c)) ==> c.wf(),
            event matches ServerEvent::PlayerEvent { e_type: PlayerEvent::BlockInteraction { pos, .. }, .. }
                ==> old(self).chunks.map().has(pos.chunk_of()),
            event matches ServerEvent::PlayerEvent { e_type: PlayerEvent::GenerateChunk(p), .. } ==> cube_ok(
                p,
                GENERATION_RANGE,
            ),
        ensures
            final(self).wf(),
            match event {
                ServerEvent::InternalEvent(InternalEvent::GeneratedChunk(c)) => {
                    &&& action is Nothing
                    &&& add_chunk_result(
                        old(self).chunks.map(),
                        c,
                        final(self).chunks.map(),
                        MIN_CHUNK_Y <= c.pos().y <= MAX_CHUNK_Y && !old(self).chunks.map().has(c.pos()),
                    )
                    &&& final(self).chunks.pending() == old(self).chunks.pending()
                    &&& final(self).chunks_generated.keys() == old(self).chunks_generated.keys()
                },
                ServerEvent::PlayerEvent { e_type, puid } => match e_type {
                    PlayerEvent::BlockInteraction { pos, interaction } => {
                        &&& action == (WorldAction::SendBlock {
                            interaction,
                            pos,
                            changed: old(self).chunks.map().block_at(pos) != block_value(interaction_block(interaction)),
                        })
                        &&& final(self).chunks.map().chunks().dom() == old(self).chunks.map().chunks().dom()
                        &&& final(self).chunks.map().block_at(pos) == block_value(interaction_block(interaction))
                        &&& forall|q: IBlockPos| q != pos ==> #[trigger] final(self).chunks.map().block_at(q)
                            == old(self).chunks.map().block_at(q)
                        &&& final(self).chunks.pending() == old(self).chunks.pending()
                        &&& final(self).chunks_generated.keys() == old(self).chunks_generated.keys()
                    },
                    PlayerEvent::AskChunk(v) => {
                        &&& action is Nothing
                        &&& final(self).chunks.map() == old(self).chunks.map()
                        &&& final(self).chunks.pending() == old(self).chunks.pending().insert(
                            puid,
                            old(self).chunks.pending_of(puid) + v@,
                        )
                        &&& final(self).chunks_generated.keys() == old(self).chunks_generated.keys()
                    },
                    PlayerEvent::GenerateChunk(p) => {
                        &&& action matches WorldAction::Generate(batch) && (batch@, final(self).chunks_generated.keys())
                            == generation_step(
                            cube_range_spec(p, GENERATION_RANGE, Exclusion::InSet(&old(self).chunks_generated)),
                            old(self).chunks_generated.keys(),
                        )
                        &&& final(self).chunks.map() == old(self).chunks.map()
                        &&& final(self).chunks.pending() == old(self).chunks.pending()
                    },
                    PlayerEvent::DisconnectPlayer(id) => {
                        &&& action == WorldAction::ForgetPlayer(id)
                        &&& final(self).chunks.map() == old(self).chunks.map()
                        &&& final(self).chunks.pending() == old(self).chunks.pending().remove(id)
                        &&& final(self).chunks_generated.keys() == old(self).chunks_generated.keys()
                    },
                    _ => {
                        &&& action is Nothing
                        &&& final(self).chunks.map() == old(self).chunks.map()
                        &&& final(self).chunks.pending() == old(self).chunks.pending()
                        &&& final(self).chunks_generated.keys() == old(self).chunks_generated.keys()
                    },
                },
            },
    {
        match event {
            ServerEvent::InternalEvent(InternalEvent::GeneratedChunk(chunk)) => {
                let ghost c = chunk;
                self.chunks.add_chunk(chunk);
                proof {
                    assert forall|p: ChunkPos| #[trigger] self.chunks.map().has(p) implies self.chunks.map().chunk(p).wf() by {
                        if p.key() != c.pos().key() {
                            assert(old(self).chunks.map().has(p));
                        }
                    }
                }
                WorldAction::Nothing
            },
            ServerEvent::PlayerEvent { e_type, puid } => match e_type {
                PlayerEvent::BlockInteraction { pos, interaction } => {
                    let ghost cp = pos.chunk_of();
                    proof {
                        crate::common::pos::lemma_split_recombines(pos);
                    }
                    let changed = self.chunks.interact_block(pos, interaction);
                    proof {
                        assert forall|p: ChunkPos| #[trigger] self.chunks.map().has(p) implies self.chunks.map().chunk(p).wf() by {
                            assert(old(self).chunks.map().has(p));
                        }
                    }
                    WorldAction::SendBlock { interaction, pos, changed }
                },
                PlayerEvent::AskChunk(v) => {
                    self.chunks.ask_for_chunks(puid, v);
                    WorldAction::Nothing
                },
                PlayerEvent::GenerateChunk(p) => {
                    let batch = generation_batch(p, &mut self.chunks_generated);
                    WorldAction::Generate(batch)
                },
                PlayerEvent::DisconnectPlayer(id) => {
                    self.chunks.ask_remove_player(&id);
                    WorldAction::ForgetPlayer(id)
                },
                _ => WorldAction::Nothing,
            },
        }
    }
}

} // verus!
