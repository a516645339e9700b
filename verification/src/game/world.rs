use vstd::prelude::*;
use std::collections::HashMap;
use crate::common::pos::{
    ChunkPos, IBlockPos, cpos, bpos, fits_i32, trunc_div, trunc_rem, div_trunc, rem_trunc, lemma_pos_key_injective,
};
use crate::game::chunk::Chunk;
use crate::mesh::chunk_mesh::{ChunkMesh, client_border};
use crate::mesh::faces::{mesh_vertices, mesh_indices, FACE_SLOTS};
use crate::server::chunk_mesh::chunk_origin_fits;

verus! {

broadcast use vstd::std_specs::hash::group_hash_axioms;

/// Half-size, in chunks, of the square of chunks kept around the player; also the
/// number of layers.
pub const WORLD_SIZE: i32 = 12;

/// Number of threads that generate chunks.
pub const WORLD_THREADS: u32 = 16;

/// The chunks of the client world, each found by its position.
pub struct WorldData {
    chunks: HashMap<u128, Chunk>,
}

/// The chunk that `get_block_at` reads for `p`: coordinates divided by 64, rounded
/// toward zero.
pub open spec fn trunc_chunk(p: IBlockPos) -> ChunkPos {
    cpos(trunc_div(p.x as int, 64), trunc_div(p.y as int, 64), trunc_div(p.z as int, 64))
}

/// The position inside that chunk: remainders with the sign of the coordinates.
pub open spec fn trunc_local(p: IBlockPos) -> IBlockPos {
    bpos(trunc_rem(p.x as int, 64), trunc_rem(p.y as int, 64), trunc_rem(p.z as int, 64))
}

impl WorldData {
    pub closed spec fn chunks(&self) -> Map<u128, Chunk> {
        self.chunks@
    }

    pub open spec fn has(&self, p: ChunkPos) -> bool {
        self.chunks().contains_key(p.key())
    }

    pub open spec fn chunk(&self, p: ChunkPos) -> Chunk {
        self.chunks()[p.key()]
    }

    /// Every chunk holds one value per block and is stored under its own position.
    pub open spec fn all_wf(&self) -> bool {
        forall|p: ChunkPos| #[trigger] self.has(p) ==> self.chunk(p).wf() && self.chunk(p).pos() == p
    }

    /// What `get_block_at` answers for `p`.
    pub open spec fn world_block_at(&self, p: IBlockPos) -> u16 {
        if self.has(trunc_chunk(p)) {
            self.chunk(trunc_chunk(p)).block_at(trunc_local(p))
        } else {
            0
        }
    }

    pub fn new() -> (w: WorldData)
        ensures
            w.chunks() == Map::<u128, Chunk>::empty(),
            w.all_wf(),
    {
        WorldData { chunks: HashMap::new() }
    }

    /// Stores a chunk under its position, replacing any chunk there.
    /// Afterwards every block whose chunk (as `get_block_at` finds it) is at the
    /// chunk's position reads from the chunk, and every other block reads as before.
    pub fn insert_chunk(&mut self, chunk: Chunk)
        ensures
            final(self).chunks() == old(self).chunks().insert(chunk.pos().key(), chunk),
            forall|p: IBlockPos| #[trigger] final(self).world_block_at(p) == if trunc_chunk(p) == chunk.pos() {
                chunk.block_at(trunc_local(p))
            } else {
                old(self).world_block_at(p)
            },
            old(self).all_wf() && chunk.wf() ==> final(self).all_wf(),
    {
        let key = chunk.get_chunk_pos().get_key();
        self.chunks.insert(key, chunk);
        assert forall|p: IBlockPos| #[trigger] self.world_block_at(p) == if trunc_chunk(p) == chunk.pos() {
            chunk.block_at(trunc_local(p))
        } else {
            old(self).world_block_at(p)
        } by {
            lemma_pos_key_injective(trunc_chunk(p), chunk.pos());
        }
        assert forall|p: ChunkPos| old(self).all_wf() && chunk.wf() && #[trigger] self.has(p) implies self.chunk(p).wf()
            && self.chunk(p).pos() == p by {
            lemma_pos_key_injective(p, chunk.pos());
            if p != chunk.pos() {
                assert(old(self).has(p));
            }
        }
    }

    pub fn contains_chunk(&self, pos: &ChunkPos) -> (r: bool)
        ensures
            r == self.has(*pos),
    {
        self.chunks.contains_key(&pos.get_key())
    }

    /// The block at an absolute position, read from the chunk found by dividing the
    /// coordinates by 64 rounded toward zero, at the remainders; 0 when that chunk is
    /// absent or the remainders are negative.
    pub fn get_block_at(&self, ipos: IBlockPos) -> (b: u16)
        requires
            self.all_wf(),
        ensures
            b == self.world_block_at(ipos),
    {
        let chunk_pos = ChunkPos::new(div_trunc(ipos.x, 64), div_trunc(ipos.y, 64), div_trunc(ipos.z, 64));
        let block_pos = IBlockPos::new(rem_trunc(ipos.x, 64), rem_trunc(ipos.y, 64), rem_trunc(ipos.z, 64));
        match self.chunks.get(&chunk_pos.get_key()) {
            Some(chunk) => {
                assert(self.has(chunk_pos));
                chunk.get_block_at(block_pos)
            },
            None => 0,
        }
    }

    /// The meshes of the chunks at `chunks` whose six neighbours are present, in order;
    /// the others are skipped.
    pub fn thread_chunk_mesh(&self, chunks: &Vec<ChunkPos>) -> (packed: Vec<PackedData>)
        requires
            self.all_wf(),
            forall|i: int| 0 <= i < chunks@.len() ==> self.has(#[trigger] chunks@[i]) && chunk_origin_fits(chunks@[i]),
        ensures
            packed@.len() == ready_to_mesh(*self, chunks@).len(),
            forall|i: int|
                0 <= i < packed@.len() ==> (#[trigger] packed@[i]).pos == ready_to_mesh(*self, chunks@)[i]
                    && is_chunk_mesh(*self, packed@[i].pos, packed@[i].mesh),
    {
        let ghost s = chunks@;
        let mut packed: Vec<PackedData> = Vec::new();
        let mut i: usize = 0;
        while i < chunks.len()
            invariant
                i <= s.len(),
                chunks@ == s,
                self.all_wf(),
                forall|j: int| 0 <= j < s.len() ==> self.has(#[trigger] s[j]) && chunk_origin_fits(s[j]),
                packed@.len() == ready_to_mesh(*self, s.subrange(0, i as int)).len(),
                forall|j: int|
                    0 <= j < packed@.len() ==> (#[trigger] packed@[j]).pos == ready_to_mesh(*self, s.subrange(0, i as int))[j]
                        && is_chunk_mesh(*self, packed@[j].pos, packed@[j].mesh),
            decreases s.len() - i,
        {
            let pos = chunks[i];
            proof {
                let sub = s.subrange(0, i + 1);
                assert(sub.drop_last() =~= s.subrange(0, i as int));
                assert(sub.last() == pos);
                assert(self.has(s[i as int]));
            }
            let ghost before = packed@;
            if self.has_all_neighbours(pos) {
                let chunk = match self.chunks.get(&pos.get_key()) {
                    Some(c) => c,
                    None => {
                        proof {
                            assert(false);
                        }
                        return packed;
                    },
                };
                assert(*chunk == self.chunk(pos));
                let mesh = chunk.build_mesh(self);
                packed.push(PackedData { pos, mesh });
            }
            i = i + 1;
            proof {
                reveal(Seq::filter);
                let sub = s.subrange(0, i as int);
                assert(sub.drop_last() =~= s.subrange(0, i - 1));
                assert(sub.last() == pos);
                assert(ready_to_mesh(*self, sub) == if all_neighbours(*self, pos) {
                    ready_to_mesh(*self, sub.drop_last()).push(pos)
                } else {
                    ready_to_mesh(*self, sub.drop_last())
                });
                assert forall|j: int|
                    0 <= j < packed@.len() implies (#[trigger] packed@[j]).pos == ready_to_mesh(*self, sub)[j]
                        && is_chunk_mesh(*self, packed@[j].pos, packed@[j].mesh) by {
                    if j < before.len() {
                        assert(packed@[j] == before[j]);
                    }
                }
            }
        }
        assert(s.subrange(0, s.len() as int) =~= s);
        packed
    }

    /// Sorts positions whose chunks arrived: those whose chunk and six neighbours are
    /// present are to be meshed now; those whose chunk and some neighbours are present
    /// are to be tried again; the others are dropped. Both lists keep the order of
    /// `positions`.
    pub fn receive_positions_to_build(&self, positions: &Vec<ChunkPos>) -> (r: (Vec<ChunkPos>, Vec<ChunkPos>))
        requires
            forall|i: int| 0 <= i < positions@.len() ==> chunk_origin_fits(#[trigger] positions@[i]),
        ensures
            r.0@ == positions@.filter(|p: ChunkPos| mesh_now(*self, p)),
            r.1@ == positions@.filter(|p: ChunkPos| mesh_later(*self, p)),
            r.0@ == positions@.filter(|p: ChunkPos| self.has(p) && all_neighbours(*self, p)),
    {
        assert((|p: ChunkPos| mesh_now(*self, p)) =~= (|p: ChunkPos| self.has(p) && all_neighbours(*self, p))) by {
            assert forall|p: ChunkPos| mesh_now(*self, p) == (self.has(p) && all_neighbours(*self, p)) by {
                lemma_mesh_now_needs_all_neighbours(*self, p);
            }
        }
        let ghost s = positions@;
        let mut now: Vec<ChunkPos> = Vec::new();
        let mut later: Vec<ChunkPos> = Vec::new();
        let mut i: usize = 0;
        while i < positions.len()
            invariant
                i <= s.len(),
                positions@ == s,
                forall|j: int| 0 <= j < s.len() ==> chunk_origin_fits(#[trigger] s[j]),
                now@ == s.subrange(0, i as int).filter(|p: ChunkPos| mesh_now(*self, p)),
                later@ == s.subrange(0, i as int).filter(|p: ChunkPos| mesh_later(*self, p)),
            decreases s.len() - i,
        {
            let p = positions[i];
            assert(chunk_origin_fits(s[i as int]));
            if self.contains_chunk(&p) {
                let count = self.neighbour_count(p);
                if count == 6 {
                    now.push(p);
                } else if count > 0 {
                    later.push(p);
                }
            }
            i = i + 1;
            proof {
                reveal(Seq::filter);
                let sub = s.subrange(0, i as int);
                assert(sub.drop_last() =~= s.subrange(0, i - 1));
                assert(sub.last() == p);
                assert(now@ =~= sub.filter(|p: ChunkPos| mesh_now(*self, p)));
                assert(later@ =~= sub.filter(|p: ChunkPos| mesh_later(*self, p)));
            }
        }
        assert(s.subrange(0, s.len() as int) =~= s);
        (now, later)
    }

    /// Number of the six face neighbours of `pos` that are present.
    fn neighbour_count(&self, pos: ChunkPos) -> (n: u8)
        requires
            chunk_origin_fits(pos),
        ensures
            n == neighbour_count(*self, pos),
    {
        let mut n: u8 = 0;
        if self.contains_chunk(&ChunkPos::new(pos.x - 1, pos.y, pos.z)) {
            n = n + 1;
        }
        if self.contains_chunk(&ChunkPos::new(pos.x + 1, pos.y, pos.z)) {
            n = n + 1;
        }
        if self.contains_chunk(&ChunkPos::new(pos.x, pos.y - 1, pos.z)) {
            n = n + 1;
        }
        if self.contains_chunk(&ChunkPos::new(pos.x, pos.y + 1, pos.z)) {
            n = n + 1;
        }
        if self.contains_chunk(&ChunkPos::new(pos.x, pos.y, pos.z - 1)) {
            n = n + 1;
        }
        if self.contains_chunk(&ChunkPos::new(pos.x, pos.y, pos.z + 1)) {
            n = n + 1;
        }
        n
    }

    /// The keys of the stored chunks, each once.
    fn chunk_keys(&self) -> (keys: Vec<u128>)
        ensures
            keys@.to_set() == self.chunks().dom(),
            keys@.no_duplicates(),
    {
        let mut keys: Vec<u128> = Vec::new();
        for k in it: self.chunks.keys()
            invariant
                keys@ == it.history().map_values(|r: &u128| *r),
                it.seq().unref().to_set() == self.chunks().dom(),
                it.seq().no_duplicates(),
                it.index() == it.seq().len() ==> keys@.to_set() == self.chunks().dom(),
                it.index() == it.seq().len() ==> keys@.no_duplicates(),
        {
            keys.push(*k);
            assert(it.index() + 1 == it.seq().len() ==> keys@ =~= it.seq().unref());
        }
        keys
    }

    /// Drops the chunks at `pos_s`, then every chunk too far from the player's chunk
    /// `current_chunk` (see `too_far`); the others stay as they were.
    pub fn clean_chunks(&mut self, pos_s: Vec<ChunkPos>, current_chunk: ChunkPos)
        requires
            fits_i32(current_chunk.x - KEEP_DISTANCE) && fits_i32(current_chunk.x + KEEP_DISTANCE),
            fits_i32(current_chunk.z - KEEP_DISTANCE) && fits_i32(current_chunk.z + KEEP_DISTANCE),
        ensures
            forall|k: u128| #[trigger] final(self).chunks().contains_key(k) <==> kept_by_clean(
                old(self).chunks(),
                pos_s@,
                current_chunk,
                k,
            ),
            forall|k: u128| #[trigger] final(self).chunks().contains_key(k) ==> final(self).chunks()[k] == old(
                self,
            ).chunks()[k],
            old(self).all_wf() ==> final(self).all_wf(),
            old(self).all_wf() ==> forall|p: ChunkPos| #[trigger] final(self).has(p) <==> old(self).has(p) && !pos_s@.contains(p)
                && !too_far(p, current_chunk),
    {
        let ghost m0 = self.chunks@;
        let mut i: usize = 0;
        while i < pos_s.len()
            invariant
                i <= pos_s@.len(),
                forall|k: u128| #[trigger] self.chunks@.contains_key(k) <==> m0.contains_key(k) && !is_key_of_one(pos_s@, i as int, k),
                forall|k: u128| #[trigger] self.chunks@.contains_key(k) ==> self.chunks@[k] == m0[k],
            decreases pos_s@.len() - i,
        {
            let key = pos_s[i].get_key();
            self.chunks.remove(&key);
            proof {
                assert forall|k: u128| is_key_of_one(pos_s@, i + 1, k) <==> is_key_of_one(pos_s@, i as int, k) || k == key by {
                    if k == key {
                        assert(pos_s@[i as int].key() == k);
                    }
                    if is_key_of_one(pos_s@, i + 1, k) && !is_key_of_one(pos_s@, i as int, k) {
                        let t = choose|t: int| 0 <= t < i + 1 && pos_s@[t].key() == k;
                        assert(t == i);
                    }
                }
            }
            i = i + 1;
        }
        let ghost m1 = self.chunks@;
        let keys = self.chunk_keys();
        let mut j: usize = 0;
        while j < keys.len()
            invariant
                j <= keys@.len(),
                keys@.to_set() == m1.dom(),
                keys@.no_duplicates(),
                fits_i32(current_chunk.x - KEEP_DISTANCE) && fits_i32(current_chunk.x + KEEP_DISTANCE),
                fits_i32(current_chunk.z - KEEP_DISTANCE) && fits_i32(current_chunk.z + KEEP_DISTANCE),
                forall|k: u128| #[trigger] self.chunks@.contains_key(k) <==> m1.contains_key(k) && !(
                    keys@.subrange(0, j as int).contains(k) && too_far(m1[k].pos(), current_chunk)),
                forall|k: u128| #[trigger] self.chunks@.contains_key(k) ==> self.chunks@[k] == m1[k],
            decreases keys@.len() - j,
        {
            let key = keys[j];
            assert(!keys@.subrange(0, j as int).contains(key)) by {
                if keys@.subrange(0, j as int).contains(key) {
                    let t = choose|t: int| 0 <= t < j && keys@.subrange(0, j as int)[t] == key;
                    assert(keys@[t] == keys@[j as int]);
                }
            }
            assert(keys@.to_set().contains(key));
            let far = match self.chunks.get(&key) {
                Some(c) => is_chunk_too_far_from_player(&c.get_chunk_pos(), current_chunk),
                None => false,
            };
            assert(far == too_far(m1[key].pos(), current_chunk));
            if far {
                self.chunks.remove(&key);
            }
            proof {
                let prev = keys@.subrange(0, j as int);
                let next = keys@.subrange(0, j + 1);
                assert forall|k: u128| k != key implies (next.contains(k) <==> prev.contains(k)) by {
                    if next.contains(k) {
                        let t = choose|t: int| 0 <= t < next.len() && next[t] == k;
                        assert(prev[t] == k);
                    }
                    if prev.contains(k) {
                        let t = choose|t: int| 0 <= t < prev.len() && prev[t] == k;
                        assert(next[t] == k);
                    }
                }
                assert(next.contains(key)) by {
                    assert(next[j as int] == key);
                }
            }
            j = j + 1;
        }
        proof {
            assert(keys@.subrange(0, keys@.len() as int) =~= keys@);
            assert forall|k: u128| #[trigger] self.chunks@.contains_key(k) <==> kept_by_clean(m0, pos_s@, current_chunk, k) by {
                if m1.contains_key(k) {
                    assert(keys@.to_set().contains(k));
                }
            }
            assert forall|p: ChunkPos| is_key_of_one(pos_s@, pos_s@.len() as int, #[trigger] p.key()) <==> pos_s@.contains(p) by {
                if is_key_of_one(pos_s@, pos_s@.len() as int, p.key()) {
                    let t = choose|t: int| 0 <= t < pos_s@.len() && #[trigger] pos_s@[t].key() == p.key();
                    lemma_pos_key_injective(pos_s@[t], p);
                }
                if pos_s@.contains(p) {
                    let t = choose|t: int| 0 <= t < pos_s@.len() && pos_s@[t] == p;
                    assert(pos_s@[t].key() == p.key());
                }
            }
            if old(self).all_wf() {
                assert forall|p: ChunkPos| #[trigger] self.has(p) implies self.chunk(p).wf() && self.chunk(p).pos() == p by {
                    assert(old(self).has(p));
                }
            }
        }
    }

    /// Whether the six face neighbours of `pos` are all present.
    pub fn has_all_neighbours(&self, pos: ChunkPos) -> (r: bool)
        requires
            fits_i32(pos.x - 1) && fits_i32(pos.x + 1),
            fits_i32(pos.y - 1) && fits_i32(pos.y + 1),
            fits_i32(pos.z - 1) && fits_i32(pos.z + 1),
        ensures
            r == (self.has(cpos(pos.x - 1, pos.y as int, pos.z as int)) && self.has(
                cpos(pos.x + 1, pos.y as int, pos.z as int),
            ) && self.has(cpos(pos.x as int, pos.y - 1, pos.z as int)) && self.has(
                cpos(pos.x as int, pos.y + 1, pos.z as int),
            ) && self.has(cpos(pos.x as int, pos.y as int, pos.z - 1)) && self.has(
                cpos(pos.x as int, pos.y as int, pos.z + 1),
            )),
    {
        self.contains_chunk(&ChunkPos::new(pos.x - 1, pos.y, pos.z)) && self.contains_chunk(
            &ChunkPos::new(pos.x + 1, pos.y, pos.z),
        ) && self.contains_chunk(&ChunkPos::new(pos.x, pos.y - 1, pos.z)) && self.contains_chunk(
            &ChunkPos::new(pos.x, pos.y + 1, pos.z),
        ) && self.contains_chunk(&ChunkPos::new(pos.x, pos.y, pos.z - 1)) && self.contains_chunk(
            &ChunkPos::new(pos.x, pos.y, pos.z + 1),
        )
    }
}

/// Distance, in chunks along each horizontal axis from the player's chunk, within
/// which the client keeps chunks and their meshes.
pub const KEEP_DISTANCE: i32 = 8;

/// Whether the chunk at `pos` lies more than `KEEP_DISTANCE` chunks from `current`
/// along a horizontal axis.
pub open spec fn too_far(pos: ChunkPos, current: ChunkPos) -> bool {
    pos.x < current.x - KEEP_DISTANCE || pos.x > current.x + KEEP_DISTANCE || pos.z < current.z - KEEP_DISTANCE
        || pos.z > current.z + KEEP_DISTANCE
}

/// Whether the chunk at `pos` is too far from the player standing in `current_chunk`
/// to be kept (see `too_far`).
pub fn is_chunk_too_far_from_player(pos: &ChunkPos, current_chunk: ChunkPos) -> (r: bool)
    requires
        fits_i32(current_chunk.x - KEEP_DISTANCE) && fits_i32(current_chunk.x + KEEP_DISTANCE),
        fits_i32(current_chunk.z - KEEP_DISTANCE) && fits_i32(current_chunk.z + KEEP_DISTANCE),
    ensures
        r == too_far(*pos, current_chunk),
{
    pos.x < current_chunk.x - KEEP_DISTANCE || pos.x > current_chunk.x + KEEP_DISTANCE || pos.z < current_chunk.z
        - KEEP_DISTANCE || pos.z > current_chunk.z + KEEP_DISTANCE
}

/// The positions of `positions` too far from `current_chunk`, in order: the meshes to
/// drop.
pub fn far_chunks(positions: &Vec<ChunkPos>, current_chunk: ChunkPos) -> (far: Vec<ChunkPos>)
    requires
        fits_i32(current_chunk.x - KEEP_DISTANCE) && fits_i32(current_chunk.x + KEEP_DISTANCE),
        fits_i32(current_chunk.z - KEEP_DISTANCE) && fits_i32(current_chunk.z + KEEP_DISTANCE),
    ensures
        far@ == positions@.filter(|p: ChunkPos| too_far(p, current_chunk)),
{
    let ghost s = positions@;
    let mut far: Vec<ChunkPos> = Vec::new();
    let mut i: usize = 0;
    while i < positions.len()
        invariant
            i <= s.len(),
            positions@ == s,
            fits_i32(current_chunk.x - KEEP_DISTANCE) && fits_i32(current_chunk.x + KEEP_DISTANCE),
            fits_i32(current_chunk.z - KEEP_DISTANCE) && fits_i32(current_chunk.z + KEEP_DISTANCE),
            far@ == s.subrange(0, i as int).filter(|p: ChunkPos| too_far(p, current_chunk)),
        decreases s.len() - i,
    {
        let p = positions[i];
        if is_chunk_too_far_from_player(&p, current_chunk) {
            far.push(p);
        }
        i = i + 1;
        proof {
            reveal(Seq::filter);
            let sub = s.subrange(0, i as int);
            assert(sub.drop_last() =~= s.subrange(0, i - 1));
            assert(sub.last() == p);
            assert(far@ =~= sub.filter(|p: ChunkPos| too_far(p, current_chunk)));
        }
    }
    assert(s.subrange(0, s.len() as int) =~= s);
    far
}

/// Whether `k` is the key of one of the first `n` positions of `s`.
pub open spec fn is_key_of_one(s: Seq<ChunkPos>, n: int, k: u128) -> bool {
    exists|t: int| 0 <= t < n && #[trigger] s[t].key() == k
}

/// Whether `clean_chunks` keeps the chunk stored under `k` in `m`: it is there, `k` is
/// not the key of one of `removed`, and the chunk is not too far from `current`.
pub open spec fn kept_by_clean(m: Map<u128, Chunk>, removed: Seq<ChunkPos>, current: ChunkPos, k: u128) -> bool {
    &&& m.contains_key(k)
    &&& !is_key_of_one(removed, removed.len() as int, k)
    &&& !too_far(m[k].pos(), current)
}

/// Number of the six face neighbours of `p` that are in `w`.
pub open spec fn neighbour_count(w: WorldData, p: ChunkPos) -> int {
    (if w.has(cpos(p.x - 1, p.y as int, p.z as int)) { 1int } else { 0int })
        + (if w.has(cpos(p.x + 1, p.y as int, p.z as int)) { 1int } else { 0int })
        + (if w.has(cpos(p.x as int, p.y - 1, p.z as int)) { 1int } else { 0int })
        + (if w.has(cpos(p.x as int, p.y + 1, p.z as int)) { 1int } else { 0int })
        + (if w.has(cpos(p.x as int, p.y as int, p.z - 1)) { 1int } else { 0int })
        + (if w.has(cpos(p.x as int, p.y as int, p.z + 1)) { 1int } else { 0int })
}

/// A position to mesh now: its chunk and all six neighbours are present.
pub open spec fn mesh_now(w: WorldData, p: ChunkPos) -> bool {
    w.has(p) && neighbour_count(w, p) == 6
}

/// A position to try again later: its chunk and some but not all of its neighbours
/// are present.
pub open spec fn mesh_later(w: WorldData, p: ChunkPos) -> bool {
    w.has(p) && 0 < neighbour_count(w, p) < 6
}

/// A present chunk is meshed now exactly when each of its six face neighbours
/// (`x - 1`, `x + 1`, `y - 1`, `y + 1`, `z - 1`, `z + 1`) is present, and tried again
/// later exactly when some but not all of them are.
pub proof fn lemma_mesh_now_needs_all_neighbours(w: WorldData, p: ChunkPos)
    ensures
        mesh_now(w, p) <==> w.has(p) && w.has(cpos(p.x - 1, p.y as int, p.z as int)) && w.has(
            cpos(p.x + 1, p.y as int, p.z as int),
        ) && w.has(cpos(p.x as int, p.y - 1, p.z as int)) && w.has(cpos(p.x as int, p.y + 1, p.z as int))
            && w.has(cpos(p.x as int, p.y as int, p.z - 1)) && w.has(cpos(p.x as int, p.y as int, p.z + 1)),
        mesh_now(w, p) <==> w.has(p) && all_neighbours(w, p),
        mesh_later(w, p) <==> w.has(p) && !all_neighbours(w, p) && (w.has(cpos(p.x - 1, p.y as int, p.z as int))
            || w.has(cpos(p.x + 1, p.y as int, p.z as int)) || w.has(cpos(p.x as int, p.y - 1, p.z as int))
            || w.has(cpos(p.x as int, p.y + 1, p.z as int)) || w.has(cpos(p.x as int, p.y as int, p.z - 1))
            || w.has(cpos(p.x as int, p.y as int, p.z + 1))),
{
}

/// A built mesh and the position of its chunk.
pub struct PackedData {
    pub pos: ChunkPos,
    pub mesh: ChunkMesh,
}

/// Whether the six face neighbours of `p` are all in `w`.
pub open spec fn all_neighbours(w: WorldData, p: ChunkPos) -> bool {
    &&& w.has(cpos(p.x - 1, p.y as int, p.z as int))
    &&& w.has(cpos(p.x + 1, p.y as int, p.z as int))
    &&& w.has(cpos(p.x as int, p.y - 1, p.z as int))
    &&& w.has(cpos(p.x as int, p.y + 1, p.z as int))
    &&& w.has(cpos(p.x as int, p.y as int, p.z - 1))
    &&& w.has(cpos(p.x as int, p.y as int, p.z + 1))
}

/// The positions of `s` whose six neighbours are in `w`, in order.
pub open spec fn ready_to_mesh(w: WorldData, s: Seq<ChunkPos>) -> Seq<ChunkPos> {
    s.filter(|p: ChunkPos| all_neighbours(w, p))
}

/// `m` is the mesh, not yet linked, of the chunk of `w` at `p`.
pub open spec fn is_chunk_mesh(w: WorldData, p: ChunkPos, m: ChunkMesh) -> bool {
    &&& m.vao == 0 && m.vbo == 0 && m.ebo == 0
    &&& !m.linked
    &&& m.vertices@ == mesh_vertices(w.chunk(p).blocks(), client_border(w, p), FACE_SLOTS as nat)
    &&& m.indices@ == mesh_indices(w.chunk(p).blocks(), client_border(w, p), FACE_SLOTS as nat)
    &&& m.nb_indices == m.indices@.len()
}

/// The missing chunks of column `(px + dx, pz + dz)`, over its first `n` layers.
pub open spec fn column_missing(w: WorldData, px: int, pz: int, dx: int, dz: int, n: nat) -> Seq<ChunkPos>
    decreases n,
{
    if n == 0 {
        seq![]
    } else {
        let p = cpos(px + dx, n - 1, pz + dz);
        column_missing(w, px, pz, dx, dz, (n - 1) as nat) + if w.has(p) {
            seq![]
        } else {
            seq![p]
        }
    }
}

/// The missing chunks of the row `x == px + dx`, over its first `n` columns from
/// `dz == -WORLD_SIZE`.
pub open spec fn row_missing(w: WorldData, px: int, pz: int, dx: int, n: nat) -> Seq<ChunkPos>
    decreases n,
{
    if n == 0 {
        seq![]
    } else {
        row_missing(w, px, pz, dx, (n - 1) as nat) + column_missing(
            w,
            px,
            pz,
            dx,
            (n - 1) - WORLD_SIZE,
            WORLD_SIZE as nat,
        )
    }
}

/// The missing chunks of the first `n` rows from `dx == -WORLD_SIZE`.
pub open spec fn square_missing(w: WorldData, px: int, pz: int, n: nat) -> Seq<ChunkPos>
    decreases n,
{
    if n == 0 {
        seq![]
    } else {
        square_missing(w, px, pz, (n - 1) as nat) + row_missing(
            w,
            px,
            pz,
            (n - 1) - WORLD_SIZE,
            (2 * WORLD_SIZE) as nat,
        )
    }
}

proof fn lemma_column_missing_contents(w: WorldData, px: int, pz: int, dx: int, dz: int, n: nat)
    requires
        fits_i32(px + dx),
        fits_i32(pz + dz),
        n <= WORLD_SIZE,
    ensures
        forall|p: ChunkPos| #[trigger] column_missing(w, px, pz, dx, dz, n).contains(p) <==> (!w.has(p) && p.x == px
            + dx && p.z == pz + dz && 0 <= p.y < n),
    decreases n,
{
    broadcast use vstd::seq_lib::group_seq_properties;

    if n > 0 {
        lemma_column_missing_contents(w, px, pz, dx, dz, (n - 1) as nat);
        let q = cpos(px + dx, n - 1, pz + dz);
        let prev = column_missing(w, px, pz, dx, dz, (n - 1) as nat);
        let last: Seq<ChunkPos> = if w.has(q) { seq![] } else { seq![q] };
        assert forall|p: ChunkPos| #[trigger] column_missing(w, px, pz, dx, dz, n).contains(p) <==> (!w.has(p) && p.x
            == px + dx && p.z == pz + dz && 0 <= p.y < n) by {
            assert((prev + last).contains(p) <==> prev.contains(p) || last.contains(p));
            if p.x == px + dx && p.z == pz + dz && p.y == n - 1 {
                assert(p == q);
            }
            if last.contains(p) {
                assert(last[0] == p);
            }
        }
    }
}

proof fn lemma_row_missing_contents(w: WorldData, px: int, pz: int, dx: int, n: nat)
    requires
        fits_i32(px + dx),
        fits_i32(pz - WORLD_SIZE),
        fits_i32(pz + WORLD_SIZE),
        n <= 2 * WORLD_SIZE,
    ensures
        forall|p: ChunkPos| #[trigger] row_missing(w, px, pz, dx, n).contains(p) <==> (!w.has(p) && p.x == px + dx
            && pz - WORLD_SIZE <= p.z < pz - WORLD_SIZE + n && 0 <= p.y < WORLD_SIZE),
    decreases n,
{
    broadcast use vstd::seq_lib::group_seq_properties;

    if n > 0 {
        lemma_row_missing_contents(w, px, pz, dx, (n - 1) as nat);
        let dz = (n - 1) - WORLD_SIZE;
        lemma_column_missing_contents(w, px, pz, dx, dz, WORLD_SIZE as nat);
        let prev = row_missing(w, px, pz, dx, (n - 1) as nat);
        let col = column_missing(w, px, pz, dx, dz, WORLD_SIZE as nat);
        assert forall|p: ChunkPos| #[trigger] row_missing(w, px, pz, dx, n).contains(p) <==> (!w.has(p) && p.x == px
            + dx && pz - WORLD_SIZE <= p.z < pz - WORLD_SIZE + n && 0 <= p.y < WORLD_SIZE) by {
            assert((prev + col).contains(p) <==> prev.contains(p) || col.contains(p));
        }
    }
}

proof fn lemma_square_missing_contents(w: WorldData, px: int, pz: int, n: nat)
    requires
        fits_i32(px - WORLD_SIZE),
        fits_i32(px + WORLD_SIZE),
        fits_i32(pz - WORLD_SIZE),
        fits_i32(pz + WORLD_SIZE),
        n <= 2 * WORLD_SIZE,
    ensures
        forall|p: ChunkPos| #[trigger] square_missing(w, px, pz, n).contains(p) <==> (!w.has(p) && px - WORLD_SIZE
            <= p.x < px - WORLD_SIZE + n && pz - WORLD_SIZE <= p.z < pz + WORLD_SIZE && 0 <= p.y < WORLD_SIZE),
    decreases n,
{
    broadcast use vstd::seq_lib::group_seq_properties;

    if n > 0 {
        lemma_square_missing_contents(w, px, pz, (n - 1) as nat);
        let dx = (n - 1) - WORLD_SIZE;
        lemma_row_missing_contents(w, px, pz, dx, (2 * WORLD_SIZE) as nat);
        let prev = square_missing(w, px, pz, (n - 1) as nat);
        let row = row_missing(w, px, pz, dx, (2 * WORLD_SIZE) as nat);
        assert forall|p: ChunkPos| #[trigger] square_missing(w, px, pz, n).contains(p) <==> (!w.has(p) && px
            - WORLD_SIZE <= p.x < px - WORLD_SIZE + n && pz - WORLD_SIZE <= p.z < pz + WORLD_SIZE && 0 <= p.y
            < WORLD_SIZE) by {
            assert((prev + row).contains(p) <==> prev.contains(p) || row.contains(p));
        }
    }
}

/// The chunks to build around a player standing in chunk `(px, _, pz)` are exactly
/// the absent ones with `x` in `px - 12..px + 12`, `z` in `pz - 12..pz + 12` and
/// layer in `0..12`.
pub proof fn lemma_chunks_to_build_contents(w: WorldData, px: i32, pz: i32)
    requires
        fits_i32(px - WORLD_SIZE) && fits_i32(px + WORLD_SIZE),
        fits_i32(pz - WORLD_SIZE) && fits_i32(pz + WORLD_SIZE),
    ensures
        forall|p: ChunkPos| #[trigger] square_missing(w, px as int, pz as int, (2 * WORLD_SIZE) as nat).contains(p)
            <==> (!w.has(p) && px - 12 <= p.x < px + 12 && pz - 12 <= p.z < pz + 12 && 0 <= p.y < 12),
{
    lemma_square_missing_contents(w, px as int, pz as int, (2 * WORLD_SIZE) as nat);
}

impl WorldData {
    /// The chunks absent from the world among those with `x` in
    /// `px - WORLD_SIZE..px + WORLD_SIZE`, `z` likewise around `pz`, and layers
    /// `0..WORLD_SIZE`, in the order x, z, layer.
    pub fn chunks_to_build(&self, player_ipos: ChunkPos) -> (v: Vec<ChunkPos>)
        requires
            fits_i32(player_ipos.x - WORLD_SIZE) && fits_i32(player_ipos.x + WORLD_SIZE),
            fits_i32(player_ipos.z - WORLD_SIZE) && fits_i32(player_ipos.z + WORLD_SIZE),
        ensures
            v@ == square_missing(*self, player_ipos.x as int, player_ipos.z as int, (2 * WORLD_SIZE) as nat),
            forall|p: ChunkPos| #[trigger] v@.contains(p) <==> (!self.has(p) && player_ipos.x - WORLD_SIZE <= p.x
                < player_ipos.x + WORLD_SIZE && player_ipos.z - WORLD_SIZE <= p.z < player_ipos.z + WORLD_SIZE && 0
                <= p.y < WORLD_SIZE),
    {
        proof {
            lemma_chunks_to_build_contents(*self, player_ipos.x, player_ipos.z);
        }
        let px = player_ipos.x;
        let pz = player_ipos.z;
        let mut v: Vec<ChunkPos> = Vec::new();
        let mut x: i32 = -WORLD_SIZE;
        while x < WORLD_SIZE
            invariant
                -WORLD_SIZE <= x <= WORLD_SIZE,
                px == player_ipos.x,
                pz == player_ipos.z,
                fits_i32(px - WORLD_SIZE) && fits_i32(px + WORLD_SIZE),
                fits_i32(pz - WORLD_SIZE) && fits_i32(pz + WORLD_SIZE),
                v@ == square_missing(*self, px as int, pz as int, (x + WORLD_SIZE) as nat),
            decreases WORLD_SIZE - x,
        {
            let ghost base = v@;
            let mut z: i32 = -WORLD_SIZE;
            while z < WORLD_SIZE
                invariant
                    -WORLD_SIZE <= x < WORLD_SIZE,
                    -WORLD_SIZE <= z <= WORLD_SIZE,
                    fits_i32(px - WORLD_SIZE) && fits_i32(px + WORLD_SIZE),
                    fits_i32(pz - WORLD_SIZE) && fits_i32(pz + WORLD_SIZE),
                    base == square_missing(*self, px as int, pz as int, (x + WORLD_SIZE) as nat),
                    v@ == base + row_missing(*self, px as int, pz as int, x as int, (z + WORLD_SIZE) as nat),
                decreases WORLD_SIZE - z,
            {
                let ghost row_base = v@;
                let mut y: i32 = 0;
                while y < WORLD_SIZE
                    invariant
                        -WORLD_SIZE <= x < WORLD_SIZE,
                        -WORLD_SIZE <= z < WORLD_SIZE,
                        0 <= y <= WORLD_SIZE,
                        fits_i32(px - WORLD_SIZE) && fits_i32(px + WORLD_SIZE),
                        fits_i32(pz - WORLD_SIZE) && fits_i32(pz + WORLD_SIZE),
                        row_base == base + row_missing(*self, px as int, pz as int, x as int, (z + WORLD_SIZE) as nat),
                        v@ == row_base + column_missing(*self, px as int, pz as int, x as int, z as int, y as nat),
                    decreases WORLD_SIZE - y,
                {
                    let chunk_pos = ChunkPos::new(px + x, y, pz + z);
                    if !self.contains_chunk(&chunk_pos) {
                        v.push(chunk_pos);
                    }
                    y = y + 1;
                    assert(v@ =~= row_base + column_missing(*self, px as int, pz as int, x as int, z as int, y as nat));
                }
                z = z + 1;
                assert(v@ =~= base + row_missing(*self, px as int, pz as int, x as int, (z + WORLD_SIZE) as nat));
            }
            x = x + 1;
            assert(v@ =~= square_missing(*self, px as int, pz as int, (x + WORLD_SIZE) as nat));
        }
        v
    }
}

/// Chunks handed to each generating thread: a share of `len` rounded up, at least 4.
pub open spec fn chunks_per_thread(len: u32) -> int {
    let share = (len + WORLD_THREADS - 1) / (WORLD_THREADS as int);
    if share > 4 { share } else { 4 }
}

/// Number of generating threads for `len` chunks: enough shares to cover them, at
/// least one.
pub open spec fn thread_count(len: u32) -> int {
    if len == 0 {
        1
    } else {
        (len + chunks_per_thread(len) - 1) / chunks_per_thread(len)
    }
}

/// The range of chunk indices that thread `i` generates.
pub open spec fn thread_range(len: u32, i: int) -> (u32, u32) {
    let c = chunks_per_thread(len);
    let end = if c * (i + 1) < len { c * (i + 1) } else { len as int };
    ((c * i) as u32, end as u32)
}

/// The index ranges that the generating threads take of `len` chunks to build: thread
/// `i` takes `chunks_per_thread * i` up to the next share or `len`, and no thread is
/// started after the one that reaches `len`.
pub fn thread_ranges(len: u32) -> (ranges: Vec<(u32, u32)>)
    requires
        len <= u32::MAX - (WORLD_THREADS - 1),
    ensures
        ranges@.len() == thread_count(len),
        ranges@.len() <= WORLD_THREADS,
        forall|i: int| 0 <= i < ranges@.len() ==> #[trigger] ranges@[i] == thread_range(len, i),
{
    let share = (len + (WORLD_THREADS - 1)) / WORLD_THREADS;
    let per_thread: u32 = if share > 4 { share } else { 4 };
    let ghost c = per_thread as int;
    proof {
        assert(c * 16 >= len) by (nonlinear_arith)
            requires
                share == (len + 15) / 16,
                c >= share,
        ;
        assert(c * 16 <= u32::MAX) by (nonlinear_arith)
            requires
                share == (len + 15) / 16,
                len + 15 <= u32::MAX,
                c == (if share > 4 { share } else { 4 }),
        ;
    }
    let mut ranges: Vec<(u32, u32)> = Vec::new();
    let mut i: u32 = 0;
    while i < WORLD_THREADS
        invariant
            i <= WORLD_THREADS,
            c == per_thread,
            c == chunks_per_thread(len),
            c >= 4,
            c * 16 >= len,
            c * 16 <= u32::MAX,
            ranges@.len() == i,
            c * i < len || i == 0,
            forall|j: int| 0 <= j < i ==> #[trigger] ranges@[j] == thread_range(len, j),
        decreases WORLD_THREADS - i,
    {
        proof {
            assert(c * (i + 1) <= c * 16) by (nonlinear_arith)
                requires
                    i + 1 <= 16,
                    c >= 0,
            ;
        }
        let start = per_thread * i;
        let next = per_thread * (i + 1);
        let end = if next < len { next } else { len };
        ranges.push((start, end));
        assert(ranges@[i as int] == thread_range(len, i as int));
        if end == len {
            proof {
                assert(thread_count(len) == i + 1) by (nonlinear_arith)
                    requires
                        c * (i + 1) >= len,
                        c * i < len || i == 0,
                        c >= 4,
                        thread_count(len) == (if len == 0 { 1 } else { (len + c - 1) / c }),
                ;
            }
            return ranges;
        }
        i = i + 1;
    }
    proof {
        assert(false) by (nonlinear_arith)
            requires
                c * 16 >= len,
                c * 16 < len,
        ;
    }
    ranges
}


/// The ranges of `thread_ranges` share out the chunks to build among the threads:
/// the first starts at 0, the last ends at `len`, none is empty, and each starts
/// where the one before ends, so each chunk goes to exactly one thread.
pub proof fn lemma_thread_ranges_partition(len: u32, i: int)
    requires
        0 < len <= u32::MAX - (WORLD_THREADS - 1),
        0 <= i < thread_count(len),
    ensures
        thread_range(len, 0).0 == 0,
        thread_range(len, thread_count(len) - 1).1 == len,
        thread_range(len, i).0 < thread_range(len, i).1,
        i + 1 < thread_count(len) ==> thread_range(len, i).1 == thread_range(len, i + 1).0,
{
    let c = chunks_per_thread(len);
    let n = thread_count(len);
    let l = len as int;
    assert(c >= 4);
    assert(c * n >= l && c * (n - 1) < l) by (nonlinear_arith)
        requires
            c >= 4,
            l > 0,
            n == (l + c - 1) / c,
    ;
    assert(c * i <= c * (n - 1)) by (nonlinear_arith)
        requires
            c >= 0,
            i <= n - 1,
    ;
    assert(c * (i + 1) == c * i + c) by (nonlinear_arith);
    if i + 1 < n {
        assert(c * (i + 1) <= c * (n - 1)) by (nonlinear_arith)
            requires
                c >= 0,
                i + 1 <= n - 1,
        ;
    }
    assert(c * 0 == 0);
    assert(c * (n - 1 + 1) == c * n) by (nonlinear_arith);
}

} // verus!
