use vstd::prelude::*;
use crate::common::chunkmap::ChunkMap;
use crate::common::pos::{ChunkPos, IBlockPos, CHUNK_VOLUME, bpos, fits_i32};
use crate::mesh::faces::{
    build_faces, mesh_vertices, mesh_indices, face_dir, in_chunk3, vx, vy, vz, border_slot,
    BORDER_CELLS, FACE_SLOTS,
};
use crate::common::bits::{Bits, bits_of, lsb0_bits};
use crate::server::bit_pieces::{bit_pieces, piece, piece_count};

verus! {

/// In-chunk coordinates of border cell `s` (`s == f * 4096 + a * 64 + b`): the cell
/// just beyond face `f` of the chunk (see `face_dir`), at the two coordinates `a`, `b`
/// that stay inside the chunk.
pub open spec fn cell_local(s: int) -> (int, int, int) {
    let f = s / 4096;
    let a = (s / 64) % 64;
    let b = s % 64;
    if f == 0 {
        (a, b, 64)
    } else if f == 1 {
        (a, b, -1)
    } else if f == 2 {
        (a, 64, b)
    } else if f == 3 {
        (a, -1, b)
    } else if f == 4 {
        (64, a, b)
    } else {
        (-1, a, b)
    }
}

/// Absolute position of border cell `s` of the chunk at `cp`.
pub open spec fn cell_global(cp: ChunkPos, s: int) -> IBlockPos {
    let (lx, ly, lz) = cell_local(s);
    bpos(cp.x * 64 + lx, cp.y * 64 + ly, cp.z * 64 + lz)
}

/// Whether each border cell of the chunk at `cp` is empty in `map` (a cell whose chunk
/// is absent counts as empty).
pub open spec fn server_border(map: ChunkMap, cp: ChunkPos) -> Seq<bool> {
    Seq::new(BORDER_CELLS as nat, |s: int| map.block_at(cell_global(cp, s)) == 0)
}

/// The absolute position of the neighbour that face `f` of block `v` looks at.
pub open spec fn neighbour_global(cp: ChunkPos, v: int, f: int) -> IBlockPos {
    let (dx, dy, dz) = face_dir(f);
    bpos(cp.x * 64 + vx(v) + dx, cp.y * 64 + vy(v) + dy, cp.z * 64 + vz(v) + dz)
}

/// Whether building the mesh reads a block of another chunk for face `f` of block `v`:
/// the block is not empty and its neighbour lies beyond the chunk.
pub open spec fn reads_neighbour_chunk(blocks: Seq<u16>, v: int, f: int) -> bool {
    let (dx, dy, dz) = face_dir(f);
    0 <= v < CHUNK_VOLUME && 0 <= f < 6 && blocks[v] != 0 && !in_chunk3(vx(v) + dx, vy(v) + dy, vz(v) + dz)
}

/// The border cell that the mesh reads for face `f` of block `v` is that face's
/// neighbour.
pub proof fn lemma_border_slot_is_neighbour(cp: ChunkPos, v: int, f: int)
    requires
        0 <= v < CHUNK_VOLUME,
        0 <= f < 6,
        !in_chunk3(vx(v) + face_dir(f).0, vy(v) + face_dir(f).1, vz(v) + face_dir(f).2),
    ensures
        0 <= border_slot(v, f) < BORDER_CELLS,
        cell_global(cp, border_slot(v, f)) == neighbour_global(cp, v, f),
{
    let x = vx(v);
    let y = vy(v);
    let z = vz(v);
    assert(0 <= x < 64 && 0 <= y < 64 && 0 <= z < 64);
    let s = border_slot(v, f);
    let a = if f <= 3 { x } else { y };
    let b = if f <= 1 { y } else { z };
    assert(s == f * 4096 + a * 64 + b);
    assert(s / 4096 == f) by (nonlinear_arith)
        requires
            s == f * 4096 + a * 64 + b,
            0 <= a < 64,
            0 <= b < 64,
    ;
    assert((s / 64) % 64 == a) by (nonlinear_arith)
        requires
            s == f * 4096 + a * 64 + b,
            0 <= a < 64,
            0 <= b < 64,
            0 <= f,
    ;
    assert(s % 64 == b) by (nonlinear_arith)
        requires
            s == f * 4096 + a * 64 + b,
            0 <= a < 64,
            0 <= b < 64,
            0 <= f,
    ;
}

/// The mesh of one chunk as the server builds it, in the GPU's packed format.
pub struct ServerChunkMesh {
    pub vertices: Vec<u32>,
    pub indices: Vec<u32>,
    pub chunk_pos: ChunkPos,
}

/// Every chunk of the map holds one value per block.
pub open spec fn all_chunks_wf(map: ChunkMap) -> bool {
    forall|p: ChunkPos| #[trigger] map.has(p) ==> map.chunk(p).wf()
}

/// The chunk coordinates of `cp`, times 64, stay inside `i32` with a block to spare on
/// each side.
pub open spec fn chunk_origin_fits(cp: ChunkPos) -> bool {
    &&& fits_i32(cp.x * 64 - 1) && fits_i32(cp.x * 64 + 64)
    &&& fits_i32(cp.y * 64 - 1) && fits_i32(cp.y * 64 + 64)
    &&& fits_i32(cp.z * 64 - 1) && fits_i32(cp.z * 64 + 64)
}

/// Absolute position of border cell `s` of the chunk at `chunk_pos` (see
/// `cell_global`).
pub(crate) fn border_cell(chunk_pos: ChunkPos, s: usize) -> (global: IBlockPos)
    requires
        s < BORDER_CELLS,
        chunk_origin_fits(chunk_pos),
    ensures
        global == cell_global(chunk_pos, s as int),
{
        let f = s / 4096;
        let a = ((s / 64) % 64) as i32;
        let b = (s % 64) as i32;
        let local = if f == 0 {
            IBlockPos::new(a, b, 64)
        } else if f == 1 {
            IBlockPos::new(a, b, -1)
        } else if f == 2 {
            IBlockPos::new(a, 64, b)
        } else if f == 3 {
            IBlockPos::new(a, -1, b)
        } else if f == 4 {
            IBlockPos::new(64, a, b)
        } else {
            IBlockPos::new(-1, a, b)
        };
        let global = chunk_pos.add_iblock(local);
        assert(global == cell_global(chunk_pos, s as int));
    global
}

/// Emptiness of every border cell of the chunk at `chunk_pos`.
fn border_of(chunks_map: &ChunkMap, chunk_pos: ChunkPos) -> (border: Vec<bool>)
    requires
        all_chunks_wf(*chunks_map),
        chunk_origin_fits(chunk_pos),
    ensures
        border@ == server_border(*chunks_map, chunk_pos),
{
    let mut border: Vec<bool> = Vec::new();
    let mut s: usize = 0;
    while s < BORDER_CELLS
        invariant
            s <= BORDER_CELLS,
            all_chunks_wf(*chunks_map),
            chunk_origin_fits(chunk_pos),
            border@.len() == s,
            forall|j: int| 0 <= j < s ==> border@[j] == #[trigger] server_border(*chunks_map, chunk_pos)[j],
        decreases BORDER_CELLS - s,
    {
        let global = border_cell(chunk_pos, s);
        let empty = chunks_map.get_block_at(global) == 0;
        border.push(empty);
        s = s + 1;
    }
    assert(border@ =~= server_border(*chunks_map, chunk_pos));
    border
}

/// The four bytes of `w`, least significant first.
pub open spec fn u32_le(w: u32) -> Seq<u8> {
    seq![(w % 256) as u8, ((w / 256) % 256) as u8, ((w / 65536) % 256) as u8, (w / 16777216) as u8]
}

/// The bytes of each word of `s` in turn, least significant first.
pub open spec fn words_le(s: Seq<u32>) -> Seq<u8>
    decreases s.len(),
{
    if s.len() == 0 {
        seq![]
    } else {
        words_le(s.drop_last()) + u32_le(s.last())
    }
}

/// Appends the little-endian bytes of `words` to `out`.
fn push_words_le(words: &Vec<u32>, out: &mut Vec<u8>)
    ensures
        final(out)@ == old(out)@ + words_le(words@),
{
    let mut i: usize = 0;
    while i < words.len()
        invariant
            i <= words@.len(),
            out@ == old(out)@ + words_le(words@.subrange(0, i as int)),
        decreases words@.len() - i,
    {
        let w = words[i];
        let ghost before = out@;
        out.push((w % 256) as u8);
        out.push(((w / 256) % 256) as u8);
        out.push(((w / 65536) % 256) as u8);
        out.push((w / 16777216) as u8);
        proof {
            let sub = words@.subrange(0, i + 1);
            assert(sub.drop_last() =~= words@.subrange(0, i as int));
            assert(out@ =~= before + u32_le(w));
        }
        i = i + 1;
    }
    assert(words@.subrange(0, words@.len() as int) =~= words@);
}

/// The compression level for meshes: 10 when the library accepts it, else the highest
/// accepted level, and none when the accepted range `lo..=hi` is empty.
pub open spec fn level_choice(lo: i32, hi: i32) -> Option<i32> {
    if lo <= 10 <= hi {
        Some(10i32)
    } else if lo <= hi {
        Some(hi)
    } else {
        None
    }
}

/// Exec form of `level_choice`.
pub fn choose_level(lo: i32, hi: i32) -> (level: Option<i32>)
    ensures
        level == level_choice(lo, hi),
{
    if lo <= 10 && 10 <= hi {
        Some(10)
    } else if lo <= hi {
        Some(hi)
    } else {
        None
    }
}

/// The frame that zstd makes of `data` at compression level `level`.
pub uninterp spec fn zstd_compressed(data: Seq<u8>, level: i32) -> Seq<u8>;

/// `zstd::bulk::compress`: compresses `data` into a buffer of `ZSTD_compressBound`
/// bytes, with which zstd documents that there is room for the frame; its output is
/// the zstd frame of `data` at `level`, a function of the two alone. For a level in
/// the range zstd accepts it succeeds; the C library running out of memory is not
/// considered. Longer data would overflow the size of the buffer.
#[verifier::external_body]
fn zstd_compress(data: &Vec<u8>, level: i32) -> (r: Option<Vec<u8>>)
    requires
        data@.len() <= usize::MAX / 4,
    ensures
        r matches Some(c) ==> c@ == zstd_compressed(data@, level),
        ZSTD_MIN_LEVEL <= level <= ZSTD_MAX_LEVEL ==> r is Some,
{
    zstd::bulk::compress(data.as_slice(), level).ok()
}

/// Lowest compression level zstd accepts: `ZSTD_minCLevel`, `-ZSTD_TARGETLENGTH_MAX`.
pub const ZSTD_MIN_LEVEL: i32 = -131072;

/// Highest compression level zstd accepts: `ZSTD_maxCLevel`, `ZSTD_MAX_CLEVEL`.
pub const ZSTD_MAX_LEVEL: i32 = 22;

/// `zstd::compression_level_range`: `ZSTD_minCLevel()..=ZSTD_maxCLevel()` of the zstd
/// built with `zstd-sys`.
#[verifier::external_body]
fn zstd_level_range() -> (r: (i32, i32))
    ensures
        r == (ZSTD_MIN_LEVEL, ZSTD_MAX_LEVEL),
{
    let range = zstd::compression_level_range();
    (*range.start(), *range.end())
}

/// One packet of a compressed mesh: the chunk, the piece's index and the number of
/// pieces (both kept to their low byte), the numbers of indices and of vertex words
/// (kept to 32 bits), and the piece's bits.
pub struct MeshPiece {
    pub chunk_pos: ChunkPos,
    pub index: u8,
    pub count: u8,
    pub nb_indices: u32,
    pub nb_vertices: u32,
    pub bits: Bits,
}

/// The packets of the pieces `pieces` of the mesh of the chunk at `chunk_pos`: one for
/// each index below the number of pieces taken as a byte.
pub fn pack_pieces(chunk_pos: ChunkPos, ilen: usize, vlen: usize, pieces: Vec<Bits>) -> (packets: Vec<MeshPiece>)
    ensures
        packets@.len() == pieces@.len() % 256,
        forall|i: int|
            0 <= i < packets@.len() ==> {
                &&& (#[trigger] packets@[i]).chunk_pos == chunk_pos
                &&& packets@[i].index == i
                &&& packets@[i].count == pieces@.len() as u8
                &&& packets@[i].nb_indices == ilen as u32
                &&& packets@[i].nb_vertices == vlen as u32
                &&& bits_of(packets@[i].bits) == bits_of(pieces@[i])
            },
{
    let ghost all = pieces@;
    let l = pieces.len();
    let count = l as u8;
    assert(count == l % 256) by (bit_vector)
        requires
            count == l as u8,
    ;
    let mut rest = pieces;
    let mut packets: Vec<MeshPiece> = Vec::new();
    let mut i: u8 = 0;
    while i < count
        invariant
            count == all.len() as u8,
            count as int == all.len() % 256,
            i <= count,
            packets@.len() == i,
            rest@ == all.subrange(i as int, all.len() as int),
            forall|j: int|
                0 <= j < i ==> {
                    &&& (#[trigger] packets@[j]).chunk_pos == chunk_pos
                    &&& packets@[j].index == j
                    &&& packets@[j].count == count
                    &&& packets@[j].nb_indices == ilen as u32
                    &&& packets@[j].nb_vertices == vlen as u32
                    &&& bits_of(packets@[j].bits) == bits_of(all[j])
                },
        decreases count - i,
    {
        let bits = rest.remove(0);
        assert(bits == all[i as int]);
        packets.push(MeshPiece {
            chunk_pos,
            index: i,
            count,
            nb_indices: ilen as u32,
            nb_vertices: vlen as u32,
            bits,
        });
        i = i + 1;
        assert(rest@ =~= all.subrange(i as int, all.len() as int));
    }
    packets
}

/// What becomes of the result of compressing a mesh: no frame gives none; a frame too
/// long to address its bits gives none; any other frame gives its bits, least
/// significant first within each byte, cut into pieces of `PIECE_BITS` bits.
pub fn frame_pieces(frame: Option<Vec<u8>>) -> (r: Option<Vec<Bits>>)
    ensures
        match frame {
            None => r is None,
            Some(d) => if d@.len() > usize::MAX / 128 {
                r is None
            } else {
                r matches Some(pieces) && pieces@.len() == piece_count(8 * d@.len() as int) && forall|i: int|
                    0 <= i < pieces@.len() ==> bits_of(#[trigger] pieces@[i]) == piece(lsb0_bits(d@), i)
            },
        },
{
    match frame {
        None => None,
        Some(data) => {
            if data.len() > usize::MAX / 128 {
                return None;
            }
            Some(bit_pieces(&data))
        },
    }
}

impl ServerChunkMesh {
    /// Builds the mesh of the chunk at `chunk_pos` whose blocks are `blocks`, reading
    /// the blocks beyond its faces from `chunks_map` (see `build_faces`).
    pub fn new(chunks_map: &ChunkMap, chunk_pos: ChunkPos, blocks: &Vec<u16>) -> (mesh: ServerChunkMesh)
        requires
            blocks@.len() == CHUNK_VOLUME,
            all_chunks_wf(*chunks_map),
            chunk_origin_fits(chunk_pos),
            forall|v: int, f: int|
                #[trigger] reads_neighbour_chunk(blocks@, v, f) ==> chunks_map.has(
                    neighbour_global(chunk_pos, v, f).chunk_of(),
                ),
        ensures
            mesh.chunk_pos == chunk_pos,
            mesh.vertices@ == mesh_vertices(blocks@, server_border(*chunks_map, chunk_pos), FACE_SLOTS as nat),
            mesh.indices@ == mesh_indices(blocks@, server_border(*chunks_map, chunk_pos), FACE_SLOTS as nat),
    {
        let border = border_of(chunks_map, chunk_pos);
        let buf = build_faces(blocks, &border);
        ServerChunkMesh { vertices: buf.vertices, indices: buf.indices, chunk_pos }
    }

    pub fn get_chunk_pos(&self) -> (p: ChunkPos)
        ensures
            p == self.chunk_pos,
    {
        self.chunk_pos
    }

    pub fn is_empty(&self) -> (r: bool)
        ensures
            r == (self.vertices@.len() == 0 && self.indices@.len() == 0),
    {
        self.vertices.len() == 0 && self.indices.len() == 0
    }

    /// The value of the block at `ipos`, whose chunk must be in `chunks_map`.
    pub fn get_block_at(&self, ipos: IBlockPos, chunks_map: &ChunkMap) -> (b: u16)
        requires
            chunks_map.has(ipos.chunk_of()),
            chunks_map.chunk(ipos.chunk_of()).wf(),
        ensures
            b == chunks_map.chunk(ipos.chunk_of()).block_at(ipos.local()),
    {
        let (block_pos, chunk_pos) = ipos.as_split_pos();
        chunks_map.get_chunk(&chunk_pos).unwrap().get_block_at(block_pos)
    }

    /// The vertex words then the index words, each least significant byte first.
    pub fn mesh_bytes(&self) -> (bytes: Vec<u8>)
        ensures
            bytes@ == words_le(self.vertices@) + words_le(self.indices@),
    {
        let mut bytes: Vec<u8> = Vec::new();
        push_words_le(&self.vertices, &mut bytes);
        push_words_le(&self.indices, &mut bytes);
        assert(bytes@ =~= words_le(self.vertices@) + words_le(self.indices@));
        bytes
    }

    /// The bytes `mesh_bytes` gives.
    pub open spec fn mesh_data(&self) -> Seq<u8> {
        words_le(self.vertices@) + words_le(self.indices@)
    }

    /// The zstd frame of the mesh at level 10, which `choose_level` picks from the range
    /// zstd accepts.
    pub open spec fn frame(&self) -> Seq<u8> {
        zstd_compressed(self.mesh_data(), 10)
    }

    /// Whether the mesh can be compressed: its bytes fit zstd's buffer, and the bits of
    /// its frame can be addressed.
    pub open spec fn compressible(&self) -> bool {
        self.mesh_data().len() <= usize::MAX / 4 && self.frame().len() <= usize::MAX / 128
    }

    /// The bits of the zstd frame of `mesh_bytes`, at the level `choose_level` picks
    /// from the range zstd accepts, cut into pieces of `PIECE_BITS` bits; none when the
    /// mesh is too large (see `compressible`).
    pub fn compress(&self) -> (r: Option<Vec<Bits>>)
        ensures
            r is Some <==> self.compressible(),
            r matches Some(pieces) ==> {
                &&& pieces@.len() == piece_count(8 * self.frame().len() as int)
                &&& forall|i: int|
                    0 <= i < pieces@.len() ==> bits_of(#[trigger] pieces@[i]) == piece(lsb0_bits(self.frame()), i)
            },
    {
        let bytes = self.mesh_bytes();
        if bytes.len() > usize::MAX / 4 {
            return None;
        }
        let (lo, hi) = zstd_level_range();
        let level = match choose_level(lo, hi) {
            Some(l) => l,
            None => return None,
        };
        assert(level == 10);
        let frame = zstd_compress(&bytes, level);
        frame_pieces(frame)
    }

    /// The packets of the compressed mesh (see `compress` and `pack_pieces`); none when
    /// the mesh is too large (see `compressible`).
    pub fn to_packets(&self) -> (r: Option<Vec<MeshPiece>>)
        ensures
            r is Some <==> self.compressible(),
            r matches Some(packets) ==> {
                let frame = lsb0_bits(self.frame());
                &&& packets@.len() == piece_count(frame.len() as int) % 256
                &&& forall|i: int|
                    0 <= i < packets@.len() ==> {
                        &&& (#[trigger] packets@[i]).chunk_pos == self.chunk_pos
                        &&& packets@[i].index == i
                        &&& packets@[i].count == piece_count(frame.len() as int) as u8
                        &&& packets@[i].nb_indices == self.indices@.len() as u32
                        &&& packets@[i].nb_vertices == self.vertices@.len() as u32
                        &&& bits_of(packets@[i].bits) == piece(frame, i)
                    }
            },
    {
        let pieces = match self.compress() {
            Some(p) => p,
            None => return None,
        };
        let ghost ps = pieces@;
        let packets = pack_pieces(self.chunk_pos, self.indices.len(), self.vertices.len(), pieces);
        proof {
            let frame = lsb0_bits(self.frame());
            assert(frame.len() == 8 * self.frame().len());
            assert forall|i: int| 0 <= i < packets@.len() implies bits_of((#[trigger] packets@[i]).bits) == piece(frame, i) by {
                assert(bits_of(ps[i]) == piece(frame, i));
            }
        }
        Some(packets)
    }
}

} // verus!
