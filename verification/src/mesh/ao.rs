use vstd::prelude::*;
use crate::common::pos::{ChunkPos, CHUNK_VOLUME};
use crate::mesh::faces::{
    vx, vy, vz, face_dir, face_code, in_chunk3, split_words, split_u64, lemma_block_coords,
    faces_before, face_drawn, border_slot, FACE_SLOTS, BORDER_CELLS, shared_corner,
};
use crate::mesh::vertex::PackError;

verus! {

/// The quantised material of a block face: `pack_f32_to_bits(1.0, 0.0, 1.0, 0x3F)`, the
/// value each of the three material channels of a chunk mesh gets.
pub const MATERIAL_BITS: u64 = 63;

/// Whether the block at `(x, y, z)` is empty; everything outside the chunk counts as
/// empty.
pub open spec fn void3(blocks: Seq<u16>, x: int, y: int, z: int) -> bool {
    !in_chunk3(x, y, z) || blocks[x * 4096 + y * 64 + z] == 0
}

/// The plane in which the occlusion of face `f` is sampled: 0 for the top and bottom
/// faces (Y), 1 for right and left (X), 2 for front and back (Z).
pub open spec fn face_plane(f: int) -> int {
    if f == 0 || f == 1 {
        2
    } else if f == 2 || f == 3 {
        0
    } else {
        1
    }
}

/// The eight samples `a..h` around a face in plane `plane`.
pub open spec fn ao_offset(plane: int, k: int) -> (int, int, int) {
    if plane == 0 {
        if k == 0 { (0, 0, -1) } else if k == 1 { (-1, 0, -1) } else if k == 2 { (-1, 0, 0) } else if k == 3 { (-1, 0, 1) }
        else if k == 4 { (0, 0, 1) } else if k == 5 { (1, 0, 1) } else if k == 6 { (1, 0, 0) } else { (1, 0, -1) }
    } else if plane == 1 {
        if k == 0 { (0, 0, -1) } else if k == 1 { (0, -1, -1) } else if k == 2 { (0, -1, 0) } else if k == 3 { (0, -1, 1) }
        else if k == 4 { (0, 0, 1) } else if k == 5 { (0, 1, 1) } else if k == 6 { (0, 1, 0) } else { (0, 1, 1) }
    } else {
        if k == 0 { (-1, 0, 0) } else if k == 1 { (-1, -1, 0) } else if k == 2 { (0, -1, 0) } else if k == 3 { (1, -1, 0) }
        else if k == 4 { (1, 0, 0) } else if k == 5 { (1, 1, 0) } else if k == 6 { (0, 1, 0) } else { (-1, 1, 0) }
    }
}

/// 1 when sample `k` around face `f` of block `v` is empty, else 0.
pub open spec fn sample(blocks: Seq<u16>, v: int, f: int, k: int) -> int {
    let (dx, dy, dz) = face_dir(f);
    let (ox, oy, oz) = ao_offset(face_plane(f), k);
    if void3(blocks, vx(v) + dx + ox, vy(v) + dy + oy, vz(v) + dz + oz) {
        1
    } else {
        0
    }
}

/// The four occlusion values of face `f` of block `v`: `a + b + c`, `g + h + a`,
/// `e + f + g` and `c + d + e` over the samples.
pub open spec fn ao_value(blocks: Seq<u16>, v: int, f: int, j: int) -> int {
    if j == 0 {
        sample(blocks, v, f, 0) + sample(blocks, v, f, 1) + sample(blocks, v, f, 2)
    } else if j == 1 {
        sample(blocks, v, f, 6) + sample(blocks, v, f, 7) + sample(blocks, v, f, 0)
    } else if j == 2 {
        sample(blocks, v, f, 4) + sample(blocks, v, f, 5) + sample(blocks, v, f, 6)
    } else {
        sample(blocks, v, f, 2) + sample(blocks, v, f, 3) + sample(blocks, v, f, 4)
    }
}

/// Whether the diagonal of the face's quad is flipped.
pub open spec fn ao_flip(blocks: Seq<u16>, v: int, f: int) -> bool {
    ao_value(blocks, v, f, 1) + ao_value(blocks, v, f, 3) > ao_value(blocks, v, f, 0) + ao_value(
        blocks,
        v,
        f,
        2,
    )
}

/// Corner `c` of face `f`: offset from the block, texture coordinates, and which
/// occlusion value it takes.
pub open spec fn ao_corner(f: int, c: int) -> (int, int, int, u8, int) {
    if f == 0 {
        if c == 0 { (0, 0, 1, 3, 0) } else if c == 1 { (0, 1, 1, 2, 1) } else if c == 2 { (1, 1, 1, 0, 2) } else { (1, 0, 1, 1, 3) }
    } else if f == 1 {
        if c == 0 { (1, 1, 0, 2, 2) } else if c == 1 { (0, 1, 0, 0, 1) } else if c == 2 { (0, 0, 0, 1, 0) } else { (1, 0, 0, 3, 3) }
    } else if f == 2 {
        if c == 0 { (0, 1, 0, 2, 0) } else if c == 1 { (1, 1, 0, 0, 1) } else if c == 2 { (1, 1, 1, 1, 2) } else { (0, 1, 1, 3, 3) }
    } else if f == 3 {
        if c == 0 { (0, 0, 0, 1, 0) } else if c == 1 { (0, 0, 1, 3, 1) } else if c == 2 { (1, 0, 1, 2, 2) } else { (1, 0, 0, 0, 3) }
    } else if f == 4 {
        if c == 0 { (1, 0, 0, 1, 0) } else if c == 1 { (1, 0, 1, 3, 3) } else if c == 2 { (1, 1, 1, 2, 1) } else { (1, 1, 0, 0, 2) }
    } else {
        if c == 0 { (0, 0, 0, 3, 0) } else if c == 1 { (0, 1, 0, 2, 1) } else if c == 2 { (0, 1, 1, 0, 2) } else { (0, 0, 1, 1, 3) }
    }
}

/// 1 when the block at offset `(i, j, k)` from the neighbour that face `f` of block `v`
/// looks at is empty and shades corner `c` of that face: it lies in the layer of that
/// neighbour, is not the neighbour itself, and touches the corner.
pub open spec fn shade_term(blocks: Seq<u16>, v: int, f: int, c: int, i: int, j: int, k: int) -> int {
    let (dx, dy, dz) = face_dir(f);
    let (ox, oy, oz, t, a) = ao_corner(f, c);
    let (nx, ny, nz) = (vx(v) + dx + i, vy(v) + dy + j, vz(v) + dz + k);
    let (px, py, pz) = (vx(v) + ox, vy(v) + oy, vz(v) + oz);
    let in_layer = (dx != 0 ==> i == 0) && (dy != 0 ==> j == 0) && (dz != 0 ==> k == 0);
    let touches = px - 1 <= nx <= px && py - 1 <= ny <= py && pz - 1 <= nz <= pz;
    if in_layer && !(i == 0 && j == 0 && k == 0) && touches && void3(blocks, nx, ny, nz) {
        1
    } else {
        0
    }
}

pub open spec fn shade_row(blocks: Seq<u16>, v: int, f: int, c: int, i: int, j: int) -> int {
    shade_term(blocks, v, f, c, i, j, -1) + shade_term(blocks, v, f, c, i, j, 0) + shade_term(blocks, v, f, c, i, j, 1)
}

pub open spec fn shade_slab(blocks: Seq<u16>, v: int, f: int, c: int, i: int) -> int {
    shade_row(blocks, v, f, c, i, -1) + shade_row(blocks, v, f, c, i, 0) + shade_row(blocks, v, f, c, i, 1)
}

/// The number of empty blocks around corner `c` of face `f` of block `v`, among the
/// blocks next to the neighbour that the face looks at, in its layer, that touch the
/// corner.
pub open spec fn corner_shade(blocks: Seq<u16>, v: int, f: int, c: int) -> int {
    shade_slab(blocks, v, f, c, -1) + shade_slab(blocks, v, f, c, 0) + shade_slab(blocks, v, f, c, 1)
}

/// The corners whose occlusion value is not read from the blocks around them: the two
/// side corners of the bottom face and the two upper corners of the right face, which
/// take each other's values, and the corner `(0, 1, 0)` of the left face, whose
/// sample `h` repeats sample `f`.
pub open spec fn ao_corner_irregular(f: int, c: int) -> bool {
    (f == 3 && (c == 1 || c == 3)) || (f == 4 && (c == 2 || c == 3)) || (f == 5 && c == 1)
}

/// The corners of an occluded face lie on the side of the block that the face looks
/// at: four different corners shared by the block and its neighbour there.
pub proof fn lemma_ao_corners_on_side(f: int)
    requires
        0 <= f < 6,
    ensures
        forall|c: int| 0 <= c < 4 ==> shared_corner(
            face_dir(f),
            (#[trigger] ao_corner(f, c).0, ao_corner(f, c).1, ao_corner(f, c).2),
        ),
        forall|c1: int, c2: int|
            0 <= c1 < c2 < 4 ==> (#[trigger] ao_corner(f, c1).0, ao_corner(f, c1).1, ao_corner(f, c1).2) != (
                #[trigger] ao_corner(f, c2).0,
                ao_corner(f, c2).1,
                ao_corner(f, c2).2,
            ),
{
}

/// The occlusion a corner of a face takes counts the empty blocks that touch that
/// corner, next to the neighbour the face looks at (see `corner_shade`), for every
/// corner but the five of `ao_corner_irregular`.
pub proof fn lemma_ao_value_shades_its_corner(blocks: Seq<u16>, v: int, f: int, c: int)
    requires
        0 <= f < 6,
        0 <= c < 4,
        !ao_corner_irregular(f, c),
    ensures
        ao_value(blocks, v, f, ao_corner(f, c).4) == corner_shade(blocks, v, f, c),
{
}

/// The packed vertex format with materials and occlusion, the fields or-ed together:
/// block id in bits 46..64, x, y, z (modulo 128) in bits 39..46, 32..39, 25..32, face
/// id in bits 22..25, the three 6-bit material channels from bits 16, 10 and 4, the
/// occlusion (its low three bits) from bit 2, and the texture-coordinate bits in bits
/// 1 and 0. An occlusion above 3 reaches into the third material channel.
pub open spec fn packed_ao(id: u16, x: i32, y: i32, z: i32, face_id: u32, tex_coords: u8, m: [u64; 3], ao: u8) -> u64 {
    ((id as u64 & 0x3FFFF) << 46u64) | ((x as u64 & 0x7F) << 39u64) | ((y as u64 & 0x7F) << 32u64) | ((
    z as u64 & 0x7F) << 25u64) | ((face_id as u64 & 0x7) << 22u64) | (m[0] << 16u64) | (m[1] << 10u64) | (m[2]
        << 4u64) | ((ao as u64 & 0x7) << 2u64) | (((tex_coords as u64 >> 1u64) & 0x1) << 1u64) | (
    tex_coords as u64 & 0x1)
}

/// Each field of an occluded vertex reads back from its bits: block id, coordinates
/// (modulo 128), face id, the three material channels, the occlusion and the two
/// texture bits.
pub proof fn lemma_packed_ao_fields(id: u16, x: i32, y: i32, z: i32, face_id: u32, tex_coords: u8, m: [u64; 3], ao: u8)
    requires
        face_id <= 5,
        m[0] < 64,
        m[1] < 64,
        m[2] < 64,
        ao <= 3,
    ensures
        ({
            let p = packed_ao(id, x, y, z, face_id, tex_coords, m, ao);
            &&& p >> 46u64 == id as u64
            &&& (p >> 39u64) & 0x7F == (x as u64) % 128
            &&& (p >> 32u64) & 0x7F == (y as u64) % 128
            &&& (p >> 25u64) & 0x7F == (z as u64) % 128
            &&& (p >> 22u64) & 0x7 == face_id as u64
            &&& (p >> 16u64) & 0x3F == m[0]
            &&& (p >> 10u64) & 0x3F == m[1]
            &&& (p >> 4u64) & 0x3F == m[2]
            &&& (p >> 2u64) & 0x3 == ao as u64
            &&& p & 0x3 == (tex_coords as u64) % 4
        }),
{
    let p = packed_ao(id, x, y, z, face_id, tex_coords, m, ao);
    let idu = id as u64;
    let xu = x as u64;
    let yu = y as u64;
    let zu = z as u64;
    let fu = face_id as u64;
    let tu = tex_coords as u64;
    let au = ao as u64;
    let m0 = m[0];
    let m1 = m[1];
    let m2 = m[2];
    assert({
        &&& p >> 46u64 == idu
        &&& (p >> 39u64) & 0x7F == xu % 128
        &&& (p >> 32u64) & 0x7F == yu % 128
        &&& (p >> 25u64) & 0x7F == zu % 128
        &&& (p >> 22u64) & 0x7 == fu
        &&& (p >> 16u64) & 0x3F == m0
        &&& (p >> 10u64) & 0x3F == m1
        &&& (p >> 4u64) & 0x3F == m2
        &&& (p >> 2u64) & 0x3 == au
        &&& p & 0x3 == tu % 4
    }) by (bit_vector)
        requires
            idu < 0x1_0000,
            fu <= 5,
            tu < 256,
            au <= 3,
            m0 < 64,
            m1 < 64,
            m2 < 64,
            p == ((idu & 0x3FFFF) << 46u64) | ((xu & 0x7F) << 39u64) | ((yu & 0x7F) << 32u64) | ((zu & 0x7F)
                << 25u64) | ((fu & 0x7) << 22u64) | (m0 << 16u64) | (m1 << 10u64) | (m2 << 4u64) | ((au & 0x7)
                << 2u64) | (((tu >> 1u64) & 0x1) << 1u64) | (tu & 0x1),
    ;
}

pub open spec fn mesh_material() -> [u64; 3] {
    [MATERIAL_BITS, MATERIAL_BITS, MATERIAL_BITS]
}

pub open spec fn ao_corner_vertex(blocks: Seq<u16>, v: int, f: int, c: int) -> u64 {
    let (dx, dy, dz, t, j) = ao_corner(f, c);
    packed_ao(
        blocks[v],
        (vx(v) + dx) as i32,
        (vy(v) + dy) as i32,
        (vz(v) + dz) as i32,
        face_code(f),
        t,
        mesh_material(),
        ao_value(blocks, v, f, j) as u8,
    )
}

pub open spec fn ao_face_words(blocks: Seq<u16>, v: int, f: int) -> Seq<u32> {
    split_words(ao_corner_vertex(blocks, v, f, 0)) + split_words(ao_corner_vertex(blocks, v, f, 1))
        + split_words(ao_corner_vertex(blocks, v, f, 2)) + split_words(ao_corner_vertex(blocks, v, f, 3))
}

/// The two triangles of a face whose first vertex has index `b`, split along the other
/// diagonal when `flip`.
pub open spec fn ao_quad(b: int, flip: bool) -> Seq<u32> {
    if flip {
        seq![(b + 3) as u32, (b + 1) as u32, b as u32, (b + 3) as u32, (b + 2) as u32, (b + 1) as u32]
    } else {
        seq![b as u32, (b + 2) as u32, (b + 1) as u32, b as u32, (b + 3) as u32, (b + 2) as u32]
    }
}

/// A face is drawn when its block is not empty and the neighbour it looks at is empty
/// (or outside the chunk).
pub open spec fn ao_drawn(blocks: Seq<u16>, v: int, f: int) -> bool {
    let (dx, dy, dz) = face_dir(f);
    blocks[v] != 0 && void3(blocks, vx(v) + dx, vy(v) + dy, vz(v) + dz)
}

pub open spec fn ao_faces_before(blocks: Seq<u16>, t: nat) -> nat
    decreases t,
{
    if t == 0 {
        0
    } else {
        let s = (t - 1) as int;
        ao_faces_before(blocks, (t - 1) as nat) + if ao_drawn(blocks, s / 6, s % 6) {
            1nat
        } else {
            0nat
        }
    }
}

pub open spec fn ao_mesh_vertices(blocks: Seq<u16>, t: nat) -> Seq<u32>
    decreases t,
{
    if t == 0 {
        seq![]
    } else {
        let s = (t - 1) as int;
        let prev = ao_mesh_vertices(blocks, (t - 1) as nat);
        if ao_drawn(blocks, s / 6, s % 6) {
            prev + ao_face_words(blocks, s / 6, s % 6)
        } else {
            prev
        }
    }
}

pub open spec fn ao_mesh_indices(blocks: Seq<u16>, t: nat) -> Seq<u32>
    decreases t,
{
    if t == 0 {
        seq![]
    } else {
        let s = (t - 1) as int;
        let prev = ao_mesh_indices(blocks, (t - 1) as nat);
        if ao_drawn(blocks, s / 6, s % 6) {
            prev + ao_quad(4 * ao_faces_before(blocks, (t - 1) as nat) as int, ao_flip(blocks, s / 6, s % 6))
        } else {
            prev
        }
    }
}

pub(crate) proof fn lemma_ao_faces_before_bound(blocks: Seq<u16>, t: nat)
    ensures
        ao_faces_before(blocks, t) <= t,
    decreases t,
{
    if t > 0 {
        lemma_ao_faces_before_bound(blocks, (t - 1) as nat);
    }
}

#[verifier::spinoff_prover]
#[verifier::rlimit(40)]
pub(crate) proof fn lemma_ao_mesh_lengths(blocks: Seq<u16>, t: nat)
    ensures
        ao_mesh_vertices(blocks, t).len() == 8 * ao_faces_before(blocks, t),
        ao_mesh_indices(blocks, t).len() == 6 * ao_faces_before(blocks, t),
    decreases t,
{
    if t > 0 {
        let t1 = (t - 1) as nat;
        let s = t1 as int;
        lemma_ao_mesh_lengths(blocks, t1);
        if ao_drawn(blocks, s / 6, s % 6) {
            let w = ao_face_words(blocks, s / 6, s % 6);
            assert(w.len() == 8);
            assert(ao_mesh_vertices(blocks, t) == ao_mesh_vertices(blocks, t1) + w);
            let q = ao_quad(4 * ao_faces_before(blocks, t1) as int, ao_flip(blocks, s / 6, s % 6));
            assert(q.len() == 6);
            assert(ao_mesh_indices(blocks, t) == ao_mesh_indices(blocks, t1) + q);
        } else {
            assert(ao_mesh_vertices(blocks, t) == ao_mesh_vertices(blocks, t1));
            assert(ao_mesh_indices(blocks, t) == ao_mesh_indices(blocks, t1));
        }
    }
}

/// Every triangle of an occluded chunk mesh is made of vertices of that mesh: each
/// index is below the number of vertices, which take two words each.
#[verifier::spinoff_prover]
#[verifier::rlimit(40)]
pub proof fn lemma_ao_mesh_indices_in_range(blocks: Seq<u16>, t: nat)
    requires
        t <= FACE_SLOTS,
    ensures
        ao_mesh_vertices(blocks, t).len() == 2 * (4 * ao_faces_before(blocks, t)),
        forall|j: int|
            0 <= j < ao_mesh_indices(blocks, t).len() ==> #[trigger] ao_mesh_indices(blocks, t)[j] < 4
                * ao_faces_before(blocks, t),
    decreases t,
{
    lemma_ao_mesh_lengths(blocks, t);
    if t > 0 {
        let t1 = (t - 1) as nat;
        lemma_ao_mesh_indices_in_range(blocks, t1);
        lemma_ao_faces_before_bound(blocks, t1);
        let s = t1 as int;
        let prev = ao_mesh_indices(blocks, t1);
        let cur = ao_mesh_indices(blocks, t);
        let n = ao_faces_before(blocks, t1);
        if ao_drawn(blocks, s / 6, s % 6) {
            let q = ao_quad(4 * n as int, ao_flip(blocks, s / 6, s % 6));
            assert(cur == prev + q);
            assert(ao_faces_before(blocks, t) == n + 1);
            assert forall|j: int| 0 <= j < cur.len() implies #[trigger] cur[j] < 4 * (n + 1) by {
                if j >= prev.len() {
                    assert(cur[j] == q[j - prev.len()]);
                } else {
                    assert(cur[j] == prev[j]);
                }
            }
        } else {
            assert(cur == prev);
            assert(ao_faces_before(blocks, t) == n);
        }
    }
}

/// With nothing solid beyond the chunk, both meshers draw the same faces: as many
/// faces among any first face slots, so as many vertices and triangles.
pub proof fn lemma_meshers_draw_same_faces(blocks: Seq<u16>, t: nat)
    requires
        t <= FACE_SLOTS,
    ensures
        ao_faces_before(blocks, t) == faces_before(blocks, Seq::new(BORDER_CELLS as nat, |s: int| true), t),
    decreases t,
{
    if t > 0 {
        let t1 = (t - 1) as nat;
        lemma_meshers_draw_same_faces(blocks, t1);
        let s = t1 as int;
        let v = s / 6;
        let f = s % 6;
        let open = Seq::new(BORDER_CELLS as nat, |c: int| true);
        assert(0 <= v < CHUNK_VOLUME);
        assert(0 <= vx(v) < 64 && 0 <= vy(v) < 64 && 0 <= vz(v) < 64);
        let a = if f <= 3 { vx(v) } else { vy(v) };
        let b = if f <= 1 { vy(v) } else { vz(v) };
        assert(border_slot(v, f) == f * 4096 + a * 64 + b);
        assert(0 <= f * 4096 + a * 64 + b < BORDER_CELLS) by (nonlinear_arith)
            requires
                0 <= f < 6,
                0 <= a < 64,
                0 <= b < 64,
        ;
        assert(ao_drawn(blocks, v, f) == face_drawn(blocks, open, v, f));
    }
}

/// Exec form of `void3`.
fn void_at(blocks: &Vec<u16>, x: i32, y: i32, z: i32) -> (r: bool)
    requires
        blocks@.len() == CHUNK_VOLUME,
    ensures
        r == void3(blocks@, x as int, y as int, z as int),
{
    if x < 0 || x >= 64 || y < 0 || y >= 64 || z < 0 || z >= 64 {
        return true;
    }
    blocks[x as usize * 4096 + y as usize * 64 + z as usize] == 0
}

fn ao_offset_exec(plane: usize, k: usize) -> (r: (i32, i32, i32))
    requires
        k < 8,
    ensures
        (r.0 as int, r.1 as int, r.2 as int) == ao_offset(plane as int, k as int),
{
    let t: [(i32, i32, i32); 8] = if plane == 0 {
        [(0, 0, -1), (-1, 0, -1), (-1, 0, 0), (-1, 0, 1), (0, 0, 1), (1, 0, 1), (1, 0, 0), (1, 0, -1)]
    } else if plane == 1 {
        [(0, 0, -1), (0, -1, -1), (0, -1, 0), (0, -1, 1), (0, 0, 1), (0, 1, 1), (0, 1, 0), (0, 1, 1)]
    } else {
        [(-1, 0, 0), (-1, -1, 0), (0, -1, 0), (1, -1, 0), (1, 0, 0), (1, 1, 0), (0, 1, 0), (-1, 1, 0)]
    };
    t[k]
}

/// The four occlusion values of face `f` of block `(x, y, z)` (see `ao_value`).
fn get_ao(blocks: &Vec<u16>, x: usize, y: usize, z: usize, f: usize) -> (ao: [u8; 4])
    requires
        blocks@.len() == CHUNK_VOLUME,
        x < 64,
        y < 64,
        z < 64,
        f < 6,
    ensures
        forall|j: int| 0 <= j < 4 ==> #[trigger] ao[j] as int == ao_value(blocks@, x * 4096 + y * 64 + z, f as int, j),
{
    let ghost v: int = x * 4096 + y * 64 + z;
    proof {
        lemma_block_coords(x as int, y as int, z as int);
    }
    let (dx, dy, dz, _code, _corners) = crate::mesh::faces::face_table(f);
    let plane: usize = if f == 0 || f == 1 { 2 } else if f == 2 || f == 3 { 0 } else { 1 };
    let px = x as i32 + dx;
    let py = y as i32 + dy;
    let pz = z as i32 + dz;
    let mut s: [u8; 8] = [0; 8];
    let mut k: usize = 0;
    while k < 8
        invariant
            k <= 8,
            blocks@.len() == CHUNK_VOLUME,
            f < 6,
            plane == face_plane(f as int),
            (dx as int, dy as int, dz as int) == face_dir(f as int),
            px == vx(v) + dx,
            py == vy(v) + dy,
            pz == vz(v) + dz,
            -1 <= px <= 64,
            -1 <= py <= 64,
            -1 <= pz <= 64,
            forall|i: int| 0 <= i < k ==> #[trigger] s[i] as int == sample(blocks@, v, f as int, i),
        decreases 8 - k,
    {
        let (ox, oy, oz) = ao_offset_exec(plane, k);
        let e = void_at(blocks, px + ox, py + oy, pz + oz);
        s[k] = if e { 1 } else { 0 };
        k = k + 1;
    }
    [s[0] + s[1] + s[2], s[6] + s[7] + s[0], s[4] + s[5] + s[6], s[2] + s[3] + s[4]]
}

/// The mesh of one chunk with ambient occlusion, built from its blocks alone.
pub struct ChunkMesh {
    pub vertices: Vec<u32>,
    pub indices: Vec<u32>,
    pub chunk_pos: ChunkPos,
}

/// The GPU side of a linked chunk mesh: its vertex array and index count.
#[derive(Clone, Copy)]
pub struct Mesh {
    pub vao: u32,
    pub nb_indices: i32,
}

impl Mesh {
    pub fn new(vao: u32, vbo: u32, ebo: u32, nb_indices: i32) -> (m: Mesh)
        ensures
            m.vao == vao,
            m.nb_indices == nb_indices,
    {
        Mesh { vao, nb_indices }
    }
}

impl ChunkMesh {
    pub fn get_chunk_pos(&self) -> (p: ChunkPos)
        ensures
            p == self.chunk_pos,
    {
        self.chunk_pos
    }

    pub fn is_empty(&self) -> (r: bool)
        ensures
            r == (self.vertices@.len() == 0 && self.indices@.len() == 0),
    {
        self.vertices.len() == 0 && self.indices.len() == 0
    }

    /// Packs a vertex with its quantised materials and occlusion (see `packed_ao`).
    pub fn pack_data(id: u16, pos: (i32, i32, i32), face_id: u32, tex_coords: u8, material: [u64; 3], ao: u8) -> (r: Result<u64, PackError>)
        requires
            material[0] <= 63,
            material[1] <= 63,
            material[2] <= 63,
        ensures
            r == (if id as u32 >= 0x4_0000 {
                Err(PackError::IdTooLarge)
            } else if pos.0 >= 128 || pos.1 >= 128 || pos.2 >= 128 {
                Err(PackError::PositionTooLarge)
            } else if face_id > 5 {
                Err(PackError::FaceOutOfRange)
            } else {
                Ok(packed_ao(id, pos.0, pos.1, pos.2, face_id, tex_coords, material, ao))
            }),
    {
        if id as u32 >= 0x4_0000 {
            return Err(PackError::IdTooLarge);
        }
        if pos.0 >= 128 || pos.1 >= 128 || pos.2 >= 128 {
            return Err(PackError::PositionTooLarge);
        }
        if face_id > 5 {
            return Err(PackError::FaceOutOfRange);
        }
        let xu = pos.0 as u64;
        let yu = pos.1 as u64;
        let zu = pos.2 as u64;
        let idu = id as u64;
        let fu = face_id as u64;
        let tu = tex_coords as u64;
        let m0 = material[0];
        let m1 = material[1];
        let m2 = material[2];
        let au = ao as u64;
        let mut packed: u64 = 0;
        packed = packed | ((idu & 0x3FFFF) << 46u64);
        packed = packed | ((xu & 0x7F) << 39u64);
        packed = packed | ((yu & 0x7F) << 32u64);
        packed = packed | ((zu & 0x7F) << 25u64);
        packed = packed | ((fu & 0x7) << 22u64);
        packed = packed | (m0 << 16u64);
        packed = packed | (m1 << 10u64);
        packed = packed | (m2 << 4u64);
        packed = packed | ((au & 0x7) << 2u64);
        packed = packed | (((tu >> 1u64) & 0x1) << 1u64);
        packed = packed | (tu & 0x1);
        assert(packed == ((idu & 0x3FFFF) << 46u64) | ((xu & 0x7F) << 39u64) | ((yu & 0x7F) << 32u64) | ((zu
            & 0x7F) << 25u64) | ((fu & 0x7) << 22u64) | (m0 << 16u64) | (m1 << 10u64) | (m2 << 4u64) | ((au & 0x7)
            << 2u64) | (((tu >> 1u64) & 0x1) << 1u64) | (tu & 0x1)) by (bit_vector)
            requires
                packed == (((((((((((0u64 | ((idu & 0x3FFFF) << 46u64)) | ((xu & 0x7F) << 39u64)) | ((yu
                & 0x7F) << 32u64)) | ((zu & 0x7F) << 25u64)) | ((fu & 0x7) << 22u64)) | (m0 << 16u64)) | (m1
                << 10u64)) | (m2 << 4u64)) | ((au & 0x7) << 2u64)) | (((tu >> 1u64) & 0x1) << 1u64)) | (tu
                & 0x1)),
        ;
        Ok(packed)
    }
}

/// The packed vertices of the four corners of face `f` of block `(x, y, z)`.
fn ao_face_corners(blocks: &Vec<u16>, x: usize, y: usize, z: usize, f: usize) -> (packed: [u64; 4])
    requires
        blocks@.len() == CHUNK_VOLUME,
        x < 64,
        y < 64,
        z < 64,
        f < 6,
    ensures
        forall|k: int| 0 <= k < 4 ==> packed[k] == #[trigger] ao_corner_vertex(blocks@, x * 4096 + y * 64 + z, f as int, k),
{
    let ghost v: int = x * 4096 + y * 64 + z;
    proof {
        lemma_block_coords(x as int, y as int, z as int);
    }
    let id = blocks[x * 4096 + y * 64 + z];
    let ao = get_ao(blocks, x, y, z, f);
    let (_dx, _dy, _dz, code, _corners) = crate::mesh::faces::face_table(f);
    let table: [(i32, i32, i32, u8, usize); 4] = if f == 0 {
        [(0, 0, 1, 3, 0), (0, 1, 1, 2, 1), (1, 1, 1, 0, 2), (1, 0, 1, 1, 3)]
    } else if f == 1 {
        [(1, 1, 0, 2, 2), (0, 1, 0, 0, 1), (0, 0, 0, 1, 0), (1, 0, 0, 3, 3)]
    } else if f == 2 {
        [(0, 1, 0, 2, 0), (1, 1, 0, 0, 1), (1, 1, 1, 1, 2), (0, 1, 1, 3, 3)]
    } else if f == 3 {
        [(0, 0, 0, 1, 0), (0, 0, 1, 3, 1), (1, 0, 1, 2, 2), (1, 0, 0, 0, 3)]
    } else if f == 4 {
        [(1, 0, 0, 1, 0), (1, 0, 1, 3, 3), (1, 1, 1, 2, 1), (1, 1, 0, 0, 2)]
    } else {
        [(0, 0, 0, 3, 0), (0, 1, 0, 2, 1), (0, 1, 1, 0, 2), (0, 0, 1, 1, 3)]
    };
    assert(forall|k: int|
        0 <= k < 4 ==> (table[k].0 as int, table[k].1 as int, table[k].2 as int, table[k].3, table[k].4 as int)
            == #[trigger] ao_corner(f as int, k));
    let material: [u64; 3] = [MATERIAL_BITS, MATERIAL_BITS, MATERIAL_BITS];
    assert(material == mesh_material());
    let mut packed: [u64; 4] = [0, 0, 0, 0];
    let mut c: usize = 0;
    while c < 4
        invariant
            c <= 4,
            x < 64,
            y < 64,
            z < 64,
            f < 6,
            v == x * 4096 + y * 64 + z,
            vx(v) == x,
            vy(v) == y,
            vz(v) == z,
            id == blocks@[v],
            code == face_code(f as int),
            material == mesh_material(),
            forall|j: int| 0 <= j < 4 ==> #[trigger] ao[j] as int == ao_value(blocks@, v, f as int, j),
            forall|k: int|
                0 <= k < 4 ==> (table[k].0 as int, table[k].1 as int, table[k].2 as int, table[k].3, table[k].4 as int)
                    == #[trigger] ao_corner(f as int, k),
            forall|k: int| 0 <= k < c ==> packed[k] == #[trigger] ao_corner_vertex(blocks@, v, f as int, k),
        decreases 4 - c,
    {
        let (cx, cy, cz, tex, j) = table[c];
        assert(ao_corner(f as int, c as int) == (cx as int, cy as int, cz as int, tex, j as int));
        assert(0 <= cx <= 1 && 0 <= cy <= 1 && 0 <= cz <= 1 && j < 4);
        let a = ao[j];
        assert(a as int == ao_value(blocks@, v, f as int, j as int));
        assert(a <= 3) by {
            assert(0 <= sample(blocks@, v, f as int, 0) <= 1);
            assert(0 <= sample(blocks@, v, f as int, 1) <= 1);
            assert(0 <= sample(blocks@, v, f as int, 2) <= 1);
            assert(0 <= sample(blocks@, v, f as int, 3) <= 1);
            assert(0 <= sample(blocks@, v, f as int, 4) <= 1);
            assert(0 <= sample(blocks@, v, f as int, 5) <= 1);
            assert(0 <= sample(blocks@, v, f as int, 6) <= 1);
            assert(0 <= sample(blocks@, v, f as int, 7) <= 1);
        }
        let pos = (x as i32 + cx, y as i32 + cy, z as i32 + cz);
        let p = ChunkMesh::pack_data(id, pos, code, tex, material, a).unwrap();
        packed[c] = p;
        c = c + 1;
    }
    packed
}

impl ChunkMesh {
    /// Appends the four vertices of a face (two words each) and its two triangles,
    /// whose first vertex gets index `index`, split along the other diagonal when
    /// `flip`; returns the index of the next face.
    pub fn add_data(&mut self, v: [u64; 4], index: u32, flip: bool) -> (next: u32)
        requires
            index + 4 <= u32::MAX,
        ensures
            next == index + 4,
            final(self).chunk_pos == old(self).chunk_pos,
            final(self).vertices@ == old(self).vertices@ + split_words(v[0]) + split_words(v[1])
                + split_words(v[2]) + split_words(v[3]),
            final(self).indices@ == old(self).indices@ + ao_quad(index as int, flip),
    {
        let ghost v0 = self.vertices@;
        let (h0, l0) = split_u64(v[0]);
        let (h1, l1) = split_u64(v[1]);
        let (h2, l2) = split_u64(v[2]);
        let (h3, l3) = split_u64(v[3]);
        self.vertices.push(h0);
        self.vertices.push(l0);
        self.vertices.push(h1);
        self.vertices.push(l1);
        self.vertices.push(h2);
        self.vertices.push(l2);
        self.vertices.push(h3);
        self.vertices.push(l3);
        assert(self.vertices@ =~= v0 + split_words(v[0]) + split_words(v[1]) + split_words(v[2]) + split_words(v[3]));
        let ghost i0 = self.indices@;
        if flip {
            self.indices.push(index + 3);
            self.indices.push(index + 1);
            self.indices.push(index + 0);
            self.indices.push(index + 3);
            self.indices.push(index + 2);
            self.indices.push(index + 1);
        } else {
            self.indices.push(index);
            self.indices.push(index + 2);
            self.indices.push(index + 1);
            self.indices.push(index);
            self.indices.push(index + 3);
            self.indices.push(index + 2);
        }
        assert(self.indices@ =~= i0 + ao_quad(index as int, flip));
        index + 4
    }

    #[verifier::spinoff_prover]
    #[verifier::rlimit(40)]
    fn emit_face(&mut self, blocks: &Vec<u16>, x: usize, y: usize, z: usize, f: usize, index: u32) -> (next: u32)
        requires
            blocks@.len() == CHUNK_VOLUME,
            x < 64,
            y < 64,
            z < 64,
            f < 6,
            old(self).vertices@ == ao_mesh_vertices(blocks@, ((x * 4096 + y * 64 + z) * 6 + f) as nat),
            old(self).indices@ == ao_mesh_indices(blocks@, ((x * 4096 + y * 64 + z) * 6 + f) as nat),
            index == 4 * ao_faces_before(blocks@, ((x * 4096 + y * 64 + z) * 6 + f) as nat),
        ensures
            final(self).chunk_pos == old(self).chunk_pos,
            final(self).vertices@ == ao_mesh_vertices(blocks@, ((x * 4096 + y * 64 + z) * 6 + f + 1) as nat),
            final(self).indices@ == ao_mesh_indices(blocks@, ((x * 4096 + y * 64 + z) * 6 + f + 1) as nat),
            next == 4 * ao_faces_before(blocks@, ((x * 4096 + y * 64 + z) * 6 + f + 1) as nat),
    {
        let ghost v: int = (x * 4096 + y * 64 + z) as int;
        let ghost t: int = v * 6 + f;
        proof {
            lemma_block_coords(x as int, y as int, z as int);
            assert(t / 6 == v);
            assert(t % 6 == f);
            lemma_ao_faces_before_bound(blocks@, t as nat);
        }
        let id = blocks[x * 4096 + y * 64 + z];
        let (dx, dy, dz, _code, _corners) = crate::mesh::faces::face_table(f);
        let void = void_at(blocks, x as i32 + dx, y as i32 + dy, z as i32 + dz);
        if id != 0 && void {
            let ao = get_ao(blocks, x, y, z, f);
            let flip = ao[1] + ao[3] > ao[0] + ao[2];
            assert(flip == ao_flip(blocks@, v, f as int)) by {
                assert(ao[0] as int == ao_value(blocks@, v, f as int, 0));
                assert(ao[1] as int == ao_value(blocks@, v, f as int, 1));
                assert(ao[2] as int == ao_value(blocks@, v, f as int, 2));
                assert(ao[3] as int == ao_value(blocks@, v, f as int, 3));
            }
            let packed = ao_face_corners(blocks, x, y, z, f);
            let next = self.add_data(packed, index, flip);
            proof {
                assert(ao_drawn(blocks@, t / 6, t % 6));
                assert(ao_face_words(blocks@, v, f as int) =~= split_words(packed[0]) + split_words(packed[1])
                    + split_words(packed[2]) + split_words(packed[3]));
                assert(self.vertices@ =~= ao_mesh_vertices(blocks@, (t + 1) as nat));
                assert(self.indices@ =~= ao_mesh_indices(blocks@, (t + 1) as nat));
            }
            next
        } else {
            proof {
                assert(!ao_drawn(blocks@, t / 6, t % 6));
            }
            index
        }
    }

    /// The mesh of the chunk at `chunk_pos` with ambient occlusion: for each block in
    /// index order and each of its faces in order, a face whose block is not empty and
    /// whose neighbour is empty (the outside of the chunk counts as empty) gets four
    /// vertices with their occlusion and two triangles split along the less occluded
    /// diagonal (see `ao_mesh_vertices`, `ao_mesh_indices`). None when no face is drawn.
    pub fn build_mesh(blocks: &Vec<u16>, chunk_pos: ChunkPos) -> (r: Option<ChunkMesh>)
        requires
            blocks@.len() == CHUNK_VOLUME,
        ensures
            ao_mesh_indices(blocks@, FACE_SLOTS as nat).len() == 0 ==> r is None,
            ao_mesh_indices(blocks@, FACE_SLOTS as nat).len() != 0 ==> (r matches Some(m) && m.chunk_pos
                == chunk_pos && m.vertices@ == ao_mesh_vertices(blocks@, FACE_SLOTS as nat)
                && m.indices@ == ao_mesh_indices(blocks@, FACE_SLOTS as nat)),
    {
        let mut chunk_mesh = ChunkMesh { vertices: Vec::new(), indices: Vec::new(), chunk_pos };
        let mut index: u32 = 0;
        let mut x: usize = 0;
        while x < 64
            invariant
                x <= 64,
                blocks@.len() == CHUNK_VOLUME,
                chunk_mesh.chunk_pos == chunk_pos,
                chunk_mesh.vertices@ == ao_mesh_vertices(blocks@, (x * 4096 * 6) as nat),
                chunk_mesh.indices@ == ao_mesh_indices(blocks@, (x * 4096 * 6) as nat),
                index == 4 * ao_faces_before(blocks@, (x * 4096 * 6) as nat),
            decreases 64 - x,
        {
            let mut y: usize = 0;
            while y < 64
                invariant
                    x < 64,
                    y <= 64,
                    blocks@.len() == CHUNK_VOLUME,
                    chunk_mesh.chunk_pos == chunk_pos,
                    chunk_mesh.vertices@ == ao_mesh_vertices(blocks@, ((x * 4096 + y * 64) * 6) as nat),
                    chunk_mesh.indices@ == ao_mesh_indices(blocks@, ((x * 4096 + y * 64) * 6) as nat),
                    index == 4 * ao_faces_before(blocks@, ((x * 4096 + y * 64) * 6) as nat),
                decreases 64 - y,
            {
                let mut z: usize = 0;
                while z < 64
                    invariant
                        x < 64,
                        y < 64,
                        z <= 64,
                        blocks@.len() == CHUNK_VOLUME,
                        chunk_mesh.chunk_pos == chunk_pos,
                        chunk_mesh.vertices@ == ao_mesh_vertices(blocks@, ((x * 4096 + y * 64 + z) * 6) as nat),
                        chunk_mesh.indices@ == ao_mesh_indices(blocks@, ((x * 4096 + y * 64 + z) * 6) as nat),
                        index == 4 * ao_faces_before(blocks@, ((x * 4096 + y * 64 + z) * 6) as nat),
                    decreases 64 - z,
                {
                    let mut f: usize = 0;
                    while f < 6
                        invariant
                            x < 64,
                            y < 64,
                            z < 64,
                            f <= 6,
                            blocks@.len() == CHUNK_VOLUME,
                            chunk_mesh.chunk_pos == chunk_pos,
                            chunk_mesh.vertices@ == ao_mesh_vertices(blocks@, ((x * 4096 + y * 64 + z) * 6 + f) as nat),
                            chunk_mesh.indices@ == ao_mesh_indices(blocks@, ((x * 4096 + y * 64 + z) * 6 + f) as nat),
                            index == 4 * ao_faces_before(blocks@, ((x * 4096 + y * 64 + z) * 6 + f) as nat),
                        decreases 6 - f,
                    {
                        index = chunk_mesh.emit_face(blocks, x, y, z, f, index);
                        f = f + 1;
                    }
                    z = z + 1;
                }
                y = y + 1;
            }
            x = x + 1;
        }
        if chunk_mesh.indices.len() == 0 {
            return None;
        }
        Some(chunk_mesh)
    }
}

} // verus!
