use vstd::prelude::*;
use crate::common::pos::CHUNK_VOLUME;
use crate::mesh::vertex::{Vertex, packed_vertex};

verus! {

/// Number of face slots of a chunk: six per block.
pub const FACE_SLOTS: usize = 1572864;

/// Number of border cells: the 64 x 64 cells beyond each of the six chunk faces.
pub const BORDER_CELLS: usize = 24576;

/// Coordinates of the block with index `v` (`v == x * 4096 + y * 64 + z`).
pub open spec fn vx(v: int) -> int {
    v / 4096
}

pub open spec fn vy(v: int) -> int {
    (v / 64) % 64
}

pub open spec fn vz(v: int) -> int {
    v % 64
}

/// The neighbour that face `f` looks at: front (z + 1), back (z - 1), top (y + 1),
/// bottom (y - 1), right (x + 1), left (x - 1).
pub open spec fn face_dir(f: int) -> (int, int, int) {
    if f == 0 {
        (0, 0, 1)
    } else if f == 1 {
        (0, 0, -1)
    } else if f == 2 {
        (0, 1, 0)
    } else if f == 3 {
        (0, -1, 0)
    } else if f == 4 {
        (1, 0, 0)
    } else {
        (-1, 0, 0)
    }
}

/// The face id written into the vertices of face `f`.
pub open spec fn face_code(f: int) -> u32 {
    if f == 0 {
        1
    } else if f == 1 {
        4
    } else if f == 2 {
        0
    } else if f == 3 {
        5
    } else if f == 4 {
        2
    } else {
        3
    }
}

/// Corner `c` of face `f`: its offset from the block and its texture coordinates.
pub open spec fn face_corner(f: int, c: int) -> (int, int, int, u8) {
    if f == 0 {
        if c == 0 { (0, 0, 1, 0) } else if c == 1 { (0, 1, 1, 1) } else if c == 2 { (1, 1, 1, 3) } else { (1, 0, 1, 2) }
    } else if f == 1 {
        if c == 0 { (0, 0, 0, 2) } else if c == 1 { (1, 0, 0, 0) } else if c == 2 { (1, 1, 0, 1) } else { (0, 1, 0, 3) }
    } else if f == 2 {
        if c == 0 { (0, 1, 0, 2) } else if c == 1 { (1, 1, 0, 0) } else if c == 2 { (1, 1, 1, 1) } else { (0, 1, 1, 3) }
    } else if f == 3 {
        if c == 0 { (0, 0, 0, 1) } else if c == 1 { (0, 0, 1, 3) } else if c == 2 { (1, 0, 1, 2) } else { (1, 0, 0, 0) }
    } else if f == 4 {
        if c == 0 { (1, 0, 0, 2) } else if c == 1 { (1, 0, 1, 0) } else if c == 2 { (1, 1, 1, 1) } else { (1, 1, 0, 3) }
    } else {
        if c == 0 { (0, 0, 0, 0) } else if c == 1 { (0, 1, 0, 1) } else if c == 2 { (0, 1, 1, 3) } else { (0, 0, 1, 2) }
    }
}

/// Whether the point at offset `o` from a block is a corner of both the block and the
/// neighbour in direction `d`: along each axis it lies between 0 and 1, and between
/// `d` and `d + 1`.
pub open spec fn shared_corner(d: (int, int, int), o: (int, int, int)) -> bool {
    &&& 0 <= o.0 <= 1 && d.0 <= o.0 <= d.0 + 1
    &&& 0 <= o.1 <= 1 && d.1 <= o.1 <= d.1 + 1
    &&& 0 <= o.2 <= 1 && d.2 <= o.2 <= d.2 + 1
}

/// Each face is drawn on the side of the block that it looks at: its four corners are
/// four different corners shared by the block and the neighbour in direction
/// `face_dir(f)`, that is the four corners of that side.
pub proof fn lemma_face_corners_on_side(f: int)
    requires
        0 <= f < 6,
    ensures
        forall|c: int| 0 <= c < 4 ==> shared_corner(
            face_dir(f),
            (#[trigger] face_corner(f, c).0, face_corner(f, c).1, face_corner(f, c).2),
        ),
        forall|c1: int, c2: int|
            0 <= c1 < c2 < 4 ==> (#[trigger] face_corner(f, c1).0, face_corner(f, c1).1, face_corner(f, c1).2) != (
                #[trigger] face_corner(f, c2).0,
                face_corner(f, c2).1,
                face_corner(f, c2).2,
            ),
{
}

pub open spec fn in_chunk3(x: int, y: int, z: int) -> bool {
    0 <= x < 64 && 0 <= y < 64 && 0 <= z < 64
}

/// The border cell of the neighbour that face `f` of block `v` looks at, when that
/// neighbour lies outside the chunk: 4096 cells per face, in face order, indexed by the
/// two coordinates that stay inside the chunk.
pub open spec fn border_slot(v: int, f: int) -> int {
    if f == 0 || f == 1 {
        f * 4096 + vx(v) * 64 + vy(v)
    } else if f == 2 || f == 3 {
        f * 4096 + vx(v) * 64 + vz(v)
    } else {
        f * 4096 + vy(v) * 64 + vz(v)
    }
}

/// Whether the neighbour that face `f` of block `v` looks at is empty: read from the
/// blocks inside the chunk, from the border outside it.
pub open spec fn neighbour_void(blocks: Seq<u16>, border: Seq<bool>, v: int, f: int) -> bool {
    let (dx, dy, dz) = face_dir(f);
    let (nx, ny, nz) = (vx(v) + dx, vy(v) + dy, vz(v) + dz);
    if in_chunk3(nx, ny, nz) {
        blocks[nx * 4096 + ny * 64 + nz] == 0
    } else {
        border[border_slot(v, f)]
    }
}

/// A face is drawn when its block is not empty and the neighbour it looks at is.
pub open spec fn face_drawn(blocks: Seq<u16>, border: Seq<bool>, v: int, f: int) -> bool {
    blocks[v] != 0 && neighbour_void(blocks, border, v, f)
}

/// The two 32-bit words of a packed vertex: high half first.
pub open spec fn split_words(p: u64) -> Seq<u32> {
    seq![(p / 0x1_0000_0000) as u32, (p % 0x1_0000_0000) as u32]
}

pub open spec fn corner_vertex(id: u16, v: int, f: int, c: int) -> u64 {
    let (dx, dy, dz, t) = face_corner(f, c);
    packed_vertex(id, (vx(v) + dx) as i32, (vy(v) + dy) as i32, (vz(v) + dz) as i32, face_code(f), t)
}

/// The eight words of the four corners of face `f` of block `v`.
pub open spec fn face_words(id: u16, v: int, f: int) -> Seq<u32> {
    split_words(corner_vertex(id, v, f, 0)) + split_words(corner_vertex(id, v, f, 1))
        + split_words(corner_vertex(id, v, f, 2)) + split_words(corner_vertex(id, v, f, 3))
}

/// The two triangles of a face whose first vertex has index `b`.
pub open spec fn quad_indices(b: int) -> Seq<u32> {
    seq![b as u32, (b + 2) as u32, (b + 1) as u32, b as u32, (b + 3) as u32, (b + 2) as u32]
}

/// Number of faces drawn among the first `t` face slots (slot `6 * v + f` is face `f`
/// of block `v`).
pub open spec fn faces_before(blocks: Seq<u16>, border: Seq<bool>, t: nat) -> nat
    decreases t,
{
    if t == 0 {
        0
    } else {
        let s = (t - 1) as int;
        faces_before(blocks, border, (t - 1) as nat) + if face_drawn(blocks, border, s / 6, s % 6) {
            1nat
        } else {
            0nat
        }
    }
}

/// The vertex words of the faces drawn among the first `t` face slots, in slot order.
pub open spec fn mesh_vertices(blocks: Seq<u16>, border: Seq<bool>, t: nat) -> Seq<u32>
    decreases t,
{
    if t == 0 {
        seq![]
    } else {
        let s = (t - 1) as int;
        let prev = mesh_vertices(blocks, border, (t - 1) as nat);
        if face_drawn(blocks, border, s / 6, s % 6) {
            prev + face_words(blocks[s / 6], s / 6, s % 6)
        } else {
            prev
        }
    }
}

/// The triangle indices of the faces drawn among the first `t` face slots: each face
/// gets the next four vertex indices.
pub open spec fn mesh_indices(blocks: Seq<u16>, border: Seq<bool>, t: nat) -> Seq<u32>
    decreases t,
{
    if t == 0 {
        seq![]
    } else {
        let s = (t - 1) as int;
        let prev = mesh_indices(blocks, border, (t - 1) as nat);
        if face_drawn(blocks, border, s / 6, s % 6) {
            prev + quad_indices(4 * faces_before(blocks, border, (t - 1) as nat) as int)
        } else {
            prev
        }
    }
}

pub(crate) proof fn lemma_faces_before_bound(blocks: Seq<u16>, border: Seq<bool>, t: nat)
    ensures
        faces_before(blocks, border, t) <= t,
    decreases t,
{
    if t > 0 {
        lemma_faces_before_bound(blocks, border, (t - 1) as nat);
    }
}

pub(crate) proof fn lemma_mesh_lengths(blocks: Seq<u16>, border: Seq<bool>, t: nat)
    ensures
        mesh_vertices(blocks, border, t).len() == 8 * faces_before(blocks, border, t),
        mesh_indices(blocks, border, t).len() == 6 * faces_before(blocks, border, t),
    decreases t,
{
    if t > 0 {
        lemma_mesh_lengths(blocks, border, (t - 1) as nat);
    }
}

/// A chunk mesh holds at most six faces per block: at most `4 * FACE_SLOTS` vertices.
pub proof fn lemma_mesh_size(blocks: Seq<u16>, border: Seq<bool>)
    ensures
        mesh_indices(blocks, border, FACE_SLOTS as nat).len() <= 6 * FACE_SLOTS,
        mesh_vertices(blocks, border, FACE_SLOTS as nat).len() <= 8 * FACE_SLOTS,
{
    lemma_faces_before_bound(blocks, border, FACE_SLOTS as nat);
    lemma_mesh_lengths(blocks, border, FACE_SLOTS as nat);
}

/// Every triangle of a chunk mesh is made of vertices of that mesh: each index is
/// below the number of vertices, which take two words each.
pub proof fn lemma_mesh_indices_in_range(blocks: Seq<u16>, border: Seq<bool>, t: nat)
    requires
        t <= FACE_SLOTS,
    ensures
        mesh_vertices(blocks, border, t).len() == 2 * (4 * faces_before(blocks, border, t)),
        forall|j: int|
            0 <= j < mesh_indices(blocks, border, t).len() ==> #[trigger] mesh_indices(blocks, border, t)[j]
                < 4 * faces_before(blocks, border, t),
    decreases t,
{
    lemma_mesh_lengths(blocks, border, t);
    if t > 0 {
        let t1 = (t - 1) as nat;
        lemma_mesh_indices_in_range(blocks, border, t1);
        lemma_faces_before_bound(blocks, border, t1);
        let s = t1 as int;
        let prev = mesh_indices(blocks, border, t1);
        let cur = mesh_indices(blocks, border, t);
        let n = faces_before(blocks, border, t1);
        if face_drawn(blocks, border, s / 6, s % 6) {
            let q = quad_indices(4 * n as int);
            assert(cur == prev + q);
            assert(faces_before(blocks, border, t) == n + 1);
            assert forall|j: int| 0 <= j < cur.len() implies #[trigger] cur[j] < 4 * (n + 1) by {
                if j >= prev.len() {
                    assert(cur[j] == q[j - prev.len()]);
                } else {
                    assert(cur[j] == prev[j]);
                }
            }
        } else {
            assert(cur == prev);
            assert(faces_before(blocks, border, t) == n);
        }
    }
}

/// Exec form of `face_dir`, `face_code` and `face_corner`.
pub(crate) fn face_table(f: usize) -> (r: (i32, i32, i32, u32, [(i32, i32, i32, u8); 4]))
    requires
        f < 6,
    ensures
        (r.0 as int, r.1 as int, r.2 as int) == face_dir(f as int),
        r.3 == face_code(f as int),
        forall|c: int|
            0 <= c < 4 ==> (r.4[c].0 as int, r.4[c].1 as int, r.4[c].2 as int, r.4[c].3)
                == #[trigger] face_corner(f as int, c),
{
    if f == 0 {
        (0, 0, 1, 1, [(0, 0, 1, 0), (0, 1, 1, 1), (1, 1, 1, 3), (1, 0, 1, 2)])
    } else if f == 1 {
        (0, 0, -1, 4, [(0, 0, 0, 2), (1, 0, 0, 0), (1, 1, 0, 1), (0, 1, 0, 3)])
    } else if f == 2 {
        (0, 1, 0, 0, [(0, 1, 0, 2), (1, 1, 0, 0), (1, 1, 1, 1), (0, 1, 1, 3)])
    } else if f == 3 {
        (0, -1, 0, 5, [(0, 0, 0, 1), (0, 0, 1, 3), (1, 0, 1, 2), (1, 0, 0, 0)])
    } else if f == 4 {
        (1, 0, 0, 2, [(1, 0, 0, 2), (1, 0, 1, 0), (1, 1, 1, 1), (1, 1, 0, 3)])
    } else {
        (-1, 0, 0, 3, [(0, 0, 0, 0), (0, 1, 0, 1), (0, 1, 1, 3), (0, 0, 1, 2)])
    }
}

/// The high and low words of a 64-bit value.
pub(crate) fn split_u64(p: u64) -> (r: (u32, u32))
    ensures
        seq![r.0, r.1] == split_words(p),
{
    let hi = (p >> 32u64) as u32;
    let lo = (p & 0xFFFF_FFFFu64) as u32;
    assert(hi == (p / 0x1_0000_0000) as u32) by (bit_vector)
        requires
            hi == (p >> 32u64) as u32,
    ;
    assert(lo == (p % 0x1_0000_0000) as u32) by (bit_vector)
        requires
            lo == (p & 0xFFFF_FFFFu64) as u32,
    ;
    (hi, lo)
}

/// Growing vertex and index buffers of a chunk mesh.
pub struct MeshBuffers {
    pub vertices: Vec<u32>,
    pub indices: Vec<u32>,
}

impl MeshBuffers {
    /// Appends the four vertices of a face (two words each) and its two triangles,
    /// whose first vertex gets index `index`; returns the index of the next face.
    pub fn add_data(&mut self, v: [u64; 4], index: u32) -> (next: u32)
        requires
            index + 4 <= u32::MAX,
        ensures
            next == index + 4,
            final(self).vertices@ == old(self).vertices@ + split_words(v[0]) + split_words(v[1])
                + split_words(v[2]) + split_words(v[3]),
            final(self).indices@ == old(self).indices@ + quad_indices(index as int),
    {
        let ghost v0 = self.vertices@;
        let mut i: usize = 0;
        while i < 4
            invariant
                0 <= i <= 4,
                self.indices@ == old(self).indices@,
                self.vertices@.len() == v0.len() + 2 * i,
                self.vertices@ == v0 + (if i == 0 {
                    seq![]
                } else if i == 1 {
                    split_words(v[0])
                } else if i == 2 {
                    split_words(v[0]) + split_words(v[1])
                } else if i == 3 {
                    split_words(v[0]) + split_words(v[1]) + split_words(v[2])
                } else {
                    split_words(v[0]) + split_words(v[1]) + split_words(v[2]) + split_words(v[3])
                }),
            decreases 4 - i,
        {
            let (hi, lo) = split_u64(v[i]);
            let ghost before = self.vertices@;
            self.vertices.push(hi);
            self.vertices.push(lo);
            assert(self.vertices@ =~= before + split_words(v[i as int]));
            i = i + 1;
            proof {
                if i == 1 {
                    assert(self.vertices@ =~= v0 + split_words(v[0]));
                } else if i == 2 {
                    assert(self.vertices@ =~= v0 + (split_words(v[0]) + split_words(v[1])));
                } else if i == 3 {
                    assert(self.vertices@ =~= v0 + (split_words(v[0]) + split_words(v[1]) + split_words(v[2])));
                } else {
                    assert(self.vertices@ =~= v0 + (split_words(v[0]) + split_words(v[1]) + split_words(v[2]) + split_words(v[3])));
                }
            }
        }
        assert(self.vertices@ =~= v0 + split_words(v[0]) + split_words(v[1]) + split_words(v[2]) + split_words(v[3]));
        let ghost i0 = self.indices@;
        self.indices.push(index);
        self.indices.push(index + 2);
        self.indices.push(index + 1);
        self.indices.push(index);
        self.indices.push(index + 3);
        self.indices.push(index + 2);
        assert(self.indices@ =~= i0 + quad_indices(index as int));
        index + 4
    }
}

pub(crate) proof fn lemma_block_coords(x: int, y: int, z: int)
    requires
        0 <= x < 64,
        0 <= y < 64,
        0 <= z < 64,
    ensures
        vx(x * 4096 + y * 64 + z) == x,
        vy(x * 4096 + y * 64 + z) == y,
        vz(x * 4096 + y * 64 + z) == z,
        0 <= x * 4096 + y * 64 + z < 262144,
{
    let v = x * 4096 + y * 64 + z;
    assert(v / 4096 == x) by (nonlinear_arith)
        requires
            v == x * 4096 + y * 64 + z,
            0 <= y * 64 + z < 4096,
    ;
    assert(v / 64 == x * 64 + y) by (nonlinear_arith)
        requires
            v == x * 4096 + y * 64 + z,
            0 <= z < 64,
    ;
    assert((x * 64 + y) % 64 == y) by (nonlinear_arith)
        requires
            0 <= y < 64,
            0 <= x,
    ;
    assert(v % 64 == z) by (nonlinear_arith)
        requires
            v == x * 4096 + y * 64 + z,
            0 <= z < 64,
            0 <= x,
            0 <= y,
    ;
}

/// Exec form of `neighbour_void`.
fn is_void(blocks: &Vec<u16>, border: &Vec<bool>, x: usize, y: usize, z: usize, f: usize) -> (r: bool)
    requires
        blocks@.len() == CHUNK_VOLUME,
        border@.len() == BORDER_CELLS,
        x < 64,
        y < 64,
        z < 64,
        f < 6,
    ensures
        r == neighbour_void(blocks@, border@, x * 4096 + y * 64 + z, f as int),
{
    proof {
        lemma_block_coords(x as int, y as int, z as int);
    }
    let (dx, dy, dz, _code, _corners) = face_table(f);
    let nx = x as i32 + dx;
    let ny = y as i32 + dy;
    let nz = z as i32 + dz;
    if 0 <= nx && nx < 64 && 0 <= ny && ny < 64 && 0 <= nz && nz < 64 {
        blocks[nx as usize * 4096 + ny as usize * 64 + nz as usize] == 0
    } else {
        let slot = if f == 0 || f == 1 {
            f * 4096 + x * 64 + y
        } else if f == 2 || f == 3 {
            f * 4096 + x * 64 + z
        } else {
            f * 4096 + y * 64 + z
        };
        border[slot]
    }
}

/// The packed vertices of the four corners of face `f` of block `(x, y, z)`.
fn face_corners(id: u16, x: usize, y: usize, z: usize, f: usize) -> (packed: [u64; 4])
    requires
        x < 64,
        y < 64,
        z < 64,
        f < 6,
    ensures
        forall|k: int| 0 <= k < 4 ==> packed[k] == #[trigger] corner_vertex(id, x * 4096 + y * 64 + z, f as int, k),
{
    let ghost v: int = x * 4096 + y * 64 + z;
    proof {
        lemma_block_coords(x as int, y as int, z as int);
    }
    let (_dx, _dy, _dz, code, corners) = face_table(f);
    let mut packed: [u64; 4] = [0, 0, 0, 0];
    let mut c: usize = 0;
    while c < 4
        invariant
            c <= 4,
            x < 64,
            y < 64,
            z < 64,
            f < 6,
            v == x * 4096 + y * 64 + z,
            vx(v) == x,
            vy(v) == y,
            vz(v) == z,
            code == face_code(f as int),
            forall|k: int|
                0 <= k < 4 ==> (corners[k].0 as int, corners[k].1 as int, corners[k].2 as int, corners[k].3)
                    == #[trigger] face_corner(f as int, k),
            forall|k: int| 0 <= k < c ==> packed[k] == #[trigger] corner_vertex(id, v, f as int, k),
        decreases 4 - c,
    {
        let (cx, cy, cz, tex) = corners[c];
        assert(face_corner(f as int, c as int) == (cx as int, cy as int, cz as int, tex));
        assert(0 <= cx <= 1 && 0 <= cy <= 1 && 0 <= cz <= 1);
        let pos = (x as i32 + cx, y as i32 + cy, z as i32 + cz);
        let p = Vertex::pack_data(id, pos, code, tex).unwrap();
        packed[c] = p;
        c = c + 1;
    }
    packed
}

/// Appends face `f` of block `(x, y, z)` when it is drawn: the step from face slot `t`
/// to slot `t + 1` of `mesh_vertices` and `mesh_indices`.
fn emit_face(
    buf: &mut MeshBuffers,
    blocks: &Vec<u16>,
    border: &Vec<bool>,
    x: usize,
    y: usize,
    z: usize,
    f: usize,
    index: u32,
) -> (next: u32)
    requires
        blocks@.len() == CHUNK_VOLUME,
        border@.len() == BORDER_CELLS,
        x < 64,
        y < 64,
        z < 64,
        f < 6,
        old(buf).vertices@ == mesh_vertices(blocks@, border@, ((x * 4096 + y * 64 + z) * 6 + f) as nat),
        old(buf).indices@ == mesh_indices(blocks@, border@, ((x * 4096 + y * 64 + z) * 6 + f) as nat),
        index == 4 * faces_before(blocks@, border@, ((x * 4096 + y * 64 + z) * 6 + f) as nat),
    ensures
        final(buf).vertices@ == mesh_vertices(blocks@, border@, ((x * 4096 + y * 64 + z) * 6 + f + 1) as nat),
        final(buf).indices@ == mesh_indices(blocks@, border@, ((x * 4096 + y * 64 + z) * 6 + f + 1) as nat),
        next == 4 * faces_before(blocks@, border@, ((x * 4096 + y * 64 + z) * 6 + f + 1) as nat),
{
    let ghost v: int = (x * 4096 + y * 64 + z) as int;
    let ghost t: int = v * 6 + f;
    proof {
        lemma_block_coords(x as int, y as int, z as int);
        assert(t / 6 == v);
        assert(t % 6 == f);
        lemma_faces_before_bound(blocks@, border@, t as nat);
    }
    let vi = x * 4096 + y * 64 + z;
    let id = blocks[vi];
    let void = is_void(blocks, border, x, y, z, f);
    if id != 0 && void {
        let packed = face_corners(id, x, y, z, f);
        let next = buf.add_data(packed, index);
        proof {
            assert(face_drawn(blocks@, border@, t / 6, t % 6));
            assert(face_words(blocks@[v], v, f as int) =~= split_words(packed[0]) + split_words(packed[1])
                + split_words(packed[2]) + split_words(packed[3]));
            assert(buf.vertices@ =~= mesh_vertices(blocks@, border@, (t + 1) as nat));
            assert(buf.indices@ =~= mesh_indices(blocks@, border@, (t + 1) as nat));
        }
        next
    } else {
        proof {
            assert(!face_drawn(blocks@, border@, t / 6, t % 6));
        }
        index
    }
}

/// The vertex and index buffers of the mesh of a chunk: for each block in index order
/// and each of its six faces in order, the face is drawn when the block is not empty
/// and the neighbour it looks at is empty (see `mesh_vertices`, `mesh_indices`).
pub fn build_faces(blocks: &Vec<u16>, border: &Vec<bool>) -> (buf: MeshBuffers)
    requires
        blocks@.len() == CHUNK_VOLUME,
        border@.len() == BORDER_CELLS,
    ensures
        buf.vertices@ == mesh_vertices(blocks@, border@, FACE_SLOTS as nat),
        buf.indices@ == mesh_indices(blocks@, border@, FACE_SLOTS as nat),
{
    let mut buf = MeshBuffers { vertices: Vec::new(), indices: Vec::new() };
    let mut index: u32 = 0;
    let mut x: usize = 0;
    while x < 64
        invariant
            x <= 64,
            blocks@.len() == CHUNK_VOLUME,
            border@.len() == BORDER_CELLS,
            buf.vertices@ == mesh_vertices(blocks@, border@, (x * 4096 * 6) as nat),
            buf.indices@ == mesh_indices(blocks@, border@, (x * 4096 * 6) as nat),
            index == 4 * faces_before(blocks@, border@, (x * 4096 * 6) as nat),
        decreases 64 - x,
    {
        let mut y: usize = 0;
        while y < 64
            invariant
                x < 64,
                y <= 64,
                blocks@.len() == CHUNK_VOLUME,
                border@.len() == BORDER_CELLS,
                buf.vertices@ == mesh_vertices(blocks@, border@, ((x * 4096 + y * 64) * 6) as nat),
                buf.indices@ == mesh_indices(blocks@, border@, ((x * 4096 + y * 64) * 6) as nat),
                index == 4 * faces_before(blocks@, border@, ((x * 4096 + y * 64) * 6) as nat),
            decreases 64 - y,
        {
            let mut z: usize = 0;
            while z < 64
                invariant
                    x < 64,
                    y < 64,
                    z <= 64,
                    blocks@.len() == CHUNK_VOLUME,
                    border@.len() == BORDER_CELLS,
                    buf.vertices@ == mesh_vertices(blocks@, border@, ((x * 4096 + y * 64 + z) * 6) as nat),
                    buf.indices@ == mesh_indices(blocks@, border@, ((x * 4096 + y * 64 + z) * 6) as nat),
                    index == 4 * faces_before(blocks@, border@, ((x * 4096 + y * 64 + z) * 6) as nat),
                decreases 64 - z,
            {
                let mut f: usize = 0;
                while f < 6
                    invariant
                        x < 64,
                        y < 64,
                        z < 64,
                        f <= 6,
                        blocks@.len() == CHUNK_VOLUME,
                        border@.len() == BORDER_CELLS,
                        buf.vertices@ == mesh_vertices(blocks@, border@, ((x * 4096 + y * 64 + z) * 6 + f) as nat),
                        buf.indices@ == mesh_indices(blocks@, border@, ((x * 4096 + y * 64 + z) * 6 + f) as nat),
                        index == 4 * faces_before(blocks@, border@, ((x * 4096 + y * 64 + z) * 6 + f) as nat),
                    decreases 6 - f,
                {
                    index = emit_face(&mut buf, blocks, border, x, y, z, f, index);
                    f = f + 1;
                }
                z = z + 1;
            }
            y = y + 1;
        }
        x = x + 1;
    }
    buf
}

} // verus!
