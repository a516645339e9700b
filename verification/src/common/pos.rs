use vstd::prelude::*;
use vstd::endian::{endianness, Endian};
use crate::common::bits::{Bits, bits_of, lsb0_bits, bits_of_bytes};

verus! {

/// Number of blocks along each edge of a chunk.
pub const CHUNK_SIZE: usize = 64;

/// Number of blocks in a chunk.
pub const CHUNK_VOLUME: usize = 262144;

/// Rust's `/` on signed integers: the quotient rounded toward zero.
pub open spec fn trunc_div(x: int, d: int) -> int {
    if x == 0 {
        0
    } else if x > 0 && d > 0 {
        x / d
    } else if x < 0 && d < 0 {
        (-x) / (-d)
    } else if x < 0 {
        -((-x) / d)
    } else {
        -(x / (-d))
    }
}

/// Rust's `%` on signed integers: the remainder that takes the sign of the dividend.
pub open spec fn trunc_rem(x: int, d: int) -> int {
    if x == 0 {
        0
    } else if x > 0 && d > 0 {
        x % d
    } else if x < 0 && d < 0 {
        -((-x) % (-d))
    } else if x < 0 {
        -((-x) % d)
    } else {
        x % (-d)
    }
}

pub open spec fn fits_i32(v: int) -> bool {
    i32::MIN <= v <= i32::MAX
}

/// Floor of `v / CHUNK_SIZE`: the chunk coordinate of a block coordinate.
pub open spec fn chunk_coord(v: int) -> int {
    v / (CHUNK_SIZE as int)
}

/// `v` modulo `CHUNK_SIZE`, in `0..CHUNK_SIZE`: the block coordinate inside its chunk.
pub open spec fn local_coord(v: int) -> int {
    v % (CHUNK_SIZE as int)
}

/// `x.div_euclid(CHUNK_SIZE)`.
fn div_chunk(x: i32) -> (r: i32)
    ensures
        r == chunk_coord(x as int),
        r * 64 <= x,
        x < r * 64 + 64,
{
    let r = x.checked_div_euclid(64).unwrap();
    r
}

/// `x.rem_euclid(CHUNK_SIZE)`.
fn rem_chunk(x: i32) -> (r: i32)
    ensures
        r == local_coord(x as int),
        0 <= r < 64,
{
    let r = x.checked_rem_euclid(64).unwrap();
    r
}

/// `x / d` with Rust's rounding toward zero.
pub fn div_trunc(x: i32, d: i32) -> (r: i32)
    requires
        d != 0,
        !(x == i32::MIN && d == -1),
    ensures
        r == trunc_div(x as int, d as int),
{
    let r = x.checked_div(d);
    proof {
        let xi = x as int;
        let di = d as int;
        if xi < 0 && di < 0 {
            assert(0 <= (-xi) / (-di) <= -xi) by (nonlinear_arith)
                requires
                    -xi > 0,
                    -di > 0,
            ;
            if di == -1 {
                assert((-xi) / 1 == -xi);
            } else {
                assert((-xi) / (-di) <= (-xi) / 2) by (nonlinear_arith)
                    requires
                        -xi > 0,
                        -di >= 2,
                ;
            }
        } else if xi > 0 && di > 0 {
            assert(0 <= xi / di <= xi) by (nonlinear_arith)
                requires
                    xi > 0,
                    di > 0,
            ;
        } else if xi < 0 && di > 0 {
            assert(0 <= (-xi) / di <= -xi) by (nonlinear_arith)
                requires
                    -xi > 0,
                    di > 0,
            ;
        } else if xi > 0 && di < 0 {
            assert(0 <= xi / (-di) <= xi) by (nonlinear_arith)
                requires
                    xi > 0,
                    -di > 0,
            ;
        }
    }
    r.unwrap()
}

/// `x % d` with Rust's sign convention (the sign of `x`).
pub fn rem_trunc(x: i32, d: i32) -> (r: i32)
    requires
        d != 0,
        !(x == i32::MIN && d == -1),
    ensures
        r == trunc_rem(x as int, d as int),
{
    let r = x.checked_rem(d);
    proof {
        let xi = x as int;
        let di = d as int;
        if xi > 0 && di > 0 {
            assert(0 <= xi % di < di) by (nonlinear_arith)
                requires
                    di > 0,
            ;
        } else if xi < 0 && di < 0 {
            assert(0 <= (-xi) % (-di) < -di) by (nonlinear_arith)
                requires
                    -di > 0,
            ;
        } else if xi < 0 && di > 0 {
            assert(0 <= (-xi) % di < di) by (nonlinear_arith)
                requires
                    di > 0,
            ;
        } else if xi > 0 && di < 0 {
            assert(0 <= xi % (-di) < -di) by (nonlinear_arith)
                requires
                    -di > 0,
            ;
        }
    }
    r.unwrap()
}

/// The four bytes of `v` in memory on a machine of byte order `e`.
pub open spec fn i32_bytes(e: Endian, v: i32) -> Seq<u8> {
    let u: int = if v < 0 { v + 0x1_0000_0000 } else { v as int };
    let le = seq![
        (u % 256) as u8,
        ((u / 256) % 256) as u8,
        ((u / 65536) % 256) as u8,
        (u / 16777216) as u8,
    ];
    match e {
        Endian::Little => le,
        Endian::Big => seq![le[3], le[2], le[1], le[0]],
    }
}

/// The `i32` whose bytes in memory, on a machine of byte order `e`, are `s`.
pub open spec fn i32_of_bytes(e: Endian, s: Seq<u8>) -> i32 {
    let (b0, b1, b2, b3) = match e {
        Endian::Little => (s[0], s[1], s[2], s[3]),
        Endian::Big => (s[3], s[2], s[1], s[0]),
    };
    let u: int = b0 + 256 * b1 + 65536 * b2 + 16777216 * b3;
    (if u >= 0x8000_0000 { u - 0x1_0000_0000 } else { u }) as i32
}

/// The twelve bytes in memory of three `i32`s laid out one after another.
pub open spec fn triple_bytes(e: Endian, x: i32, y: i32, z: i32) -> Seq<u8> {
    i32_bytes(e, x) + i32_bytes(e, y) + i32_bytes(e, z)
}

/// Reading an `i32` back from its bytes gives the `i32`.
pub proof fn lemma_i32_bytes_roundtrip(e: Endian, v: i32)
    ensures
        i32_bytes(e, v).len() == 4,
        i32_of_bytes(e, i32_bytes(e, v)) == v,
{
    let u: int = if v < 0 { v + 0x1_0000_0000 } else { v as int };
    assert(0 <= u < 0x1_0000_0000);
    let a = u % 256;
    let b = (u / 256) % 256;
    let c = (u / 65536) % 256;
    let d = u / 16777216;
    assert(u == a + 256 * b + 65536 * c + 16777216 * d) by (nonlinear_arith)
        requires
            a == u % 256,
            b == (u / 256) % 256,
            c == (u / 65536) % 256,
            d == u / 16777216,
            0 <= u,
    ;
    assert(0 <= d < 256);
}

/// The bytes of `bytemuck::cast::<[i32; 3], [u8; 12]>`: the in-memory
/// representation of the three integers.
#[verifier::external_body]
fn cast_triple_to_bytes(v: [i32; 3]) -> (b: [u8; 12])
    ensures
        b@ == triple_bytes(endianness(), v[0], v[1], v[2]),
{
    bytemuck::cast::<[i32; 3], [u8; 12]>(v)
}

/// `bytemuck::cast::<[u8; 12], [i32; 3]>`: the three integers whose in-memory
/// representation is the given bytes.
#[verifier::external_body]
fn cast_bytes_to_triple(b: [u8; 12]) -> (v: [i32; 3])
    ensures
        v[0] == i32_of_bytes(endianness(), b@.subrange(0, 4)),
        v[1] == i32_of_bytes(endianness(), b@.subrange(4, 8)),
        v[2] == i32_of_bytes(endianness(), b@.subrange(8, 12)),
{
    bytemuck::cast::<[u8; 12], [i32; 3]>(b)
}

fn first_twelve(bytes: &Vec<u8>) -> (b: [u8; 12])
    requires
        bytes.len() >= 12,
    ensures
        b@ == bytes@.subrange(0, 12),
{
    let b = [
        bytes[0], bytes[1], bytes[2], bytes[3], bytes[4], bytes[5],
        bytes[6], bytes[7], bytes[8], bytes[9], bytes[10], bytes[11],
    ];
    assert(b@ =~= bytes@.subrange(0, 12));
    b
}

fn array_to_vec(b: [u8; 12]) -> (v: Vec<u8>)
    ensures
        v@ == b@,
{
    let mut v: Vec<u8> = Vec::new();
    let mut i: usize = 0;
    while i < 12
        invariant
            0 <= i <= 12,
            v@ == b@.subrange(0, i as int),
        decreases 12 - i,
    {
        v.push(b[i]);
        i = i + 1;
        assert(v@ =~= b@.subrange(0, i as int));
    }
    assert(b@.subrange(0, 12) =~= b@);
    v
}

/// Position of a chunk, in chunk units.
#[derive(Clone, Copy, PartialEq, Eq, Structural, Debug, Hash)]
pub struct ChunkPos {
    pub x: i32,
    pub y: i32,
    pub z: i32,
}

/// Integer position of a block: absolute in the world, or relative to a chunk.
#[derive(Clone, Copy, PartialEq, Eq, Structural, Debug, Hash)]
pub struct IBlockPos {
    pub x: i32,
    pub y: i32,
    pub z: i32,
}

pub open spec fn cpos(x: int, y: int, z: int) -> ChunkPos {
    ChunkPos { x: x as i32, y: y as i32, z: z as i32 }
}

pub open spec fn bpos(x: int, y: int, z: int) -> IBlockPos {
    IBlockPos { x: x as i32, y: y as i32, z: z as i32 }
}

/// A one-to-one integer for each position, by which chunk maps are keyed.
pub open spec fn pos_key(x: i32, y: i32, z: i32) -> u128 {
    ((x + 0x8000_0000) * 0x1_0000_0000_0000_0000 + (y + 0x8000_0000) * 0x1_0000_0000 + (
    z + 0x8000_0000)) as u128
}

/// Distinct positions have distinct keys.
pub proof fn lemma_pos_key_injective(a: ChunkPos, b: ChunkPos)
    ensures
        pos_key(a.x, a.y, a.z) == pos_key(b.x, b.y, b.z) <==> a == b,
{
    let ka = (a.x + 0x8000_0000) * 0x1_0000_0000_0000_0000 + (a.y + 0x8000_0000) * 0x1_0000_0000 + (
    a.z + 0x8000_0000);
    let kb = (b.x + 0x8000_0000) * 0x1_0000_0000_0000_0000 + (b.y + 0x8000_0000) * 0x1_0000_0000 + (
    b.z + 0x8000_0000);
    assert(0 <= ka < 0x1_0000_0000_0000_0000_0000_0000);
    assert(0 <= kb < 0x1_0000_0000_0000_0000_0000_0000);
}

fn key_of(x: i32, y: i32, z: i32) -> (k: u128)
    ensures
        k == pos_key(x, y, z),
{
    let a = (x as i64 + 0x8000_0000) as u128;
    let b = (y as i64 + 0x8000_0000) as u128;
    let c = (z as i64 + 0x8000_0000) as u128;
    a * 0x1_0000_0000_0000_0000 + b * 0x1_0000_0000 + c
}

impl ChunkPos {
    pub open spec fn key(self) -> u128 {
        pos_key(self.x, self.y, self.z)
    }

    /// The key of this position in a chunk map.
    pub fn get_key(&self) -> (k: u128)
        ensures
            k == self.key(),
    {
        key_of(self.x, self.y, self.z)
    }

    pub fn new(x: i32, y: i32, z: i32) -> (p: ChunkPos)
        ensures
            p == (ChunkPos { x, y, z }),
    {
        ChunkPos { x, y, z }
    }

    pub fn from_i32(x: i32, y: i32, z: i32) -> (p: ChunkPos)
        ensures
            p == (ChunkPos { x, y, z }),
    {
        ChunkPos { x, y, z }
    }

    /// The position `(x, y, z)` shifted back by `range` along the horizontal axes.
    pub fn from_absolute(x: i32, y: i32, z: i32, range: i32) -> (p: ChunkPos)
        requires
            fits_i32(x - range),
            fits_i32(z - range),
        ensures
            p == cpos(x - range, y as int, z - range),
    {
        ChunkPos { x: x - range, y, z: z - range }
    }

    pub open spec fn single_value_pos(i: i32, range: i32) -> ChunkPos {
        let half = trunc_div(range - 1, 2);
        cpos(
            trunc_rem(trunc_div(i as int, range * range), range as int) - half,
            trunc_rem(trunc_div(i as int, range as int), range as int),
            trunc_rem(i as int, range as int) - half,
        )
    }

    /// The `i`-th position of a cube of side `range`: the `(x, y, z)` with
    /// `i == range * range * x + range * y + z` (each coordinate taken modulo `range`),
    /// then moved back by `(range - 1) / 2` along the horizontal axes to centre it.
    pub fn from_single_value(i: i32, range: i32) -> (p: ChunkPos)
        requires
            range != 0,
            fits_i32(range * range),
            !(range == -1 && i == i32::MIN),
        ensures
            p == Self::single_value_pos(i, range),
    {
        proof {
            assert(range * range > 0) by (nonlinear_arith)
                requires
                    range != 0,
            ;
            assert(-46341 < range < 46341) by (nonlinear_arith)
                requires
                    range * range <= i32::MAX,
            ;
        }
        let sq = range * range;
        let a = rem_trunc(div_trunc(i, sq), range);
        let b = rem_trunc(div_trunc(i, range), range);
        let c = rem_trunc(i, range);
        let half = div_trunc(range - 1, 2);
        Self::from_absolute(a, b, c, half)
    }

    pub fn get_vec3(&self) -> (v: (i32, i32, i32))
        ensures
            v == (self.x, self.y, self.z),
    {
        (self.x, self.y, self.z)
    }

    /// The bits of the in-memory bytes of the three coordinates, each byte least
    /// significant bit first.
    pub fn serialize(&self) -> (bits: Bits)
        ensures
            bits_of(bits) == lsb0_bits(triple_bytes(endianness(), self.x, self.y, self.z)),
    {
        let bytes = array_to_vec(cast_triple_to_bytes([self.x, self.y, self.z]));
        bits_of_bytes(&bytes)
    }

    /// Reads a position back from the first twelve bytes of the bits `serialize` gives.
    pub fn deserialize(pos_bits: Vec<u8>) -> (p: ChunkPos)
        requires
            pos_bits.len() >= 12,
        ensures
            p.x == i32_of_bytes(endianness(), pos_bits@.subrange(0, 4)),
            p.y == i32_of_bytes(endianness(), pos_bits@.subrange(4, 8)),
            p.z == i32_of_bytes(endianness(), pos_bits@.subrange(8, 12)),
    {
        let b = first_twelve(&pos_bits);
        let v = cast_bytes_to_triple(b);
        assert(b@.subrange(0, 4) =~= pos_bits@.subrange(0, 4));
        assert(b@.subrange(4, 8) =~= pos_bits@.subrange(4, 8));
        assert(b@.subrange(8, 12) =~= pos_bits@.subrange(8, 12));
        ChunkPos { x: v[0], y: v[1], z: v[2] }
    }

    pub fn lesser_then_or_equal(&self, chunk_pos: ChunkPos) -> (r: bool)
        ensures
            r == (self.x <= chunk_pos.x && self.y <= chunk_pos.y && self.z <= chunk_pos.z),
    {
        self.x <= chunk_pos.x && self.y <= chunk_pos.y && self.z <= chunk_pos.z
    }

    /// Always answers `false`: no position is yet taken to lie outside the cube.
    pub fn not_inside(&self, center: ChunkPos, range: i32) -> (r: bool)
        ensures
            !r,
    {
        false
    }

    pub fn abs(&self) -> (p: ChunkPos)
        requires
            self.x != i32::MIN,
            self.y != i32::MIN,
            self.z != i32::MIN,
        ensures
            p.x == (if self.x < 0 { -self.x } else { self.x as int }),
            p.y == (if self.y < 0 { -self.y } else { self.y as int }),
            p.z == (if self.z < 0 { -self.z } else { self.z as int }),
    {
        ChunkPos {
            x: if self.x < 0 { -self.x } else { self.x },
            y: if self.y < 0 { -self.y } else { self.y },
            z: if self.z < 0 { -self.z } else { self.z },
        }
    }

    pub fn flattened(&self) -> (p: ChunkPos)
        ensures
            p == (ChunkPos { x: self.x, y: 0, z: self.z }),
    {
        ChunkPos { x: self.x, y: 0, z: self.z }
    }

    /// Componentwise product with `other`.
    pub fn mul(self, other: i32) -> (p: ChunkPos)
        requires
            fits_i32(self.x * other),
            fits_i32(self.y * other),
            fits_i32(self.z * other),
        ensures
            p == cpos(self.x * other, self.y * other, self.z * other),
    {
        ChunkPos { x: self.x * other, y: self.y * other, z: self.z * other }
    }

    /// Componentwise product with `other`, first converted with `as i32`.
    pub fn mul_usize(self, other: usize) -> (p: ChunkPos)
        requires
            fits_i32(self.x * (other as i32)),
            fits_i32(self.y * (other as i32)),
            fits_i32(self.z * (other as i32)),
        ensures
            p == cpos(self.x * (other as i32), self.y * (other as i32), self.z * (other as i32)),
    {
        self.mul(other as i32)
    }

    /// The absolute block position of `rhs`, taken relative to this chunk.
    pub fn add_iblock(self, rhs: IBlockPos) -> (p: IBlockPos)
        requires
            fits_i32(self.x * 64),
            fits_i32(self.y * 64),
            fits_i32(self.z * 64),
            fits_i32(self.x * 64 + rhs.x),
            fits_i32(self.y * 64 + rhs.y),
            fits_i32(self.z * 64 + rhs.z),
        ensures
            p == bpos(self.x * 64 + rhs.x, self.y * 64 + rhs.y, self.z * 64 + rhs.z),
    {
        let c = self.mul_usize(CHUNK_SIZE);
        IBlockPos { x: c.x + rhs.x, y: c.y + rhs.y, z: c.z + rhs.z }
    }

    pub fn add(self, rhs: ChunkPos) -> (p: ChunkPos)
        requires
            fits_i32(self.x + rhs.x),
            fits_i32(self.y + rhs.y),
            fits_i32(self.z + rhs.z),
        ensures
            p == cpos(self.x + rhs.x, self.y + rhs.y, self.z + rhs.z),
    {
        ChunkPos { x: self.x + rhs.x, y: self.y + rhs.y, z: self.z + rhs.z }
    }

    pub fn sub(self, rhs: ChunkPos) -> (p: ChunkPos)
        requires
            fits_i32(self.x - rhs.x),
            fits_i32(self.y - rhs.y),
            fits_i32(self.z - rhs.z),
        ensures
            p == cpos(self.x - rhs.x, self.y - rhs.y, self.z - rhs.z),
    {
        ChunkPos { x: self.x - rhs.x, y: self.y - rhs.y, z: self.z - rhs.z }
    }
}

impl IBlockPos {
    pub open spec fn chunk_of(self) -> ChunkPos {
        cpos(chunk_coord(self.x as int), chunk_coord(self.y as int), chunk_coord(self.z as int))
    }

    pub open spec fn local(self) -> IBlockPos {
        bpos(local_coord(self.x as int), local_coord(self.y as int), local_coord(self.z as int))
    }

    pub open spec fn in_chunk(self) -> bool {
        0 <= self.x < 64 && 0 <= self.y < 64 && 0 <= self.z < 64
    }

    pub open spec fn index(self) -> int {
        self.x * 4096 + self.y * 64 + self.z
    }

    pub fn from_vec3(pos: (i32, i32, i32)) -> (p: IBlockPos)
        ensures
            p == (IBlockPos { x: pos.0, y: pos.1, z: pos.2 }),
    {
        IBlockPos { x: pos.0, y: pos.1, z: pos.2 }
    }

    pub fn new(i1: i32, i2: i32, i3: i32) -> (p: IBlockPos)
        ensures
            p == (IBlockPos { x: i1, y: i2, z: i3 }),
    {
        Self::from_vec3((i1, i2, i3))
    }

    pub fn from_array(pos: [i32; 3]) -> (p: IBlockPos)
        ensures
            p == (IBlockPos { x: pos[0], y: pos[1], z: pos[2] }),
    {
        Self::from_vec3((pos[0], pos[1], pos[2]))
    }

    /// The position relative to its chunk, and the chunk.
    pub fn as_split_pos(&self) -> (r: (IBlockPos, ChunkPos))
        ensures
            r == (self.local(), self.chunk_of()),
    {
        (self.get_block_pos(), self.get_chunk_pos())
    }

    /// The chunk that holds this block.
    pub fn get_chunk_pos(&self) -> (c: ChunkPos)
        ensures
            c == self.chunk_of(),
    {
        ChunkPos { x: div_chunk(self.x), y: div_chunk(self.y), z: div_chunk(self.z) }
    }

    /// The position relative to the chunk that holds this block.
    pub fn get_block_pos(&self) -> (b: IBlockPos)
        ensures
            b == self.local(),
            b.in_chunk(),
    {
        IBlockPos { x: rem_chunk(self.x), y: rem_chunk(self.y), z: rem_chunk(self.z) }
    }

    /// The index of this position in the block array of a chunk.
    pub fn get_index(&self) -> (i: usize)
        requires
            self.x >= 0,
            self.y >= 0,
            self.z >= 0,
            self.index() <= usize::MAX,
        ensures
            i == self.index(),
    {
        self.x as usize * CHUNK_SIZE * CHUNK_SIZE + self.y as usize * CHUNK_SIZE + self.z as usize
    }

    /// The bits of the in-memory bytes of the three coordinates, each byte least
    /// significant bit first.
    pub fn serialize(&self) -> (bits: Bits)
        ensures
            bits_of(bits) == lsb0_bits(triple_bytes(endianness(), self.x, self.y, self.z)),
    {
        let bytes = array_to_vec(cast_triple_to_bytes([self.x, self.y, self.z]));
        bits_of_bytes(&bytes)
    }

    /// Reads a position back from the first twelve bytes of the bits `serialize` gives.
    pub fn deserialize(pos_bits: Vec<u8>) -> (p: IBlockPos)
        requires
            pos_bits.len() >= 12,
        ensures
            p.x == i32_of_bytes(endianness(), pos_bits@.subrange(0, 4)),
            p.y == i32_of_bytes(endianness(), pos_bits@.subrange(4, 8)),
            p.z == i32_of_bytes(endianness(), pos_bits@.subrange(8, 12)),
    {
        let b = first_twelve(&pos_bits);
        let v = cast_bytes_to_triple(b);
        assert(b@.subrange(0, 4) =~= pos_bits@.subrange(0, 4));
        assert(b@.subrange(4, 8) =~= pos_bits@.subrange(4, 8));
        assert(b@.subrange(8, 12) =~= pos_bits@.subrange(8, 12));
        IBlockPos { x: v[0], y: v[1], z: v[2] }
    }

    /// Componentwise division rounded toward zero.
    pub fn div(&self, rhs: i32) -> (p: IBlockPos)
        requires
            rhs != 0,
            rhs == -1 ==> self.x != i32::MIN && self.y != i32::MIN && self.z != i32::MIN,
        ensures
            p == bpos(
                trunc_div(self.x as int, rhs as int),
                trunc_div(self.y as int, rhs as int),
                trunc_div(self.z as int, rhs as int),
            ),
    {
        IBlockPos { x: div_trunc(self.x, rhs), y: div_trunc(self.y, rhs), z: div_trunc(self.z, rhs) }
    }

    /// The position moved by the vector `rhs`.
    pub fn add(self, rhs: (i32, i32, i32)) -> (p: IBlockPos)
        requires
            fits_i32(self.x + rhs.0),
            fits_i32(self.y + rhs.1),
            fits_i32(self.z + rhs.2),
        ensures
            p == bpos(self.x + rhs.0, self.y + rhs.1, self.z + rhs.2),
    {
        IBlockPos { x: self.x + rhs.0, y: self.y + rhs.1, z: self.z + rhs.2 }
    }
}


/// A block position is its chunk's origin plus its position inside the chunk, and
/// the position inside the chunk lies in the chunk.
pub proof fn lemma_split_recombines(p: IBlockPos)
    ensures
        p.chunk_of().x * 64 + p.local().x == p.x,
        p.chunk_of().y * 64 + p.local().y == p.y,
        p.chunk_of().z * 64 + p.local().z == p.z,
        p.local().in_chunk(),
{
    lemma_coord_split(p.x as int);
    lemma_coord_split(p.y as int);
    lemma_coord_split(p.z as int);
}

proof fn lemma_coord_split(v: int)
    requires
        fits_i32(v),
    ensures
        chunk_coord(v) * 64 + local_coord(v) == v,
        0 <= local_coord(v) < 64,
        fits_i32(chunk_coord(v)),
        (chunk_coord(v) as i32) as int == chunk_coord(v),
        (local_coord(v) as i32) as int == local_coord(v),
{
    assert(chunk_coord(v) * 64 + local_coord(v) == v);
    assert(-33554432 <= chunk_coord(v) < 33554432);
}

/// Two positions in the same chunk at the same place inside it are the same position.
pub proof fn lemma_split_injective(p: IBlockPos, q: IBlockPos)
    requires
        p.chunk_of() == q.chunk_of(),
        p.local() == q.local(),
    ensures
        p == q,
{
    lemma_split_recombines(p);
    lemma_split_recombines(q);
}

/// The positions inside a chunk are numbered one to one by `0..CHUNK_VOLUME`.
pub proof fn lemma_index_bijective(p: IBlockPos, q: IBlockPos)
    requires
        p.in_chunk(),
        q.in_chunk(),
    ensures
        0 <= p.index() < CHUNK_VOLUME,
        p.index() == q.index() <==> p == q,
{
    if p.index() == q.index() {
        assert(p.x == q.x) by (nonlinear_arith)
            requires
                0 <= p.y < 64,
                0 <= p.z < 64,
                0 <= q.y < 64,
                0 <= q.z < 64,
                p.x * 4096 + p.y * 64 + p.z == q.x * 4096 + q.y * 64 + q.z,
        ;
        assert(p.y == q.y) by (nonlinear_arith)
            requires
                0 <= p.z < 64,
                0 <= q.z < 64,
                p.y * 64 + p.z == q.y * 64 + q.z,
        ;
    }
}

/// Reading back the bytes whose bits `serialize` gives yields the position again, for
/// `ChunkPos` and `IBlockPos` alike: twelve bytes whose three groups of four decode to
/// `x`, `y`, `z`.
pub proof fn lemma_serialize_roundtrip(x: i32, y: i32, z: i32)
    ensures
        triple_bytes(endianness(), x, y, z).len() == 12,
        i32_of_bytes(endianness(), triple_bytes(endianness(), x, y, z).subrange(0, 4)) == x,
        i32_of_bytes(endianness(), triple_bytes(endianness(), x, y, z).subrange(4, 8)) == y,
        i32_of_bytes(endianness(), triple_bytes(endianness(), x, y, z).subrange(8, 12)) == z,
{
    let e = endianness();
    lemma_i32_bytes_roundtrip(e, x);
    lemma_i32_bytes_roundtrip(e, y);
    lemma_i32_bytes_roundtrip(e, z);
    let b = triple_bytes(e, x, y, z);
    assert(b.subrange(0, 4) =~= i32_bytes(e, x));
    assert(b.subrange(4, 8) =~= i32_bytes(e, y));
    assert(b.subrange(8, 12) =~= i32_bytes(e, z));
}

/// Subtracting what was added gives back the chunk position.
pub proof fn lemma_add_sub_inverse(a: ChunkPos, b: ChunkPos)
    requires
        fits_i32(a.x + b.x),
        fits_i32(a.y + b.y),
        fits_i32(a.z + b.z),
    ensures
        ({
            let s = cpos(a.x + b.x, a.y + b.y, a.z + b.z);
            cpos(s.x - b.x, s.y - b.y, s.z - b.z) == a
        }),
{
}

/// For coordinates that are not negative, dividing by the chunk size with Rust's `/`
/// and `%` finds the same chunk and the same place inside it as the floor division
/// that `get_chunk_pos` and `get_block_pos` use.
pub proof fn lemma_trunc_matches_floor(v: i32)
    requires
        v >= 0,
    ensures
        trunc_div(v as int, 64) == chunk_coord(v as int),
        trunc_rem(v as int, 64) == local_coord(v as int),
{
}

/// The position that `from_single_value(i, range)` gives is, before the square is
/// centred, the `(x, y, z)` with `i == range * range * x + range * y + z`, as long
/// as `i` is below `range` cubed.
pub proof fn lemma_single_value_decomposes(i: i32, range: i32)
    requires
        range > 0,
        i >= 0,
        fits_i32(range * range),
        (i as int) / (range * range) < range,
    ensures
        ({
            let p = ChunkPos::single_value_pos(i, range);
            let h = trunc_div(range - 1, 2);
            i == range * range * (p.x + h) + range * p.y + (p.z + h)
        }),
{
    let r = range as int;
    let ii = i as int;
    assert(r * r > 0) by (nonlinear_arith)
        requires
            r > 0,
    ;
    let q = ii / r;
    let c = ii % r;
    assert(ii == r * q + c && 0 <= c < r) by (nonlinear_arith)
        requires
            r > 0,
            q == ii / r,
            c == ii % r,
    ;
    assert(q >= 0) by (nonlinear_arith)
        requires
            r > 0,
            ii >= 0,
            q == ii / r,
    ;
    let a = q / r;
    let b = q % r;
    assert(q == r * a + b && 0 <= b < r) by (nonlinear_arith)
        requires
            r > 0,
            a == q / r,
            b == q % r,
    ;
    assert(a == ii / (r * r)) by {
        vstd::arithmetic::div_mod::lemma_div_denominator(ii, r, r);
    }
    assert(0 <= a < r);
    assert(a % r == a) by {
        vstd::arithmetic::div_mod::lemma_small_mod(a as nat, r as nat);
    }
    assert(ii == r * r * a + r * b + c) by (nonlinear_arith)
        requires
            ii == r * q + c,
            q == r * a + b,
    ;
    let h = trunc_div(range - 1, 2);
    assert(0 <= h < r);
    assert(trunc_div(ii, r * r) == a);
    assert(trunc_rem(a, r) == a);
    assert(trunc_div(ii, r) == q);
    assert(trunc_rem(ii, r) == c);
    assert(trunc_rem(q, r) == b);
    let p = ChunkPos::single_value_pos(i, range);
    assert(p.x == a - h);
    assert(p.y == b);
    assert(p.z == c - h);
}

} // verus!
