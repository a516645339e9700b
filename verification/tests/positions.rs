use opengl_project::common::bits::Bits;
use opengl_project::common::pos::{div_trunc, rem_trunc, ChunkPos, IBlockPos, CHUNK_SIZE, CHUNK_VOLUME};

fn bytes_of(bits: &Bits) -> Vec<u8> {
    assert_eq!(bits.len() % 8, 0);
    (0..bits.len() / 8)
        .map(|b| (0..8).fold(0u8, |acc, k| acc | ((bits.get(8 * b + k) as u8) << k)))
        .collect()
}

#[test]
fn chunk_size_and_volume() {
    assert_eq!(CHUNK_SIZE, 64);
    assert_eq!(CHUNK_VOLUME, 64 * 64 * 64);
}

#[test]
fn truncating_division_follows_rust() {
    assert_eq!(div_trunc(-7, 2), -3);
    assert_eq!(rem_trunc(-7, 2), -1);
    assert_eq!(div_trunc(7, -2), -3);
    assert_eq!(rem_trunc(7, -2), 1);
    assert_eq!(div_trunc(130, 64), 2);
    assert_eq!(rem_trunc(130, 64), 2);
}

#[test]
fn split_of_negative_block_position() {
    let p = IBlockPos::new(-1, 64, 130);
    let (local, chunk) = p.as_split_pos();
    assert_eq!(chunk, ChunkPos::new(-1, 1, 2));
    assert_eq!(local, IBlockPos::new(63, 0, 2));
    assert_eq!(p.get_chunk_pos(), chunk);
    assert_eq!(p.get_block_pos(), local);
}

#[test]
fn split_recombines_to_the_position() {
    for &(x, y, z) in &[(-1, 0, 0), (-64, -65, 63), (1000, -1000, 0), (i32::MIN, i32::MAX, 7)] {
        let p = IBlockPos::new(x, y, z);
        let (local, chunk) = p.as_split_pos();
        assert!(0 <= local.x && local.x < 64 && 0 <= local.y && local.y < 64 && 0 <= local.z && local.z < 64);
        assert_eq!(chunk.x as i64 * 64 + local.x as i64, x as i64);
        assert_eq!(chunk.y as i64 * 64 + local.y as i64, y as i64);
        assert_eq!(chunk.z as i64 * 64 + local.z as i64, z as i64);
    }
}

#[test]
fn index_of_block_in_chunk() {
    assert_eq!(IBlockPos::new(1, 2, 3).get_index(), 4096 + 128 + 3);
    assert_eq!(IBlockPos::new(63, 63, 63).get_index(), CHUNK_VOLUME - 1);
    assert_eq!(IBlockPos::new(0, 0, 0).get_index(), 0);
}

#[test]
fn chunk_pos_serialize_roundtrip() {
    let p = ChunkPos::new(-5, 1 << 20, i32::MIN);
    let bits = p.serialize();
    assert_eq!(bits.len(), 96);
    let bytes = bytes_of(&bits);
    assert_eq!(bytes.len(), 12);
    assert_eq!(ChunkPos::deserialize(bytes), p);
}

#[test]
fn block_pos_serialize_roundtrip() {
    let p = IBlockPos::new(123, -456, 789);
    let bytes = bytes_of(&p.serialize());
    assert_eq!(bytes.len(), 12);
    assert_eq!(IBlockPos::deserialize(bytes), p);
}

#[test]
fn serialize_writes_native_bytes() {
    let bits = ChunkPos::new(1, 2, 3).serialize();
    assert_eq!(bits.get(0), 1i32.to_ne_bytes()[0] & 1 == 1);
    let bytes = bytes_of(&bits);
    let mut expected = Vec::new();
    expected.extend_from_slice(&1i32.to_ne_bytes());
    expected.extend_from_slice(&2i32.to_ne_bytes());
    expected.extend_from_slice(&3i32.to_ne_bytes());
    assert_eq!(bytes, expected);
}

#[test]
fn deserialize_reads_first_twelve_bytes() {
    let mut bytes = bytes_of(&ChunkPos::new(7, 8, 9).serialize());
    bytes.push(0xFF);
    bytes.push(0xEE);
    assert_eq!(ChunkPos::deserialize(bytes), ChunkPos::new(7, 8, 9));
}

#[test]
fn single_value_positions() {
    assert_eq!(ChunkPos::from_single_value(0, 20), ChunkPos::new(-9, 0, -9));
    assert_eq!(ChunkPos::from_single_value(7, 20), ChunkPos::new(-9, 0, -2));
    assert_eq!(ChunkPos::from_single_value(421, 20), ChunkPos::new(-8, 1, -8));
    assert_eq!(ChunkPos::from_single_value(400, 20), ChunkPos::new(-8, 0, -9));
    assert_eq!(ChunkPos::from_single_value(25, 20), ChunkPos::new(-9, 1, -4));
}

#[test]
fn single_value_decomposes() {
    // i == 20 * 20 * x + 20 * y + z before the square is centred by 9
    assert_eq!(ChunkPos::from_single_value(140, 20), ChunkPos::new(-9, 7, -9));
    assert_eq!(ChunkPos::from_single_value(400 * 3 + 20 * 19 + 5, 20), ChunkPos::new(3 - 9, 19, 5 - 9));
}

#[test]
fn from_absolute_shifts_horizontally() {
    assert_eq!(ChunkPos::from_absolute(5, 3, 7, 2), ChunkPos::new(3, 3, 5));
}

#[test]
fn chunk_pos_arithmetic() {
    let a = ChunkPos::new(1, -2, 3);
    let b = ChunkPos::new(10, 20, -30);
    assert_eq!(a.add(b), ChunkPos::new(11, 18, -27));
    assert_eq!(a.add(b).sub(b), a);
    assert_eq!(a.mul(3), ChunkPos::new(3, -6, 9));
    assert_eq!(a.mul_usize(64), ChunkPos::new(64, -128, 192));
    assert_eq!(a.abs(), ChunkPos::new(1, 2, 3));
    assert_eq!(a.flattened(), ChunkPos::new(1, 0, 3));
    assert_eq!(a.get_vec3(), (1, -2, 3));
    assert_eq!(ChunkPos::from_i32(4, 5, 6), ChunkPos::new(4, 5, 6));
}

#[test]
fn chunk_pos_add_block() {
    let c = ChunkPos::new(-1, 0, 2);
    assert_eq!(c.add_iblock(IBlockPos::new(3, 64, -1)), IBlockPos::new(-61, 64, 127));
}

#[test]
fn lesser_then_or_equal_is_componentwise() {
    let a = ChunkPos::new(1, 2, 3);
    assert!(a.lesser_then_or_equal(ChunkPos::new(1, 2, 3)));
    assert!(a.lesser_then_or_equal(ChunkPos::new(5, 2, 3)));
    assert!(!a.lesser_then_or_equal(ChunkPos::new(5, 1, 3)));
}

#[test]
fn not_inside_always_false() {
    assert!(!ChunkPos::new(0, 0, 0).not_inside(ChunkPos::new(0, 0, 0), 4));
    assert!(!ChunkPos::new(100, 0, 0).not_inside(ChunkPos::new(0, 0, 0), 1));
}

#[test]
fn keys_are_distinct() {
    let a = ChunkPos::new(0, 0, 1).get_key();
    let b = ChunkPos::new(0, 1, 0).get_key();
    let c = ChunkPos::new(1, 0, 0).get_key();
    let d = ChunkPos::new(-1, 0, 0).get_key();
    assert!(a != b && a != c && b != c && c != d && a != d);
    assert_eq!(ChunkPos::new(3, 4, 5).get_key(), ChunkPos::new(3, 4, 5).get_key());
}

#[test]
fn block_pos_constructors_and_ops() {
    assert_eq!(IBlockPos::from_vec3((1, 2, 3)), IBlockPos::new(1, 2, 3));
    assert_eq!(IBlockPos::from_array([1, 2, 3]), IBlockPos::new(1, 2, 3));
    assert_eq!(IBlockPos::new(-130, 130, 63).div(64), IBlockPos::new(-2, 2, 0));
    assert_eq!(IBlockPos::new(1, 2, 3).add((10, -20, 30)), IBlockPos::new(11, -18, 33));
}
