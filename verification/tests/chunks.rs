use opengl_project::common::block::BlockType;
use opengl_project::common::chunk::Chunk;
use opengl_project::common::chunkmap::{ChunkMap, MAX_CHUNK_Y, MIN_CHUNK_Y};
use opengl_project::common::pos::{ChunkPos, IBlockPos, CHUNK_VOLUME};

fn air_chunk(pos: ChunkPos) -> Chunk {
    Chunk::new(pos, vec![0u16; CHUNK_VOLUME])
}

#[test]
fn block_values() {
    assert_eq!(BlockType::AIR.get_value(), 0);
    assert_eq!(BlockType::DIRT.get_value(), 1);
    assert_eq!(BlockType::STONE.get_value(), 2);
    assert_eq!(BlockType::DEEPSLATE.get_value(), 3);
    assert_eq!(BlockType::PlatinumOre.get_value(), 4);
    assert_eq!(BlockType::IKRINEBLOCK.get_value(), 5);
    assert_eq!(BlockType::IkrineOre.get_value(), 6);
    assert_eq!(BlockType::StoneBricks.get_value(), 7);
    assert_eq!(BlockType::GRASS.get_value(), 8);
}

#[test]
fn chunk_set_block_reports_change() {
    let mut c = air_chunk(ChunkPos::new(0, 0, 0));
    assert!(c.set_block(IBlockPos::new(1, 2, 3), BlockType::STONE));
    assert!(!c.set_block(IBlockPos::new(1, 2, 3), BlockType::STONE));
    assert_eq!(c.get_block_at(IBlockPos::new(1, 2, 3)), 2);
    assert!(c.set_block(IBlockPos::new(1, 2, 3), BlockType::AIR));
    assert_eq!(c.get_block_at(IBlockPos::new(1, 2, 3)), 0);
}

#[test]
fn chunk_set_block_uses_position_inside_chunk() {
    let mut c = air_chunk(ChunkPos::new(-1, 0, 0));
    c.set_block(IBlockPos::new(-1, 65, 2), BlockType::DIRT);
    assert_eq!(c.get_block_at(IBlockPos::new(63, 1, 2)), 1);
}

#[test]
fn chunk_get_block_outside_is_air() {
    let c = Chunk::new(ChunkPos::new(0, 0, 0), vec![2u16; CHUNK_VOLUME]);
    assert_eq!(c.get_block_at(IBlockPos::new(0, 0, 0)), 2);
    assert_eq!(c.get_block_at(IBlockPos::new(-1, 0, 0)), 0);
    assert_eq!(c.get_block_at(IBlockPos::new(0, 64, 0)), 0);
    assert_eq!(c.get_chunk_pos(), ChunkPos::new(0, 0, 0));
    assert_eq!(c.get_blocks().len(), CHUNK_VOLUME);
}

#[test]
fn chunk_serialize_little_endian_pairs() {
    let mut blocks = vec![0u16; CHUNK_VOLUME];
    blocks[0] = 0x0102;
    blocks[1] = 7;
    let c = Chunk::new(ChunkPos::new(0, 0, 0), blocks);
    let bytes = c.serialize();
    assert_eq!(bytes.len(), 2 * CHUNK_VOLUME);
    assert_eq!(&bytes[0..4], &[0x02, 0x01, 7, 0]);
    for i in 0..CHUNK_VOLUME {
        let v = bytes[2 * i] as u16 + 256 * bytes[2 * i + 1] as u16;
        assert_eq!(v, c.get_blocks()[i]);
    }
}

#[test]
fn map_add_chunk_once() {
    let mut m = ChunkMap::new();
    let p = ChunkPos::new(3, 0, -4);
    assert!(m.add_chunk(air_chunk(p)));
    assert!(m.contains_chunk(&p));
    assert!(!m.add_chunk(Chunk::new(p, vec![2u16; CHUNK_VOLUME])));
    assert_eq!(m.get_block_at(IBlockPos::new(192, 0, -256)), 0);
}

#[test]
fn map_rejects_layers_out_of_range() {
    let mut m = ChunkMap::new();
    assert!(!m.add_chunk(air_chunk(ChunkPos::new(0, MIN_CHUNK_Y - 1, 0))));
    assert!(!m.add_chunk(air_chunk(ChunkPos::new(0, MAX_CHUNK_Y + 1, 0))));
    assert!(m.add_chunk(air_chunk(ChunkPos::new(0, MIN_CHUNK_Y, 0))));
    assert!(m.add_chunk(air_chunk(ChunkPos::new(0, MAX_CHUNK_Y, 0))));
    assert!(!m.contains_chunk(&ChunkPos::new(0, MAX_CHUNK_Y + 1, 0)));
}

#[test]
fn map_set_then_get() {
    let mut m = ChunkMap::new();
    m.add_chunk(air_chunk(ChunkPos::new(-1, 0, 0)));
    m.add_chunk(air_chunk(ChunkPos::new(0, 0, 0)));
    let p = IBlockPos::new(-1, 5, 6);
    assert!(m.set_block(p, BlockType::DEEPSLATE));
    assert_eq!(m.get_block_at(p), 3);
    assert_eq!(m.get_block_at(IBlockPos::new(63, 5, 6)), 0);
    assert_eq!(m.get_block_at(IBlockPos::new(-2, 5, 6)), 0);
    assert!(!m.set_block(p, BlockType::DEEPSLATE));
}

#[test]
fn map_absent_chunk_reads_air() {
    let m = ChunkMap::new();
    assert_eq!(m.get_block_at(IBlockPos::new(10, 10, 10)), 0);
    assert!(m.get_chunk(&ChunkPos::new(0, 0, 0)).is_none());
}

#[test]
fn map_remove_chunk() {
    let mut m = ChunkMap::new();
    let p = ChunkPos::new(1, 1, 1);
    m.add_chunk(air_chunk(p));
    m.remove_chunk(&p);
    assert!(!m.contains_chunk(&p));
    assert!(m.add_chunk(air_chunk(p)));
    assert_eq!(m.get_chunk(&p).unwrap().get_chunk_pos(), p);
}

#[test]
fn neighbours_positions() {
    let v = ChunkMap::get_neighbours_chunks_pos(&ChunkPos::new(1, 2, 3));
    assert_eq!(
        v,
        vec![
            ChunkPos::new(0, 2, 3),
            ChunkPos::new(2, 2, 3),
            ChunkPos::new(1, 1, 3),
            ChunkPos::new(1, 3, 3),
            ChunkPos::new(1, 2, 2),
            ChunkPos::new(1, 2, 4),
            ChunkPos::new(1, 2, 3),
        ]
    );
}

#[test]
fn map_chunk_changed_in_place() {
    let mut m = ChunkMap::new();
    let p = ChunkPos::new(0, 1, 0);
    m.add_chunk(air_chunk(p));
    assert!(m.get_chunk_mut(&ChunkPos::new(5, 5, 5)).is_none());
    let c = m.get_chunk_mut(&p).unwrap();
    assert!(c.set_block(IBlockPos::new(1, 65, 1), BlockType::GRASS));
    assert_eq!(m.get_block_at(IBlockPos::new(1, 65, 1)), 8);
}
