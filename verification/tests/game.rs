use opengl_project::common::pos::{ChunkPos, IBlockPos};
use opengl_project::game::chunk::Chunk;
use opengl_project::game::world::{
    far_chunks, is_chunk_too_far_from_player, thread_ranges, WorldData, KEEP_DISTANCE, WORLD_SIZE, WORLD_THREADS,
};
use opengl_project::mesh::chunk_mesh::ChunkMesh;

fn flat(t: i32) -> Vec<i32> {
    vec![t; 4096]
}

#[test]
fn generate_block_layers() {
    let c = Chunk::new(ChunkPos::new(0, 0, 0), &flat(0));
    assert_eq!(c.generate_block(0), 2);
    assert_eq!(c.generate_block(199), 2);
    assert_eq!(c.generate_block(200), 1);
    assert_eq!(c.generate_block(400), 1);
    assert_eq!(c.generate_block(401), 2);
}

#[test]
fn deep_chunk_is_stone() {
    let c = Chunk::new(ChunkPos::new(0, 0, 0), &flat(0));
    assert_eq!(c.get_block_at(IBlockPos::new(0, 0, 0)), 2);
    assert_eq!(c.get_block_at(IBlockPos::new(5, 63, 7)), 2);
    assert_eq!(c.get_chunk_pos(), ChunkPos::new(0, 0, 0));
}

#[test]
fn surface_chunk_has_dirt_then_air() {
    // layer 6 starts at height 384; the ground reaches 400
    let c = Chunk::new(ChunkPos::new(0, 6, 0), &flat(0));
    assert_eq!(c.get_block_at(IBlockPos::new(0, 0, 0)), 1);
    assert_eq!(c.get_block_at(IBlockPos::new(0, 15, 0)), 1);
    assert_eq!(c.get_block_at(IBlockPos::new(0, 16, 0)), 0);
    assert_eq!(c.get_block_at(IBlockPos::new(0, 63, 0)), 0);
}

#[test]
fn low_terrain_gives_air() {
    let c = Chunk::new(ChunkPos::new(0, 0, 0), &flat(-4));
    assert!(c.get_blocks().iter().all(|&b| b == 0));
}

#[test]
fn terrain_is_read_per_column() {
    let mut t = flat(-4);
    t[3 * 64 + 5] = 0;
    let c = Chunk::new(ChunkPos::new(0, 0, 0), &t);
    assert_eq!(c.get_block_at(IBlockPos::new(3, 10, 5)), 2);
    assert_eq!(c.get_block_at(IBlockPos::new(5, 10, 3)), 0);
}

#[test]
fn generated_blocks_are_air_stone_or_dirt() {
    for cy in [-1, 0, 3, 6, 7] {
        let c = Chunk::new(ChunkPos::new(0, cy, 0), &flat(0));
        assert!(c.get_blocks().iter().all(|&b| b == 0 || b == 1 || b == 2));
    }
}

#[test]
fn world_reads_inserted_chunk() {
    let mut w = WorldData::new();
    w.insert_chunk(Chunk::new(ChunkPos::new(1, 0, 0), &flat(0)));
    assert!(w.contains_chunk(&ChunkPos::new(1, 0, 0)));
    assert_eq!(w.get_block_at(IBlockPos::new(64, 3, 3)), 2);
    assert_eq!(w.get_block_at(IBlockPos::new(0, 3, 3)), 0);
}

#[test]
fn world_reads_negative_positions_toward_zero() {
    let mut w = WorldData::new();
    w.insert_chunk(Chunk::new(ChunkPos::new(-1, 0, 0), &flat(0)));
    w.insert_chunk(Chunk::new(ChunkPos::new(0, 0, 0), &flat(0)));
    // -1 / 64 == 0 and -1 % 64 == -1: the read falls outside chunk 0 and gives air
    assert_eq!(w.get_block_at(IBlockPos::new(-1, 0, 0)), 0);
    assert_eq!(w.get_block_at(IBlockPos::new(1, 0, 0)), 2);
}

#[test]
fn neighbours_check() {
    let mut w = WorldData::new();
    let c = ChunkPos::new(0, 1, 0);
    for p in [
        ChunkPos::new(-1, 1, 0),
        ChunkPos::new(1, 1, 0),
        ChunkPos::new(0, 0, 0),
        ChunkPos::new(0, 2, 0),
        ChunkPos::new(0, 1, -1),
    ] {
        w.insert_chunk(Chunk::new(p, &flat(-4)));
    }
    assert!(!w.has_all_neighbours(c));
    w.insert_chunk(Chunk::new(ChunkPos::new(0, 1, 1), &flat(-4)));
    assert!(w.has_all_neighbours(c));
}

#[test]
fn chunks_to_build_in_empty_world() {
    let w = WorldData::new();
    let v = w.chunks_to_build(ChunkPos::new(0, 0, 0));
    assert_eq!(v.len(), (2 * WORLD_SIZE * 2 * WORLD_SIZE * WORLD_SIZE) as usize);
    assert_eq!(v[0], ChunkPos::new(-WORLD_SIZE, 0, -WORLD_SIZE));
    assert_eq!(v[1], ChunkPos::new(-WORLD_SIZE, 1, -WORLD_SIZE));
}

#[test]
fn chunks_to_build_skips_present() {
    let mut w = WorldData::new();
    w.insert_chunk(Chunk::new(ChunkPos::new(-WORLD_SIZE, 0, -WORLD_SIZE), &flat(-4)));
    let v = w.chunks_to_build(ChunkPos::new(0, 0, 0));
    assert_eq!(v.len(), (2 * WORLD_SIZE * 2 * WORLD_SIZE * WORLD_SIZE) as usize - 1);
    assert_eq!(v[0], ChunkPos::new(-WORLD_SIZE, 1, -WORLD_SIZE));
}

#[test]
fn thread_ranges_share_out_all_chunks() {
    for len in [1u32, 4, 5, 64, 65, 100, 6912] {
        let r = thread_ranges(len);
        assert!(r.len() as u32 <= WORLD_THREADS);
        assert_eq!(r[0].0, 0);
        assert_eq!(r[r.len() - 1].1, len);
        for w in r.windows(2) {
            assert_eq!(w[0].1, w[1].0);
        }
        assert!(r.iter().all(|(s, e)| s < e));
    }
    assert_eq!(thread_ranges(6912), (0..16).map(|i| (432 * i, 432 * (i + 1))).collect::<Vec<_>>());
    assert_eq!(thread_ranges(10), vec![(0, 4), (4, 8), (8, 10)]);
}

fn buried(c: ChunkPos) -> WorldData {
    let mut w = WorldData::new();
    for p in [
        c,
        ChunkPos::new(c.x - 1, c.y, c.z),
        ChunkPos::new(c.x + 1, c.y, c.z),
        ChunkPos::new(c.x, c.y - 1, c.z),
        ChunkPos::new(c.x, c.y + 1, c.z),
        ChunkPos::new(c.x, c.y, c.z - 1),
        ChunkPos::new(c.x, c.y, c.z + 1),
    ] {
        w.insert_chunk(Chunk::new(p, &flat(0)));
    }
    w
}

#[test]
fn buried_chunk_has_empty_mesh() {
    let c = ChunkPos::new(1, 1, 1);
    let w = buried(c);
    let packed = w.thread_chunk_mesh(&vec![ChunkPos::new(1, 2, 1), c]);
    assert_eq!(packed.len(), 1);
    assert_eq!(packed[0].pos, c);
    assert!(!packed[0].mesh.is_linked());
    assert!(packed[0].mesh.indices.is_empty());
    assert_eq!(packed[0].mesh.nb_indices, 0);
}

#[test]
fn buried_chunk_at_origin_shows_its_low_sides() {
    // the neighbours at x == -1 and z == -1 are read through division toward zero,
    // which lands in chunk 0 at a negative place: they read as air
    let c = ChunkPos::new(0, 1, 0);
    let w = buried(c);
    let packed = w.thread_chunk_mesh(&vec![c]);
    assert_eq!(packed.len(), 1);
    assert_eq!(packed[0].mesh.nb_indices as usize, 2 * 64 * 64 * 6);
}

#[test]
fn lone_block_chunk_mesh() {
    let w = WorldData::new();
    let mut blocks = vec![0u16; 262144];
    blocks[10 * 4096 + 10 * 64 + 10] = 1;
    let m = ChunkMesh::new(&w, ChunkPos::new(0, 0, 0), &blocks);
    assert_eq!(m.nb_indices, 36);
    assert_eq!(m.vertices.len(), 48);
    assert_eq!((m.vao, m.vbo, m.ebo), (0, 0, 0));
}

#[test]
fn chunk_build_mesh_reads_world() {
    let mut w = WorldData::new();
    let c = Chunk::new(ChunkPos::new(0, 6, 0), &flat(0));
    w.insert_chunk(Chunk::new(ChunkPos::new(0, 5, 0), &flat(0)));
    let m = c.build_mesh(&w);
    // only the top of the dirt layer faces air: 64 x 64 faces
    assert_eq!(m.nb_indices as usize, 64 * 64 * 6 + 4 * 64 * 16 * 6);
}

#[test]
fn far_chunks_beyond_keep_distance() {
    let here = ChunkPos::new(10, 0, -10);
    assert!(!is_chunk_too_far_from_player(&ChunkPos::new(10 + KEEP_DISTANCE, 50, -10 - KEEP_DISTANCE), here));
    assert!(is_chunk_too_far_from_player(&ChunkPos::new(10 + KEEP_DISTANCE + 1, 0, -10), here));
    let v = vec![ChunkPos::new(0, 0, 0), ChunkPos::new(10, 0, -10), ChunkPos::new(30, 0, -10), ChunkPos::new(10, 0, -19)];
    assert_eq!(far_chunks(&v, here), vec![ChunkPos::new(0, 0, 0), ChunkPos::new(30, 0, -10), ChunkPos::new(10, 0, -19)]);
}

#[test]
fn positions_to_build_sorted_by_neighbours() {
    let c = ChunkPos::new(1, 1, 1);
    let w = buried(c);
    let lone = ChunkPos::new(5, 5, 5);
    let mut w = w;
    w.insert_chunk(Chunk::new(lone, &flat(-4)));
    let (now, later) = w.receive_positions_to_build(&vec![lone, ChunkPos::new(1, 2, 1), c, ChunkPos::new(9, 9, 9)]);
    assert_eq!(now, vec![c]);
    assert_eq!(later, vec![ChunkPos::new(1, 2, 1)]);
}

#[test]
fn clean_chunks_drops_listed_and_far() {
    let mut w = WorldData::new();
    let here = ChunkPos::new(0, 0, 0);
    let kept = ChunkPos::new(KEEP_DISTANCE, 3, -KEEP_DISTANCE);
    let listed = ChunkPos::new(1, 0, 1);
    let far = ChunkPos::new(0, 0, KEEP_DISTANCE + 1);
    for p in [here, kept, listed, far] {
        w.insert_chunk(Chunk::new(p, &flat(0)));
    }
    w.clean_chunks(vec![listed, ChunkPos::new(50, 0, 0)], here);
    assert!(w.contains_chunk(&here));
    assert!(w.contains_chunk(&kept));
    assert!(!w.contains_chunk(&listed));
    assert!(!w.contains_chunk(&far));
    let fresh = Chunk::new(kept, &flat(0));
    assert_eq!(
        w.get_block_at(IBlockPos::new(KEEP_DISTANCE * 64, 3 * 64 + 5, -KEEP_DISTANCE * 64)),
        fresh.get_block_at(IBlockPos::new(0, 5, 0))
    );
}
