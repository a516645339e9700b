use opengl_project::common::block::BlockType;
use opengl_project::common::chunk::Chunk;
use opengl_project::common::chunkmap::ChunkMap;
use opengl_project::common::pos::{ChunkPos, IBlockPos, CHUNK_VOLUME};
use opengl_project::server::ack::AckState;
use opengl_project::server::bit_pieces::{bit_pieces, PIECE_BITS};
use opengl_project::server::chunk_map::{BlockInteraction, ServerChunkMap};
use opengl_project::server::chunk_mesh::{choose_level, ServerChunkMesh};
use opengl_project::server::connection::{ClientConnection, DEFAULT_VIEW_DISTANCE};
use opengl_project::common::bits::Bits;
use opengl_project::server::cube::{cube_range, in_cube, sort_by_dist, ChunkPosSet, Exclusion};
use opengl_project::server::data::{ConnectError, ServerWorldData};

fn bits_to_bytes(pieces: &[Bits]) -> Vec<u8> {
    let mut bits = Vec::new();
    for p in pieces {
        for i in 0..p.len() {
            bits.push(p.get(i));
        }
    }
    assert_eq!(bits.len() % 8, 0);
    bits.chunks(8).map(|c| c.iter().enumerate().fold(0u8, |acc, (k, &b)| acc | ((b as u8) << k))).collect()
}
use opengl_project::server::properties::{Difficulty, ServerWorldProperties};
use opengl_project::server::world::{
    generate_base_chunks, generation_batch, InternalEvent, PlayerEvent, ServerEvent, ServerWorld, WorldAction,
    GENERATION_RANGE, SPAWN_CHUNKS,
};

fn dist2(p: &ChunkPos, c: &ChunkPos) -> i64 {
    let dx = (p.x - c.x) as i64;
    let dz = (p.z - c.z) as i64;
    dx * dx + dz * dz
}

fn air_chunk(pos: ChunkPos) -> Chunk {
    Chunk::new(pos, vec![0u16; CHUNK_VOLUME])
}

#[test]
fn properties_keep_name_and_difficulty() {
    let p = ServerWorldProperties::new("debug".to_string(), Difficulty::Easy);
    assert_eq!(p.name, "debug");
    assert_eq!(p.difficulty, Difficulty::Easy);
}

#[test]
fn ack_numbers_follow_each_other() {
    let mut s = AckState::from_ack(5);
    assert_eq!(s.add_ack(10), 6);
    assert_eq!(s.add_ack(11), 7);
    assert_eq!(s.add_ack(10), 8);
}

#[test]
fn in_cube_includes_its_faces() {
    let c = ChunkPos::new(0, 0, 0);
    assert!(in_cube(c, 2, ChunkPos::new(2, -2, 2)));
    assert!(!in_cube(c, 2, ChunkPos::new(3, 0, 0)));
    assert!(!in_cube(c, 2, ChunkPos::new(1, 100, -1)));
    assert!(in_cube(c, 0, c));
}

#[test]
fn cube_range_lists_cube_nearest_first() {
    let c = ChunkPos::new(0, 5, 0);
    let far = Exclusion::InCube { center: ChunkPos::new(100, 0, 100), vd: 1 };
    let v = cube_range(c, 1, &far);
    assert_eq!(v.len(), 27);
    for w in v.windows(2) {
        assert!(dist2(&w[0], &c) <= dist2(&w[1], &c));
    }
    for y in 4..=6 {
        assert!(v[0..3].contains(&ChunkPos::new(0, y, 0)));
    }
    assert!(v.contains(&ChunkPos::new(1, 4, -1)));
    assert!(!v.contains(&ChunkPos::new(1, 3, 0)));
    assert!(!v.contains(&ChunkPos::new(2, 5, 0)));
}

#[test]
fn cube_range_negative_size_is_empty() {
    let c = ChunkPos::new(0, 0, 0);
    assert!(cube_range(c, -1, &Exclusion::InCube { center: c, vd: 0 }).is_empty());
}

#[test]
fn sort_by_dist_is_stable() {
    let c = ChunkPos::new(0, 0, 0);
    let s = vec![ChunkPos::new(2, 0, 0), ChunkPos::new(0, 1, 1), ChunkPos::new(1, 0, 0), ChunkPos::new(0, 2, 1)];
    let r = sort_by_dist(&s, c, 10);
    assert_eq!(r, vec![ChunkPos::new(0, 1, 1), ChunkPos::new(1, 0, 0), ChunkPos::new(0, 2, 1), ChunkPos::new(2, 0, 0)]);
}

#[test]
fn chunk_diff_after_a_step() {
    let (load, unload) = ServerChunkMap::compute_chunk_diff(ChunkPos::new(0, 0, 0), ChunkPos::new(1, 0, 0), 2, 2);
    assert_eq!(load.len(), 25);
    assert_eq!(unload.len(), 25);
    assert!(load.contains(&ChunkPos::new(3, 0, 0)));
    assert!(!load.contains(&ChunkPos::new(1, 0, 0)));
    assert!(unload.contains(&ChunkPos::new(-2, 0, 0)));
}

#[test]
fn chunk_diff_in_place_is_empty() {
    let p = ChunkPos::new(0, 0, 0);
    let (load, unload) = ServerChunkMap::compute_chunk_diff(p, p, 2, 2);
    assert!(load.is_empty() && unload.is_empty());
}

#[test]
fn chunk_diff_of_a_wider_view() {
    let p = ChunkPos::new(0, 50, 0);
    let (load, unload) = ServerChunkMap::compute_chunk_diff(p, p, 1, 2);
    assert_eq!(load.len(), 125 - 27);
    assert!(unload.is_empty());
    assert!(!load.contains(&p));
}

#[test]
fn compute_chunks_skips_generated() {
    let mut set = ChunkPosSet::new();
    set.insert(ChunkPos::new(0, 0, 0));
    let v = ServerChunkMap::compute_chunks(ChunkPos::new(0, 0, 0), 1, &set);
    assert_eq!(v.len(), 26);
    assert!(!v.contains(&ChunkPos::new(0, 0, 0)));
}

#[test]
fn chunk_pos_set_insert_once() {
    let mut set = ChunkPosSet::new();
    assert!(set.insert(ChunkPos::new(1, 2, 3)));
    assert!(!set.insert(ChunkPos::new(1, 2, 3)));
    assert!(set.contains(&ChunkPos::new(1, 2, 3)));
    assert!(!set.contains(&ChunkPos::new(3, 2, 1)));
}

#[test]
fn base_chunks_are_listed_and_recorded() {
    let mut set = ChunkPosSet::new();
    let v = generate_base_chunks(&mut set);
    assert_eq!(v.len(), SPAWN_CHUNKS as usize);
    assert_eq!(v[0], ChunkPos::new(-9, 0, -9));
    assert_eq!(v[140], ChunkPos::new(-9, 7, -9));
    for p in &v {
        assert!(set.contains(p));
    }
}

#[test]
fn generation_batch_once() {
    let mut set = ChunkPosSet::new();
    let first = generation_batch(ChunkPos::new(0, 0, 0), &mut set);
    assert_eq!(first.len(), 17 * 17 * 9);
    assert!(first.iter().all(|p| p.y >= 0 && p.y <= 8));
    let second = generation_batch(ChunkPos::new(0, 0, 0), &mut set);
    assert!(second.is_empty());
    let moved = generation_batch(ChunkPos::new(1, 0, 0), &mut set);
    assert_eq!(moved.len(), 17 * 9);
}

#[test]
fn take_ready_sends_present_chunks_in_order() {
    let mut m = ServerChunkMap::new();
    let a = ChunkPos::new(0, 0, 0);
    let b = ChunkPos::new(1, 0, 0);
    let c = ChunkPos::new(2, 0, 0);
    m.add_chunk(air_chunk(a));
    m.add_chunk(air_chunk(c));
    m.ask_for_chunks(7, vec![a, b, c]);
    assert_eq!(m.take_ready(7), vec![a, c]);
    assert!(m.take_ready(7).is_empty());
    m.add_chunk(air_chunk(b));
    assert_eq!(m.take_ready(7), vec![b]);
    assert!(m.take_ready(8).is_empty());
}

#[test]
fn removed_player_gets_nothing() {
    let mut m = ServerChunkMap::new();
    let a = ChunkPos::new(0, 0, 0);
    m.add_chunk(air_chunk(a));
    m.ask_for_chunks(7, vec![a]);
    m.ask_remove_player(&7);
    assert!(m.take_ready(7).is_empty());
}

#[test]
fn interact_block_left_and_right() {
    let mut m = ServerChunkMap::new();
    m.add_chunk(Chunk::new(ChunkPos::new(0, 0, 0), vec![2u16; CHUNK_VOLUME]));
    let p = IBlockPos::new(1, 1, 1);
    assert!(m.interact_block(p, BlockInteraction::LEFT));
    assert_eq!(m.get_chunk_map().get_block_at(p), BlockType::AIR.get_value());
    assert!(m.interact_block(p, BlockInteraction::RIGHT));
    assert_eq!(m.get_chunk_map().get_block_at(p), BlockType::DEEPSLATE.get_value());
    assert!(!m.interact_block(p, BlockInteraction::RIGHT));
}

#[test]
fn world_events() {
    let mut w = ServerWorld::new();
    let origin = ChunkPos::new(0, 0, 0);
    let a = w.handle_event(ServerEvent::InternalEvent(InternalEvent::GeneratedChunk(air_chunk(origin))));
    assert!(matches!(a, WorldAction::Nothing));
    assert!(w.get_chunk_map().get_chunk_map().contains_chunk(&origin));

    let p = IBlockPos::new(3, 4, 5);
    let ev = |interaction| ServerEvent::PlayerEvent {
        e_type: PlayerEvent::BlockInteraction { pos: p, interaction },
        puid: 1,
    };
    match w.handle_event(ev(BlockInteraction::RIGHT)) {
        WorldAction::SendBlock { interaction, pos, changed } => {
            assert_eq!(interaction, BlockInteraction::RIGHT);
            assert_eq!(pos, p);
            assert!(changed);
        },
        _ => panic!("expected a block answer"),
    }
    assert!(matches!(w.handle_event(ev(BlockInteraction::RIGHT)), WorldAction::SendBlock { changed: false, .. }));

    w.handle_event(ServerEvent::PlayerEvent { e_type: PlayerEvent::AskChunk(vec![origin]), puid: 1 });
    assert_eq!(w.chunks.take_ready(1), vec![origin]);

    match w.handle_event(ServerEvent::PlayerEvent { e_type: PlayerEvent::GenerateChunk(origin), puid: 1 }) {
        WorldAction::Generate(v) => assert_eq!(v.len(), 17 * 17 * 9),
        _ => panic!("expected positions to generate"),
    }
    assert!(w.chunks_generated.contains(&ChunkPos::new(GENERATION_RANGE, GENERATION_RANGE, 0)));

    w.handle_event(ServerEvent::PlayerEvent { e_type: PlayerEvent::AskChunk(vec![origin]), puid: 2 });
    assert!(matches!(
        w.handle_event(ServerEvent::PlayerEvent { e_type: PlayerEvent::DisconnectPlayer(2), puid: 2 }),
        WorldAction::ForgetPlayer(2)
    ));
    assert!(w.chunks.take_ready(2).is_empty());
    assert!(matches!(
        w.handle_event(ServerEvent::PlayerEvent { e_type: PlayerEvent::ConnectPlayer, puid: 3 }),
        WorldAction::Nothing
    ));
}

#[test]
fn connection_start_requests() {
    let c = ClientConnection::new(ChunkPos::new(0, 0, 0));
    let (gen, load) = c.start_requests();
    assert_eq!(gen, ChunkPos::new(0, 0, 0));
    assert_eq!(load.len(), 21 * 21 * 21 - 1);
}

#[test]
fn connection_heartbeat_and_ping() {
    let mut c = ClientConnection::new(ChunkPos::new(0, 0, 0));
    assert_eq!(c.heartbeat(), 0);
    assert!(c.answer(0));
    assert_eq!(c.heartbeat(), 1);
    assert!(!c.answer(0));
    assert!(c.answer(1));
    assert!(!c.answer(1));
}

#[test]
fn connection_update_player() {
    let mut c = ClientConnection::new(ChunkPos::new(0, 0, 0));
    let (gen, load) = c.update_player(ChunkPos::new(1, 0, 0), DEFAULT_VIEW_DISTANCE);
    assert_eq!(gen, Some(ChunkPos::new(1, 0, 0)));
    assert_eq!(load.unwrap().len(), 17 * 17);
    let (gen, load) = c.update_player(ChunkPos::new(1, 0, 0), DEFAULT_VIEW_DISTANCE);
    assert!(gen.is_none() && load.is_none());
    let (gen, load) = c.update_player(ChunkPos::new(1, 0, 0), 2);
    assert!(gen.is_none());
    assert!(load.unwrap().is_empty());
}

#[test]
fn level_choice() {
    assert_eq!(choose_level(1, 22), Some(10));
    assert_eq!(choose_level(1, 5), Some(5));
    assert_eq!(choose_level(11, 22), Some(22));
    assert_eq!(choose_level(3, 2), None);
}

#[test]
fn bit_pieces_cut_every_thousand_bytes() {
    let data: Vec<u8> = (0..2500u32).map(|i| (i % 251) as u8).collect();
    let pieces = bit_pieces(&data);
    assert_eq!(pieces.len(), 3);
    assert_eq!(pieces[0].len(), PIECE_BITS);
    assert_eq!(pieces[2].len(), 500 * 8);
    assert!(pieces[0].get(8));
    assert!(!pieces[0].get(9));
    assert_eq!(bits_to_bytes(&pieces), data);
}

#[test]
fn server_mesh_of_lone_block() {
    let mut map = ChunkMap::new();
    let mut blocks = vec![0u16; CHUNK_VOLUME];
    blocks[0] = 2;
    map.add_chunk(Chunk::new(ChunkPos::new(0, 0, 0), blocks.clone()));
    let mesh = ServerChunkMesh::new(&map, ChunkPos::new(0, 0, 0), &blocks);
    assert_eq!(mesh.get_chunk_pos(), ChunkPos::new(0, 0, 0));
    assert!(!mesh.is_empty());
    assert_eq!(mesh.vertices.len(), 48);
    assert_eq!(mesh.indices.len(), 36);
    assert_eq!(mesh.get_block_at(IBlockPos::new(0, 0, 0), &map), 2);
    assert_eq!(mesh.mesh_bytes().len(), 4 * (48 + 36));
}

#[test]
fn server_mesh_hides_faces_against_neighbour_chunk() {
    let mut map = ChunkMap::new();
    let mut blocks = vec![0u16; CHUNK_VOLUME];
    blocks[0] = 2;
    map.add_chunk(Chunk::new(ChunkPos::new(0, 0, 0), blocks.clone()));
    map.add_chunk(Chunk::new(ChunkPos::new(-1, 0, 0), vec![2u16; CHUNK_VOLUME]));
    let mesh = ServerChunkMesh::new(&map, ChunkPos::new(0, 0, 0), &blocks);
    assert_eq!(mesh.indices.len(), 30);
}

#[test]
fn compressed_mesh_decompresses_to_its_bytes() {
    let mut map = ChunkMap::new();
    let mut blocks = vec![0u16; CHUNK_VOLUME];
    for i in 0..300 {
        blocks[i * 97] = 1 + (i % 3) as u16;
    }
    map.add_chunk(Chunk::new(ChunkPos::new(0, 0, 0), blocks.clone()));
    let mesh = ServerChunkMesh::new(&map, ChunkPos::new(0, 0, 0), &blocks);
    let bytes = mesh.mesh_bytes();
    let pieces = mesh.compress().unwrap();
    assert!(!pieces.is_empty());
    assert!(pieces.iter().all(|p| p.len() <= PIECE_BITS));
    let frame = bits_to_bytes(&pieces);
    assert_ne!(frame, bytes);
    let back = zstd::bulk::decompress(&frame, bytes.len()).unwrap();
    assert_eq!(back, bytes);
}

#[test]
fn generation_never_hands_a_position_twice() {
    let mut set = ChunkPosSet::new();
    let spawn = generate_base_chunks(&mut set);
    let batch = generation_batch(ChunkPos::new(0, 0, 0), &mut set);
    let mut seen = std::collections::HashSet::new();
    for p in &batch {
        assert!(seen.insert(*p), "position handed twice");
        assert!(!spawn.contains(p), "spawn position handed again");
    }
    assert_eq!(batch.len(), 17 * 17 * 9 - 6 * 9 * 17);
}

#[test]
fn mesh_packets_number_their_pieces() {
    let mut map = ChunkMap::new();
    let mut blocks = vec![0u16; CHUNK_VOLUME];
    for i in 0..300 {
        blocks[i * 97] = 2;
    }
    map.add_chunk(Chunk::new(ChunkPos::new(0, 0, 0), blocks.clone()));
    let mesh = ServerChunkMesh::new(&map, ChunkPos::new(0, 0, 0), &blocks);
    let n = mesh.compress().unwrap().len();
    let packets = mesh.to_packets().unwrap();
    assert_eq!(packets.len(), n);
    for (i, p) in packets.iter().enumerate() {
        assert_eq!(p.index as usize, i);
        assert_eq!(p.count as usize, n);
        assert_eq!(p.chunk_pos, ChunkPos::new(0, 0, 0));
        assert_eq!(p.nb_indices as usize, mesh.indices.len());
        assert_eq!(p.nb_vertices as usize, mesh.vertices.len());
    }
}

#[test]
fn pack_pieces_keeps_low_byte_of_count() {
    let data = vec![0u8; 1000 * 258];
    let pieces = bit_pieces(&data);
    assert_eq!(pieces.len(), 258);
    let packets = opengl_project::server::chunk_mesh::pack_pieces(ChunkPos::new(1, 2, 3), 5, 6, pieces);
    assert_eq!(packets.len(), 2);
    assert_eq!(packets[1].count, 2);
    assert_eq!(packets[1].index, 1);
    assert_eq!(packets[1].bits.len(), PIECE_BITS);
}

#[test]
fn frame_pieces_of_each_outcome() {
    assert!(opengl_project::server::chunk_mesh::frame_pieces(None).is_none());
    let p = opengl_project::server::chunk_mesh::frame_pieces(Some(vec![1u8; 1001])).unwrap();
    assert_eq!(p.len(), 2);
    assert_eq!(p[0].len(), PIECE_BITS);
    assert_eq!(p[1].len(), 8);
    assert!(p[1].get(0));
    assert!(!p[1].get(1));
}

#[test]
fn heartbeat_ids_wrap() {
    let mut c = ClientConnection::new(ChunkPos::new(0, 0, 0));
    for k in 0..=u16::MAX {
        assert_eq!(c.heartbeat(), k);
    }
    assert_eq!(c.heartbeat(), 0);
}

#[test]
fn players_connect_once() {
    let mut d = ServerWorldData::new();
    assert_eq!(d.connect_player(7), Ok(()));
    assert!(d.is_connected(&7));
    assert_eq!(d.connect_player(7), Err(ConnectError::AlreadyConnected));
    d.disconnect_player(&7);
    assert!(!d.is_connected(&7));
    assert_eq!(d.connect_player(7), Ok(()));
    d.disconnect_player(&8);
    assert!(d.is_connected(&7));
}

#[test]
fn compress_succeeds_on_a_small_mesh() {
    let mesh = ServerChunkMesh { vertices: vec![1, 2, 3], indices: vec![0], chunk_pos: ChunkPos::new(0, 0, 0) };
    let pieces = mesh.compress().unwrap();
    let back = zstd::bulk::decompress(&bits_to_bytes(&pieces), 16).unwrap();
    assert_eq!(back, mesh.mesh_bytes());
    assert!(mesh.to_packets().is_some());
}
