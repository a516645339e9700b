use opengl_project::common::pos::{ChunkPos, CHUNK_VOLUME};
use opengl_project::mesh::ao::{ChunkMesh as AoChunkMesh, Mesh, MATERIAL_BITS};
use opengl_project::mesh::cursor::Cursor;
use opengl_project::mesh::faces::{build_faces, MeshBuffers, BORDER_CELLS};
use opengl_project::mesh::vertex::{PackError, Vertex};

fn one_block(x: usize, y: usize, z: usize, id: u16) -> Vec<u16> {
    let mut blocks = vec![0u16; CHUNK_VOLUME];
    blocks[x * 4096 + y * 64 + z] = id;
    blocks
}

#[test]
fn pack_data_exact_value() {
    assert_eq!(Vertex::pack_data(1, (2, 3, 4), 5, 3), Ok(0x4103_0814_0003));
    assert_eq!(Vertex::pack_data(0, (0, 0, 0), 0, 0), Ok(0));
}

#[test]
fn pack_data_fields_read_back() {
    let p = Vertex::pack_data(513, (64, 0, 127), 4, 2).unwrap();
    assert_eq!(p >> 46, 513);
    assert_eq!((p >> 39) & 0x7F, 64);
    assert_eq!((p >> 32) & 0x7F, 0);
    assert_eq!((p >> 25) & 0x7F, 127);
    assert_eq!((p >> 18) & 0x7, 4);
    assert_eq!(p & 0x3, 2);
}

#[test]
fn pack_data_position_too_large() {
    assert_eq!(Vertex::pack_data(1, (128, 0, 0), 0, 0), Err(PackError::PositionTooLarge));
    assert_eq!(Vertex::pack_data(1, (0, 0, 200), 0, 0), Err(PackError::PositionTooLarge));
}

#[test]
fn pack_data_face_out_of_range() {
    assert_eq!(Vertex::pack_data(1, (0, 0, 0), 6, 0), Err(PackError::FaceOutOfRange));
}

#[test]
fn pack_data_negative_coordinate_wraps_modulo_128() {
    let p = Vertex::pack_data(0, (-1, 0, 0), 0, 0).unwrap();
    assert_eq!((p >> 39) & 0x7F, 127);
}

#[test]
fn add_data_appends_face() {
    let mut buf = MeshBuffers { vertices: Vec::new(), indices: Vec::new() };
    let next = buf.add_data([0x1_0000_0002, 3, 4, 5], 8);
    assert_eq!(next, 12);
    assert_eq!(buf.vertices, vec![1, 2, 0, 3, 0, 4, 0, 5]);
    assert_eq!(buf.indices, vec![8, 10, 9, 8, 11, 10]);
}

#[test]
fn single_block_has_six_faces() {
    let blocks = one_block(10, 10, 10, 2);
    let border = vec![true; BORDER_CELLS];
    let buf = build_faces(&blocks, &border);
    assert_eq!(buf.vertices.len(), 6 * 8);
    assert_eq!(buf.indices.len(), 6 * 6);
    assert!(buf.indices.iter().all(|&i| i < 24));
}

#[test]
fn block_at_edge_hides_face_against_solid_border() {
    let blocks = one_block(0, 10, 10, 2);
    let border = vec![false; BORDER_CELLS];
    let buf = build_faces(&blocks, &border);
    assert_eq!(buf.indices.len(), 5 * 6);
}

#[test]
fn empty_chunk_has_no_faces() {
    let blocks = vec![0u16; CHUNK_VOLUME];
    let border = vec![true; BORDER_CELLS];
    let buf = build_faces(&blocks, &border);
    assert!(buf.vertices.is_empty() && buf.indices.is_empty());
}

#[test]
fn two_adjacent_blocks_share_no_face() {
    let mut blocks = one_block(5, 5, 5, 2);
    blocks[5 * 4096 + 5 * 64 + 6] = 2;
    let border = vec![true; BORDER_CELLS];
    let buf = build_faces(&blocks, &border);
    assert_eq!(buf.indices.len(), 10 * 6);
}

#[test]
fn ao_pack_data_exact_value() {
    let m = [MATERIAL_BITS, MATERIAL_BITS, MATERIAL_BITS];
    assert_eq!(AoChunkMesh::pack_data(1, (2, 3, 4), 5, 3, m, 2), Ok(0x4103_097F_FFFB));
    assert_eq!(AoChunkMesh::pack_data(1, (2, 3, 200), 5, 3, m, 2), Err(PackError::PositionTooLarge));
    assert_eq!(AoChunkMesh::pack_data(1, (2, 3, 4), 7, 3, m, 2), Err(PackError::FaceOutOfRange));
}

#[test]
fn ao_empty_chunk_has_no_mesh() {
    let blocks = vec![0u16; CHUNK_VOLUME];
    assert!(AoChunkMesh::build_mesh(&blocks, ChunkPos::new(0, 0, 0)).is_none());
}

#[test]
fn ao_single_block_mesh() {
    let blocks = one_block(10, 10, 10, 2);
    let mesh = AoChunkMesh::build_mesh(&blocks, ChunkPos::new(1, 2, 3)).unwrap();
    assert_eq!(mesh.get_chunk_pos(), ChunkPos::new(1, 2, 3));
    assert!(!mesh.is_empty());
    assert_eq!(mesh.vertices.len(), 6 * 8);
    assert_eq!(mesh.indices.len(), 6 * 6);
    assert!(mesh.indices.iter().all(|&i| i < 24));
    // a lone block is not occluded: every corner gets the full occlusion value 3
    for k in 0..24 {
        let low = mesh.vertices[2 * k + 1];
        assert_eq!((low >> 2) & 0x3, 3);
    }
}

#[test]
fn ao_occlusion_lowers_next_to_a_block() {
    let mut blocks = one_block(10, 10, 10, 2);
    // a block above and beside: the top face of (10, 10, 10) sees it at one sample
    blocks[11 * 4096 + 11 * 64 + 10] = 2;
    let mesh = AoChunkMesh::build_mesh(&blocks, ChunkPos::new(0, 0, 0)).unwrap();
    let mut lowered = false;
    for k in 0..mesh.vertices.len() / 2 {
        let low = mesh.vertices[2 * k + 1];
        if (low >> 2) & 0x3 < 3 {
            lowered = true;
        }
    }
    assert!(lowered);
}

#[test]
fn gpu_mesh_keeps_vao_and_count() {
    let m = Mesh::new(7, 8, 9, 36);
    assert_eq!(m.vao, 7);
    assert_eq!(m.nb_indices, 36);
}

#[test]
fn meshers_draw_same_faces() {
    let mut blocks = vec![0u16; CHUNK_VOLUME];
    for i in 0..2000usize {
        blocks[(i * 7919) % CHUNK_VOLUME] = 1 + (i % 4) as u16;
    }
    for y in 0..64 {
        blocks[y * 64] = 2;
    }
    let border = vec![true; BORDER_CELLS];
    let plain = build_faces(&blocks, &border);
    let ao = AoChunkMesh::build_mesh(&blocks, ChunkPos::new(0, 0, 0)).unwrap();
    assert_eq!(plain.indices.len(), ao.indices.len());
    assert_eq!(plain.vertices.len(), ao.vertices.len());
}

#[test]
fn ao_pack_data_high_occlusion_reaches_material() {
    assert_eq!(AoChunkMesh::pack_data(0, (0, 0, 0), 0, 0, [0, 0, 0], 5), Ok(0b10100));
    let p = AoChunkMesh::pack_data(0, (0, 0, 0), 0, 0, [0, 0, 62], 5).unwrap();
    assert_eq!((p >> 4) & 0x3F, 63);
    assert_eq!(AoChunkMesh::pack_data(0, (0, 0, 0), 0, 0, [0, 0, 0], 9), Ok(0b100));
}

#[test]
fn cursor_indices() {
    let i = Cursor::indices();
    assert_eq!(i, vec![0, 1, 2, 0, 2, 3, 4, 5, 6, 4, 6, 7]);
    assert!(i.iter().all(|&k| k < 8));
}
