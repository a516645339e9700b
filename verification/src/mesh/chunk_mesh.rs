use vstd::prelude::*;
use crate::common::pos::{ChunkPos, CHUNK_VOLUME};
use crate::game::world::WorldData;
use crate::mesh::faces::{build_faces, mesh_vertices, mesh_indices, BORDER_CELLS, FACE_SLOTS};
use crate::server::chunk_mesh::{border_cell, cell_global, chunk_origin_fits};

verus! {

/// Whether each border cell of the chunk at `cp` is empty in the client world, as
/// `WorldData::get_block_at` reads it.
pub open spec fn client_border(world: WorldData, cp: ChunkPos) -> Seq<bool> {
    Seq::new(BORDER_CELLS as nat, |s: int| world.world_block_at(cell_global(cp, s)) == 0)
}

/// The mesh of a chunk on the client, with the ids of its GPU buffers once linked.
pub struct ChunkMesh {
    pub vao: u32,
    pub vbo: u32,
    pub ebo: u32,
    pub nb_indices: i32,
    pub vertices: Vec<u32>,
    pub indices: Vec<u32>,
    pub linked: bool,
}

fn client_border_of(world: &WorldData, chunk_pos: ChunkPos) -> (border: Vec<bool>)
    requires
        world.all_wf(),
        chunk_origin_fits(chunk_pos),
    ensures
        border@ == client_border(*world, chunk_pos),
{
    let mut border: Vec<bool> = Vec::new();
    let mut s: usize = 0;
    while s < BORDER_CELLS
        invariant
            s <= BORDER_CELLS,
            world.all_wf(),
            chunk_origin_fits(chunk_pos),
            border@.len() == s,
            forall|j: int| 0 <= j < s ==> border@[j] == #[trigger] client_border(*world, chunk_pos)[j],
        decreases BORDER_CELLS - s,
    {
        let global = border_cell(chunk_pos, s);
        border.push(world.get_block_at(global) == 0);
        s = s + 1;
    }
    assert(border@ =~= client_border(*world, chunk_pos));
    border
}

impl ChunkMesh {
    /// Builds the mesh of the chunk at `chunk_pos` whose blocks are `blocks`, reading
    /// the blocks beyond its faces from `world` (see `build_faces`); not yet linked.
    pub fn new(world: &WorldData, chunk_pos: ChunkPos, blocks: &Vec<u16>) -> (mesh: ChunkMesh)
        requires
            blocks@.len() == CHUNK_VOLUME,
            world.all_wf(),
            chunk_origin_fits(chunk_pos),
        ensures
            mesh.vao == 0 && mesh.vbo == 0 && mesh.ebo == 0,
            !mesh.linked,
            mesh.vertices@ == mesh_vertices(blocks@, client_border(*world, chunk_pos), FACE_SLOTS as nat),
            mesh.indices@ == mesh_indices(blocks@, client_border(*world, chunk_pos), FACE_SLOTS as nat),
            mesh.nb_indices == mesh.indices@.len(),
    {
        let border = client_border_of(world, chunk_pos);
        let buf = build_faces(blocks, &border);
        proof {
            crate::mesh::faces::lemma_mesh_size(blocks@, border@);
        }
        let nb = buf.indices.len() as i32;
        ChunkMesh {
            vao: 0,
            vbo: 0,
            ebo: 0,
            nb_indices: nb,
            vertices: buf.vertices,
            indices: buf.indices,
            linked: false,
        }
    }

    pub fn is_linked(&self) -> (r: bool)
        ensures
            r == self.linked,
    {
        self.linked
    }
}

} // verus!
