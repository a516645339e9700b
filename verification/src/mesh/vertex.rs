use vstd::prelude::*;

verus! {

/// Why a vertex cannot be packed into 64 bits.
#[derive(Clone, Copy, PartialEq, Eq, Structural, Debug)]
pub enum PackError {
    /// The block id does not fit in 18 bits.
    IdTooLarge,
    /// A coordinate is 128 or more.
    PositionTooLarge,
    /// The face id is above 5.
    FaceOutOfRange,
}

/// The packed voxel vertex format: block id in bits 46..64, x, y and z (each taken
/// modulo 128) in bits 39..46, 32..39 and 25..32, face id in bits 18..21, and the two
/// texture-coordinate bits in bits 1 and 0.
pub open spec fn packed_vertex(id: u16, x: i32, y: i32, z: i32, face_id: u32, tex_coords: u8) -> u64 {
    (id * 0x4000_0000_0000 + ((x as u64) % 128) * 0x80_0000_0000 + ((y as u64) % 128)
        * 0x1_0000_0000 + ((z as u64) % 128) * 0x200_0000 + face_id * 0x4_0000 + ((tex_coords / 2)
        % 2) * 2 + tex_coords % 2) as u64
}

/// Vertex data as it is sent to the GPU; positions and normals are floating point and
/// live with the renderer, which leaves here the packed integer format.
pub struct Vertex;

impl Vertex {
    /// Packs a block vertex into 64 bits (see `packed_vertex`).
    pub fn pack_data(id: u16, pos: (i32, i32, i32), face_id: u32, tex_coords: u8) -> (r: Result<u64, PackError>)
        ensures
            r == (if id as u32 >= 0x4_0000 {
                Err(PackError::IdTooLarge)
            } else if pos.0 >= 128 || pos.1 >= 128 || pos.2 >= 128 {
                Err(PackError::PositionTooLarge)
            } else if face_id > 5 {
                Err(PackError::FaceOutOfRange)
            } else {
                Ok(packed_vertex(id, pos.0, pos.1, pos.2, face_id, tex_coords))
            }),
    {
        if id as u32 >= 0x4_0000 {
            return Err(PackError::IdTooLarge);
        }
        if pos.0 >= 128 || pos.1 >= 128 || pos.2 >= 128 {
            return Err(PackError::PositionTooLarge);
        }
        if face_id > 5 {
            return Err(PackError::FaceOutOfRange);
        }
        let x = pos.0;
        let y = pos.1;
        let z = pos.2;
        let mut packed: u64 = 0;
        packed = packed | ((id as u64 & 0x3FFFF) << 46u64);
        packed = packed | ((x as u64 & 0x7F) << 39u64);
        packed = packed | ((y as u64 & 0x7F) << 32u64);
        packed = packed | ((z as u64 & 0x7F) << 25u64);
        packed = packed | ((face_id as u64 & 0x7) << 18u64);
        packed = packed | (((tex_coords as u64 >> 1u64) & 0x1) << 1u64);
        packed = packed | (tex_coords as u64 & 0x1);
        let xu = x as u64;
        let yu = y as u64;
        let zu = z as u64;
        let idu = id as u64;
        let fu = face_id as u64;
        let tu = tex_coords as u64;
        assert(packed == (idu * 0x4000_0000_0000 + (xu % 128) * 0x80_0000_0000 + (yu % 128)
            * 0x1_0000_0000 + (zu % 128) * 0x200_0000 + fu * 0x4_0000 + ((tu / 2) % 2) * 2 + tu % 2) as u64)
            by (bit_vector)
            requires
                idu < 0x1_0000,
                fu <= 5,
                tu < 256,
                packed == ((((((((0u64 | ((idu & 0x3FFFF) << 46u64)) | ((xu & 0x7F) << 39u64)) | ((
                yu & 0x7F) << 32u64)) | ((zu & 0x7F) << 25u64)) | ((fu & 0x7) << 18u64)) | (((tu
                >> 1u64) & 0x1) << 1u64)) | (tu & 0x1))),
        ;
        Ok(packed)
    }
}


/// Each field of a packed vertex reads back from its bits: the block id from the top
/// 18 bits, the coordinates (modulo 128), the face id and the two texture bits.
pub proof fn lemma_packed_vertex_fields(id: u16, x: i32, y: i32, z: i32, face_id: u32, tex_coords: u8)
    requires
        face_id <= 5,
    ensures
        ({
            let p = packed_vertex(id, x, y, z, face_id, tex_coords);
            &&& p >> 46u64 == id as u64
            &&& (p >> 39u64) & 0x7F == (x as u64) % 128
            &&& (p >> 32u64) & 0x7F == (y as u64) % 128
            &&& (p >> 25u64) & 0x7F == (z as u64) % 128
            &&& (p >> 18u64) & 0x7 == face_id as u64
            &&& p & 0x3 == (tex_coords as u64) % 4
        }),
{
    let p = packed_vertex(id, x, y, z, face_id, tex_coords);
    let idu = id as u64;
    let xu = x as u64;
    let yu = y as u64;
    let zu = z as u64;
    let fu = face_id as u64;
    let tu = tex_coords as u64;
    assert(p == (idu * 0x4000_0000_0000 + (xu % 128) * 0x80_0000_0000 + (yu % 128) * 0x1_0000_0000 + (zu
        % 128) * 0x200_0000 + fu * 0x4_0000 + ((tu / 2) % 2) * 2 + tu % 2) as u64);
    assert({
        &&& p >> 46u64 == idu
        &&& (p >> 39u64) & 0x7F == xu % 128
        &&& (p >> 32u64) & 0x7F == yu % 128
        &&& (p >> 25u64) & 0x7F == zu % 128
        &&& (p >> 18u64) & 0x7 == fu
        &&& p & 0x3 == tu % 4
    }) by (bit_vector)
        requires
            idu < 0x1_0000,
            fu <= 5,
            tu < 256,
            p == (idu * 0x4000_0000_0000 + (xu % 128) * 0x80_0000_0000 + (yu % 128) * 0x1_0000_0000 + (zu
                % 128) * 0x200_0000 + fu * 0x4_0000 + ((tu / 2) % 2) * 2 + tu % 2) as u64,
    ;
}

} // verus!
