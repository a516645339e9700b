pub mod ao;
pub mod chunk_mesh;
pub mod faces;
pub mod vertex;
pub mod cursor;
