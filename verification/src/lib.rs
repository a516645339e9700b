//! Voxel world logic: block types, chunk and block positions, chunk storage,
//! chunk meshing and the server-side chunk bookkeeping.
pub mod common;
pub mod game;
pub mod mesh;
pub mod server;
