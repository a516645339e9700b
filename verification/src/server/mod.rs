pub mod ack;
pub mod chunk_map;
pub mod chunk_mesh;
pub mod cube;
pub mod properties;
pub mod world;
pub mod bit_pieces;
pub mod connection;
pub mod data;
