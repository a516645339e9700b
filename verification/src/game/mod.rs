pub mod chunk;
pub mod world;
