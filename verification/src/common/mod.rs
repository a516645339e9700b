pub mod block;
pub mod chunk;
pub mod chunkmap;
pub mod pos;
pub mod bits;
