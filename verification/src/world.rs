//! Blocks, chunks and the grid of loaded chunks.

pub mod block;
pub mod chunk;
pub mod chunk_generator;
pub mod chunk_group;
pub mod chunk_renderer;
pub mod dimension;
