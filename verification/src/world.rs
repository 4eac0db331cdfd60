//! The voxel world: lattice coordinates, dense chunks and the sparse chunk map.

pub mod chunk;
pub mod chunk_map;
pub mod lattice;
