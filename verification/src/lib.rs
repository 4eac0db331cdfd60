//! Sparse, chunked storage for a 3D voxel world.

pub mod world;
