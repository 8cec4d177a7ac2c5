//! Voxel terrain generation: a dense grid of cube-shaped cells over a
//! bounding volume, and the one cube template that renders each of them.
//!
//! `terrain` enumerates the grid and computes each voxel's world position;
//! `cube` builds the shared cube geometry. Lengths are integers in a unit of
//! the caller's choosing, so every result is exact.
use vstd::prelude::*;

pub mod cube;
pub mod terrain;

pub use crate::cube::{build_unit_cube, CubeGeometry, TexCoord, Vector3};
pub use crate::terrain::{
    voxel_material, BaseColor, Extent, GeneratedTerrain, RenderableVoxel, TerrainError,
    VoxelCoordinate, VoxelMaterial, VoxelTerrain, WorldPosition,
};

verus! {

} // verus!
