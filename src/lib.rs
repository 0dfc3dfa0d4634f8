//! Voxel terrain: chunk generation, cross-chunk lookup, face meshing with
//! ambient occlusion, and the readiness protocol that decides when a chunk
//! may be meshed.
pub mod coords;
pub mod mesh;
pub mod chunk;
pub mod registry;
pub mod scheduler;
pub mod ecs;
