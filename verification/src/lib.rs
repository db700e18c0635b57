//! Procedurally generated recursive voxel worlds.
//!
//! The library builds a random graph of octree nodes from a seeded random
//! source, compacts that graph into a flat, index-based array suitable for a
//! pointer-free consumer, and answers point-location queries against the
//! compacted form.  Positions and colours are carried as fixed-point integers
//! so that every step of the logic is exact.

pub mod flat;
pub mod game;
pub mod gen_model;
pub mod graph;
pub mod octree_compact;
pub mod query;
pub mod random_source;
pub mod voxel_gen;
