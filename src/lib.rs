//! Deduplicating vertex indexer for triangle meshes.
//!
//! A mesh arrives as a stream of face corners, each a position and a texture
//! coordinate. The indexer collapses equal corners into one vertex and rebuilds
//! the triangle list as indices into the unique vertices. Floating-point
//! components are carried as their raw bit patterns, so two corners are the
//! same vertex exactly when every component has the same bits.

pub mod vertex;
pub mod indexer;
pub mod mesh;
pub mod desmos;
pub mod faces;
