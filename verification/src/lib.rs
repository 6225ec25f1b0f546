//! Conversion of declarative cuboid block models into a packed texture atlas
//! and a deduplicated triangle mesh.
//!
//! Positions and texture coordinates are IEEE-754 binary64 values; throughout
//! this crate they are carried as their raw 64-bit patterns, so that vertex
//! identity, coordinate shuffling and deduplication are exact. The arithmetic
//! that produces new numeric values (atlas normalization, bleed correction,
//! whole-element rotation) is left to the caller, which hands the resulting
//! bit patterns back.

pub mod atlas;
pub mod double;
pub mod error;
pub mod mesh;
pub mod model;
pub mod plan;
pub mod uv;
