//! Triangle-mesh processing: a mesh entity with cached derived queries and a
//! quadric-error-metric simplification engine.
//!
//! Scalars are IEEE-754 double-precision values carried as their 64-bit
//! patterns, so that the index bookkeeping around them can be verified while
//! the arithmetic itself is performed by software-float routines behind
//! trusted wrappers.

pub mod attributes;
pub mod creation;
pub mod exchange;
pub mod geometry;
pub mod mesh;
pub mod path;
pub mod quadric;
pub mod scalar;
pub mod scene;
pub mod simplify;
pub mod vec3;

pub use exchange::MeshFormat;
pub use mesh::Trimesh;
pub use simplify::simplify_mesh;
