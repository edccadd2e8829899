//! The kinds of geometry a scene can hold.

use vstd::prelude::*;
use crate::mesh::Trimesh;
use crate::path::Path;

verus! {

/// A piece of scene geometry: a triangle mesh or a path.
pub enum Geometry {
    Mesh(Box<Trimesh>),
    Path(Path),
}

} // verus!
