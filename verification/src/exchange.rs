//! The mesh file formats the surrounding I/O layer can load. Parsing the
//! formats themselves is the loaders' business, outside this library; the
//! core only records which format a mesh came from.

use vstd::prelude::*;

verus! {

/// A mesh file format tag.
#[derive(Debug, Clone, Copy, PartialEq, Eq, Structural)]
pub enum MeshFormat {
    STL,
    OBJ,
    PLY,
}

} // verus!
