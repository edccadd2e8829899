//! Flat per-vertex and per-face attribute lists: texture coordinates,
//! normals, colors and named groupings, so that callers can define several
//! of each and pick which to use at runtime.

use vstd::prelude::*;
use crate::exchange::MeshFormat;
use crate::vec3::Point3;

verus! {

/// A 2-component texture coordinate; each field holds the bit pattern of a
/// double.
#[derive(Clone, Copy, Debug, PartialEq, Eq, Structural)]
pub struct UvCoord {
    pub u: u64,
    pub v: u64,
}

/// An 8-bit RGBA color.
#[derive(Clone, Copy, Debug, PartialEq, Eq, Structural)]
pub struct Rgba {
    pub r: u8,
    pub g: u8,
    pub b: u8,
    pub a: u8,
}

pub type UV = Vec<UvCoord>;

pub type MaterialIndices = Vec<usize>;

pub type GroupingIndices = Vec<usize>;

pub type Color = Vec<Rgba>;

pub type Normal = Vec<Point3>;

/// What a grouping's indices mean.
#[derive(Debug, Clone, Default)]
pub enum GroupingKind {
    #[default]
    Unspecified,
    MaterialIndex,
    GroupingIndex,
    SmoothingIndex,
}

/// A named assignment of indices to faces or vertices.
#[derive(Debug, Clone, Default)]
pub struct Grouping {
    pub name: String,
    pub kind: GroupingKind,
    pub indices: Vec<usize>,
}

/// A flat list of attributes, so that multiple colors, normals or texture
/// coordinate sets can coexist and be chosen at the application level.
#[derive(Debug, Clone)]
pub struct Attributes {
    pub uv: Vec<UV>,
    pub normals: Vec<Normal>,
    pub colors: Vec<Color>,
    pub groupings: Vec<Grouping>,
}

impl Default for Attributes {
    /// No attributes of any kind.
    fn default() -> (r: Attributes)
        ensures
            r.uv@.len() == 0,
            r.normals@.len() == 0,
            r.colors@.len() == 0,
            r.groupings@.len() == 0,
    {
        Attributes { uv: Vec::new(), normals: Vec::new(), colors: Vec::new(), groupings: Vec::new() }
    }
}

/// Where a mesh came from: the format it was loaded from and any header the
/// format carried.
#[derive(Debug, Clone)]
pub struct LoadSource {
    pub format: Option<MeshFormat>,
    pub header: Option<String>,
}

impl Default for LoadSource {
    /// An unknown source.
    fn default() -> (r: LoadSource)
        ensures
            r.format is None,
            r.header is None,
    {
        LoadSource { format: None, header: None }
    }
}

/// A physically-based material; its parameters are not modeled here.
#[derive(Debug, Clone)]
pub struct PBRMaterial {}

/// The absence of a material.
#[derive(Debug, Clone)]
pub struct EmptyMaterial {}

} // verus!
