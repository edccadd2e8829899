//! A flat scene graph over shared geometry: nodes reference their children
//! and their geometry, lights or cameras by index.

use vstd::prelude::*;
use crate::geometry::Geometry;

verus! {

/// A light source in the scene.
pub struct Light {
    pub name: String,
}

/// What a scene node points at.
pub enum SceneNodeKind {
    GEOMETRY,
    CAMERA,
    LIGHT,
    CUSTOM,
}

/// A 4×4 homogeneous transform, row by row; each entry holds the bit
/// pattern of a double.
#[derive(Clone, Copy, Debug)]
pub struct Transform4 {
    pub m: [u64; 16],
}

/// One node of the scene graph.
pub struct SceneNode {
    /// A human readable name for the node.
    pub name: String,
    /// The indices of the child nodes in the graph's node list.
    pub children: Vec<usize>,
    /// The transform from the parent node to this node, or `None` when they
    /// coincide.
    pub transform: Option<Transform4>,
    /// The type of this node.
    pub kind: SceneNodeKind,
    /// Indices into the scene's geometry, lights, cameras or custom
    /// entries, depending on `kind`.
    pub index: Vec<usize>,
}

/// A flat list of scene nodes with a distinguished root.
pub struct SceneGraph {
    pub root: usize,
    pub nodes: Vec<SceneNode>,
}

impl SceneGraph {
    pub fn new() -> (r: SceneGraph)
        ensures
            r.root == 0,
            r.nodes@.len() == 0,
    {
        SceneGraph { root: 0, nodes: Vec::new() }
    }

    /// Append a node and return its index.
    pub fn add_node(&mut self, node: SceneNode) -> (r: usize)
        ensures
            final(self).nodes@ == old(self).nodes@.push(node),
            final(self).root == old(self).root,
            r == old(self).nodes@.len(),
    {
        let index = self.nodes.len();
        self.nodes.push(node);
        index
    }
}

/// A scene: geometry, lights, the graph instancing them, and a camera node.
pub struct Scene {
    pub geometry: Vec<Geometry>,
    pub lights: Vec<Light>,
    pub graph: SceneGraph,
    pub camera: usize,
}

impl Scene {
    pub fn new() -> (r: Scene)
        ensures
            r.geometry@.len() == 0,
            r.lights@.len() == 0,
            r.graph.nodes@.len() == 0,
            r.graph.root == 0,
            r.camera == 0,
    {
        Scene { geometry: Vec::new(), lights: Vec::new(), graph: SceneGraph::new(), camera: 0 }
    }

    /// Append a piece of geometry and return its index.
    pub fn add_geometry(&mut self, geom: Geometry) -> (r: usize)
        ensures
            final(self).geometry@ == old(self).geometry@.push(geom),
            final(self).lights == old(self).lights,
            final(self).graph == old(self).graph,
            final(self).camera == old(self).camera,
            r == old(self).geometry@.len(),
    {
        let index = self.geometry.len();
        self.geometry.push(geom);
        index
    }
}

} // verus!
