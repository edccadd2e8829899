//! Construction helpers that build meshes or faces from simple inputs.

use vstd::prelude::*;
use crate::scalar::{fdiv, fneg, F_TWO};
use crate::scalar::{div_f, neg_f};
use crate::vec3::Point3;
use crate::attributes::Attributes;
use crate::attributes::LoadSource;
use crate::mesh::{Trimesh, InnerCache};

verus! {

/// The vertex corner of an axis-aligned box: each component is plus or
/// minus half the corresponding extent.
pub open spec fn box_corner(hx: u64, hy: u64, hz: u64, sx: bool, sy: bool, sz: bool) -> Point3 {
    Point3 {
        x: if sx { hx } else { fneg(hx) },
        y: if sy { hy } else { fneg(hy) },
        z: if sz { hz } else { fneg(hz) },
    }
}

/// Create a mesh of a box centered at the origin with the given axis
/// aligned bounding box size: eight corners at half the extents, twelve
/// triangular faces, and an empty cache.
pub fn create_box(extents: &[u64; 3]) -> (r: Trimesh)
    ensures
        r.wf(),
        r.cache_empty(),
        r.faces_valid(),
        r.vertices@.len() == 8,
        r.faces@.len() == 12,
        ({
            let hx = fdiv(extents[0], F_TWO);
            let hy = fdiv(extents[1], F_TWO);
            let hz = fdiv(extents[2], F_TWO);
            &&& r.vertices@[0] == box_corner(hx, hy, hz, false, false, false)
            &&& r.vertices@[1] == box_corner(hx, hy, hz, true, false, false)
            &&& r.vertices@[2] == box_corner(hx, hy, hz, true, true, false)
            &&& r.vertices@[3] == box_corner(hx, hy, hz, false, true, false)
            &&& r.vertices@[4] == box_corner(hx, hy, hz, false, false, true)
            &&& r.vertices@[5] == box_corner(hx, hy, hz, true, false, true)
            &&& r.vertices@[6] == box_corner(hx, hy, hz, true, true, true)
            &&& r.vertices@[7] == box_corner(hx, hy, hz, false, true, true)
        }),
        r.faces@ == seq![
            (0usize, 1usize, 2usize),
            (0usize, 2usize, 3usize),
            (4usize, 5usize, 6usize),
            (4usize, 6usize, 7usize),
            (0usize, 1usize, 5usize),
            (0usize, 5usize, 4usize),
            (2usize, 3usize, 7usize),
            (2usize, 7usize, 6usize),
            (1usize, 2usize, 6usize),
            (1usize, 6usize, 5usize),
            (3usize, 0usize, 4usize),
            (3usize, 4usize, 7usize),
        ],
{
    let hx = div_f(extents[0], F_TWO);
    let hy = div_f(extents[1], F_TWO);
    let hz = div_f(extents[2], F_TWO);
    let mut vertices: Vec<Point3> = Vec::new();
    vertices.push(Point3 { x: neg_f(hx), y: neg_f(hy), z: neg_f(hz) });
    vertices.push(Point3 { x: hx, y: neg_f(hy), z: neg_f(hz) });
    vertices.push(Point3 { x: hx, y: hy, z: neg_f(hz) });
    vertices.push(Point3 { x: neg_f(hx), y: hy, z: neg_f(hz) });
    vertices.push(Point3 { x: neg_f(hx), y: neg_f(hy), z: hz });
    vertices.push(Point3 { x: hx, y: neg_f(hy), z: hz });
    vertices.push(Point3 { x: hx, y: hy, z: hz });
    vertices.push(Point3 { x: neg_f(hx), y: hy, z: hz });
    let mut faces: Vec<(usize, usize, usize)> = Vec::new();
    faces.push((0, 1, 2));
    faces.push((0, 2, 3));
    faces.push((4, 5, 6));
    faces.push((4, 6, 7));
    faces.push((0, 1, 5));
    faces.push((0, 5, 4));
    faces.push((2, 3, 7));
    faces.push((2, 7, 6));
    faces.push((1, 2, 6));
    faces.push((1, 6, 5));
    faces.push((3, 0, 4));
    faces.push((3, 4, 7));
    proof {
        assert(faces@ =~= seq![
            (0usize, 1usize, 2usize),
            (0usize, 2usize, 3usize),
            (4usize, 5usize, 6usize),
            (4usize, 6usize, 7usize),
            (0usize, 1usize, 5usize),
            (0usize, 5usize, 4usize),
            (2usize, 3usize, 7usize),
            (2usize, 7usize, 6usize),
            (1usize, 2usize, 6usize),
            (1usize, 6usize, 5usize),
            (3usize, 0usize, 4usize),
            (3usize, 4usize, 7usize),
        ]);
    }
    Trimesh {
        vertices,
        faces,
        attributes_vertex: Attributes::default(),
        attributes_face: Attributes::default(),
        source: LoadSource::default(),
        _cache: InnerCache::empty(),
    }
}

/// Triangulate a polygon using a triangle fan. This requires no knowledge
/// of the position of the vertices but may produce incorrect triangulations
/// for non-convex polygons and does not support interiors.
///
/// `exterior` is the polygon boundary as indices of a vertex list; the
/// result is one triangle per boundary edge past the first two vertices,
/// all sharing the first vertex.
pub fn triangulate_fan(exterior: &[usize]) -> (r: Vec<(usize, usize, usize)>)
    requires
        exterior@.len() >= 1,
    ensures
        exterior@.len() >= 2 ==> r@.len() == exterior@.len() - 2,
        exterior@.len() < 2 ==> r@.len() == 0,
        forall|i: int|
            0 <= i < r@.len() ==> r@[i] == (exterior@[0], exterior@[i + 1], exterior@[i + 2]),
{
    let mut r: Vec<(usize, usize, usize)> = Vec::new();
    if exterior.len() < 2 {
        return r;
    }
    let end = exterior.len() - 1;
    let mut i: usize = 1;
    while i < end
        invariant
            1 <= i <= end,
            end == exterior@.len() - 1,
            exterior@.len() >= 2,
            r@.len() == i - 1,
            forall|k: int|
                0 <= k < r@.len() ==> r@[k] == (exterior@[0], exterior@[k + 1], exterior@[k + 2]),
        decreases end - i,
    {
        r.push((exterior[0], exterior[i], exterior[i + 1]));
        i = i + 1;
    }
    r
}

} // verus!
