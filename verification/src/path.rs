//! Paths built from curves over a shared vertex list. Curve evaluation
//! (lengths, discretization) belongs to the surrounding numeric layer; the
//! core holds the connectivity and simple constructors.

use vstd::prelude::*;
use crate::scalar::{fdiv, fneg, F_TWO, F_ZERO};
use crate::scalar::{div_f, neg_f};
use crate::vec3::Point3;

verus! {

/// One entity of a path: a polyline, a circular arc or a Bezier curve, all
/// referencing points of the path's vertex list by index.
pub enum Curve {
    Line { points: Vec<usize> },
    Circle { start: usize, end: usize, center: usize, closed: bool, is_ccw: bool },
    Bezier { points: Vec<usize> },
}

/// A path: curve entities over a shared vertex list.
pub struct Path {
    pub entities: Vec<Curve>,
    pub vertices: Vec<Point3>,
}

impl Path {
    /// Create a new path from a list of vertices and curves.
    pub fn new(vertices: Vec<Point3>, entities: Vec<Curve>) -> (r: Path)
        ensures
            r.vertices == vertices,
            r.entities == entities,
    {
        Path { vertices, entities }
    }
}

/// Create a rectangle path (no rounded corners): four corners at half the
/// width and height on each side of the origin, joined by one closed
/// polyline.
pub fn rectangle(width: u64, height: u64) -> (r: Path)
    ensures
        r.vertices@.len() == 4,
        ({
            let w = fdiv(width, F_TWO);
            let h = fdiv(height, F_TWO);
            &&& r.vertices@[0] == (Point3 { x: fneg(w), y: fneg(h), z: F_ZERO })
            &&& r.vertices@[1] == (Point3 { x: w, y: fneg(h), z: F_ZERO })
            &&& r.vertices@[2] == (Point3 { x: w, y: h, z: F_ZERO })
            &&& r.vertices@[3] == (Point3 { x: fneg(w), y: h, z: F_ZERO })
        }),
        r.entities@.len() == 1,
        r.entities@[0] matches Curve::Line { points } && points@ == seq![
            0usize,
            1usize,
            2usize,
            3usize,
            0usize,
        ],
{
    let w = div_f(width, F_TWO);
    let h = div_f(height, F_TWO);
    let mut vertices: Vec<Point3> = Vec::new();
    vertices.push(Point3 { x: neg_f(w), y: neg_f(h), z: F_ZERO });
    vertices.push(Point3 { x: w, y: neg_f(h), z: F_ZERO });
    vertices.push(Point3 { x: w, y: h, z: F_ZERO });
    vertices.push(Point3 { x: neg_f(w), y: h, z: F_ZERO });
    let mut points: Vec<usize> = Vec::new();
    points.push(0);
    points.push(1);
    points.push(2);
    points.push(3);
    points.push(0);
    proof {
        assert(points@ =~= seq![0usize, 1usize, 2usize, 3usize, 0usize]);
    }
    let mut entities: Vec<Curve> = Vec::new();
    entities.push(Curve::Line { points });
    Path::new(vertices, entities)
}

} // verus!
