//! Three-component points and vectors over bit-pattern scalars, with the
//! handful of vector operations the mesh queries and the simplification
//! engine need. Every executable operation has a spec twin stating exactly
//! which scalar computations produce each component.

use vstd::prelude::*;
use crate::scalar::{fadd, fsub, fmul, fdiv, fsqrt, F_TWO};
use crate::scalar::{add_f, sub_f, mul_f, div_f, sqrt_f};

verus! {

/// A 3-component position or direction; each field holds the bit pattern of
/// a double.
#[derive(Clone, Copy, Debug, PartialEq, Eq, Structural)]
pub struct Point3 {
    pub x: u64,
    pub y: u64,
    pub z: u64,
}

impl Point3 {
    /// The componentwise difference `self - o`.
    pub open spec fn spec_minus(self, o: Point3) -> Point3 {
        Point3 { x: fsub(self.x, o.x), y: fsub(self.y, o.y), z: fsub(self.z, o.z) }
    }

    /// The dot product, summed left to right.
    pub open spec fn spec_dot(self, o: Point3) -> u64 {
        fadd(fadd(fmul(self.x, o.x), fmul(self.y, o.y)), fmul(self.z, o.z))
    }

    /// The cross product `self × o`.
    pub open spec fn spec_cross(self, o: Point3) -> Point3 {
        Point3 {
            x: fsub(fmul(self.y, o.z), fmul(self.z, o.y)),
            y: fsub(fmul(self.z, o.x), fmul(self.x, o.z)),
            z: fsub(fmul(self.x, o.y), fmul(self.y, o.x)),
        }
    }

    /// The Euclidean norm: the square root of the dot product with itself.
    pub open spec fn spec_norm(self) -> u64 {
        fsqrt(self.spec_dot(self))
    }

    /// The vector scaled to unit length by dividing each component by the
    /// norm; components become NaN when the norm is zero.
    pub open spec fn spec_normalized(self) -> Point3 {
        let n = self.spec_norm();
        Point3 { x: fdiv(self.x, n), y: fdiv(self.y, n), z: fdiv(self.z, n) }
    }

    /// The midpoint of two positions: componentwise sum halved.
    pub open spec fn spec_midpoint(self, o: Point3) -> Point3 {
        Point3 {
            x: fdiv(fadd(self.x, o.x), F_TWO),
            y: fdiv(fadd(self.y, o.y), F_TWO),
            z: fdiv(fadd(self.z, o.z), F_TWO),
        }
    }

    pub fn new(x: u64, y: u64, z: u64) -> (r: Point3)
        ensures
            r == (Point3 { x, y, z }),
    {
        Point3 { x, y, z }
    }

    pub fn minus(&self, o: &Point3) -> (r: Point3)
        ensures
            r == self.spec_minus(*o),
    {
        Point3 { x: sub_f(self.x, o.x), y: sub_f(self.y, o.y), z: sub_f(self.z, o.z) }
    }

    pub fn dot(&self, o: &Point3) -> (r: u64)
        ensures
            r == self.spec_dot(*o),
    {
        add_f(add_f(mul_f(self.x, o.x), mul_f(self.y, o.y)), mul_f(self.z, o.z))
    }

    pub fn cross(&self, o: &Point3) -> (r: Point3)
        ensures
            r == self.spec_cross(*o),
    {
        Point3 {
            x: sub_f(mul_f(self.y, o.z), mul_f(self.z, o.y)),
            y: sub_f(mul_f(self.z, o.x), mul_f(self.x, o.z)),
            z: sub_f(mul_f(self.x, o.y), mul_f(self.y, o.x)),
        }
    }

    pub fn norm(&self) -> (r: u64)
        ensures
            r == self.spec_norm(),
    {
        sqrt_f(self.dot(self))
    }

    pub fn normalized(&self) -> (r: Point3)
        ensures
            r == self.spec_normalized(),
    {
        let n = self.norm();
        Point3 { x: div_f(self.x, n), y: div_f(self.y, n), z: div_f(self.z, n) }
    }

    pub fn midpoint(&self, o: &Point3) -> (r: Point3)
        ensures
            r == self.spec_midpoint(*o),
    {
        Point3 {
            x: div_f(add_f(self.x, o.x), F_TWO),
            y: div_f(add_f(self.y, o.y), F_TWO),
            z: div_f(add_f(self.z, o.z), F_TWO),
        }
    }
}

} // verus!
