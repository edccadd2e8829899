//! The symmetric error quadric: 10 independent scalars for the upper
//! triangle of a symmetric 4×4 matrix accumulated from supporting-plane
//! equations, evaluated as a quadratic form to score vertex merges.

use vstd::prelude::*;
use crate::scalar::{fadd, fsub, fmul};
use crate::scalar::{add_f, sub_f, mul_f, F_TWO};
use crate::vec3::Point3;

verus! {

/// A symmetric 4×4 error quadric stored as its 10 upper-triangle entries,
/// each the bit pattern of a double.
#[derive(Clone, Copy, Debug)]
pub struct SymmetricMatrix {
    pub m: [u64; 10],
}

/// One signed 3×3 determinant over entries of the quadric, with the exact
/// association order of the evaluation: three products summed left to
/// right, then three products subtracted left to right.
pub open spec fn spec_det3(
    m: Seq<u64>,
    a11: int,
    a12: int,
    a13: int,
    a21: int,
    a22: int,
    a23: int,
    a31: int,
    a32: int,
    a33: int,
) -> u64 {
    fsub(
        fsub(
            fsub(
                fadd(
                    fadd(
                        fmul(fmul(m[a11], m[a22]), m[a33]),
                        fmul(fmul(m[a13], m[a21]), m[a32]),
                    ),
                    fmul(fmul(m[a12], m[a23]), m[a31]),
                ),
                fmul(fmul(m[a13], m[a22]), m[a31]),
            ),
            fmul(fmul(m[a11], m[a23]), m[a32]),
        ),
        fmul(fmul(m[a12], m[a21]), m[a33]),
    )
}

impl SymmetricMatrix {
    /// The elementwise sum of two quadrics.
    pub open spec fn spec_plus(self, o: SymmetricMatrix) -> SymmetricMatrix {
        SymmetricMatrix {
            m: [
                fadd(self.m[0], o.m[0]),
                fadd(self.m[1], o.m[1]),
                fadd(self.m[2], o.m[2]),
                fadd(self.m[3], o.m[3]),
                fadd(self.m[4], o.m[4]),
                fadd(self.m[5], o.m[5]),
                fadd(self.m[6], o.m[6]),
                fadd(self.m[7], o.m[7]),
                fadd(self.m[8], o.m[8]),
                fadd(self.m[9], o.m[9]),
            ],
        }
    }

    /// The quadric of the plane `ax + by + cz + d = 0`: the outer product of
    /// `[a, b, c, d]` with itself, upper triangle in row order.
    pub open spec fn spec_from_plane(a: u64, b: u64, c: u64, d: u64) -> SymmetricMatrix {
        SymmetricMatrix {
            m: [
                fmul(a, a),
                fmul(a, b),
                fmul(a, c),
                fmul(a, d),
                fmul(b, b),
                fmul(b, c),
                fmul(b, d),
                fmul(c, c),
                fmul(c, d),
                fmul(d, d),
            ],
        }
    }

    /// The quadratic form `[x, y, z, 1] Q [x, y, z, 1]ᵗ` expanded to its ten
    /// terms, summed left to right with every product associated left.
    pub open spec fn spec_error_at(self, p: Point3) -> u64 {
        let m = self.m;
        fadd(
            fadd(
                fadd(
                    fadd(
                        fadd(
                            fadd(
                                fadd(
                                    fadd(
                                        fadd(
                                            fmul(fmul(m[0], p.x), p.x),
                                            fmul(fmul(fmul(F_TWO, m[1]), p.x), p.y),
                                        ),
                                        fmul(fmul(fmul(F_TWO, m[2]), p.x), p.z),
                                    ),
                                    fmul(fmul(F_TWO, m[3]), p.x),
                                ),
                                fmul(fmul(m[4], p.y), p.y),
                            ),
                            fmul(fmul(fmul(F_TWO, m[5]), p.y), p.z),
                        ),
                        fmul(fmul(F_TWO, m[6]), p.y),
                    ),
                    fmul(fmul(m[7], p.z), p.z),
                ),
                fmul(fmul(F_TWO, m[8]), p.z),
            ),
            m[9],
        )
    }

    /// A quadric with every entry the same scalar (usually zero).
    pub fn new(c: u64) -> (r: SymmetricMatrix)
        ensures
            forall|i: int| 0 <= i < 10 ==> r.m[i] == c,
    {
        SymmetricMatrix { m: [c, c, c, c, c, c, c, c, c, c] }
    }

    /// Build the quadric of the plane `ax + by + cz + d = 0`.
    pub fn from_plane(a: u64, b: u64, c: u64, d: u64) -> (r: SymmetricMatrix)
        ensures
            r == SymmetricMatrix::spec_from_plane(a, b, c, d),
    {
        SymmetricMatrix {
            m: [
                mul_f(a, a),
                mul_f(a, b),
                mul_f(a, c),
                mul_f(a, d),
                mul_f(b, b),
                mul_f(b, c),
                mul_f(b, d),
                mul_f(c, c),
                mul_f(c, d),
                mul_f(d, d),
            ],
        }
    }

    /// Read one of the ten entries.
    pub fn get(&self, index: usize) -> (r: u64)
        requires
            index < 10,
        ensures
            r == self.m[index as int],
    {
        self.m[index]
    }

    /// The signed 3×3 sub-determinant over the given entry positions.
    pub fn det3(
        &self,
        a11: usize,
        a12: usize,
        a13: usize,
        a21: usize,
        a22: usize,
        a23: usize,
        a31: usize,
        a32: usize,
        a33: usize,
    ) -> (r: u64)
        requires
            a11 < 10,
            a12 < 10,
            a13 < 10,
            a21 < 10,
            a22 < 10,
            a23 < 10,
            a31 < 10,
            a32 < 10,
            a33 < 10,
        ensures
            r == spec_det3(
                self.m@,
                a11 as int,
                a12 as int,
                a13 as int,
                a21 as int,
                a22 as int,
                a23 as int,
                a31 as int,
                a32 as int,
                a33 as int,
            ),
    {
        let m = &self.m;
        sub_f(
            sub_f(
                sub_f(
                    add_f(
                        add_f(
                            mul_f(mul_f(m[a11], m[a22]), m[a33]),
                            mul_f(mul_f(m[a13], m[a21]), m[a32]),
                        ),
                        mul_f(mul_f(m[a12], m[a23]), m[a31]),
                    ),
                    mul_f(mul_f(m[a13], m[a22]), m[a31]),
                ),
                mul_f(mul_f(m[a11], m[a23]), m[a32]),
            ),
            mul_f(mul_f(m[a12], m[a21]), m[a33]),
        )
    }

    /// Combine two quadrics by elementwise addition.
    pub fn plus(&self, o: &SymmetricMatrix) -> (r: SymmetricMatrix)
        ensures
            r == self.spec_plus(*o),
    {
        SymmetricMatrix {
            m: [
                add_f(self.m[0], o.m[0]),
                add_f(self.m[1], o.m[1]),
                add_f(self.m[2], o.m[2]),
                add_f(self.m[3], o.m[3]),
                add_f(self.m[4], o.m[4]),
                add_f(self.m[5], o.m[5]),
                add_f(self.m[6], o.m[6]),
                add_f(self.m[7], o.m[7]),
                add_f(self.m[8], o.m[8]),
                add_f(self.m[9], o.m[9]),
            ],
        }
    }

    /// Evaluate the quadratic form at a point.
    pub fn error_at(&self, p: &Point3) -> (r: u64)
        ensures
            r == self.spec_error_at(*p),
    {
        let m = &self.m;
        add_f(
            add_f(
                add_f(
                    add_f(
                        add_f(
                            add_f(
                                add_f(
                                    add_f(
                                        add_f(
                                            mul_f(mul_f(m[0], p.x), p.x),
                                            mul_f(mul_f(mul_f(F_TWO, m[1]), p.x), p.y),
                                        ),
                                        mul_f(mul_f(mul_f(F_TWO, m[2]), p.x), p.z),
                                    ),
                                    mul_f(mul_f(F_TWO, m[3]), p.x),
                                ),
                                mul_f(mul_f(m[4], p.y), p.y),
                            ),
                            mul_f(mul_f(mul_f(F_TWO, m[5]), p.y), p.z),
                        ),
                        mul_f(mul_f(F_TWO, m[6]), p.y),
                    ),
                    mul_f(mul_f(m[7], p.z), p.z),
                ),
                mul_f(mul_f(F_TWO, m[8]), p.z),
            ),
            m[9],
        )
    }
}

} // verus!
