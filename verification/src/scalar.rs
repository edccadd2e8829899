//! IEEE-754 double-precision scalars, carried as their 64-bit patterns.
//!
//! The verifier has no theory of floating point, so every scalar in this
//! crate is a `u64` holding the bit pattern of a double. Arithmetic is done
//! by software-float routines of outside crates behind trusted wrappers;
//! each operation's result is given a name (an uninterpreted spec function),
//! so that contracts can state exactly which computation produced a value
//! without claiming anything about the bits themselves. Negation and
//! absolute value are pure sign-bit manipulations and are implemented and
//! verified here directly.

use vstd::prelude::*;
use rustc_apfloat::Float;

verus! {

/// Bit pattern of `0.0`.
pub const F_ZERO: u64 = 0x0000_0000_0000_0000;

/// Bit pattern of `1.0`.
pub const F_ONE: u64 = 0x3FF0_0000_0000_0000;

/// Bit pattern of `-1.0`.
pub const F_NEG_ONE: u64 = 0xBFF0_0000_0000_0000;

/// Bit pattern of `2.0`.
pub const F_TWO: u64 = 0x4000_0000_0000_0000;

/// Bit pattern of the largest finite double (`f64::MAX`).
pub const F_MAX: u64 = 0x7FEF_FFFF_FFFF_FFFF;

/// Bit pattern of `1e-15`, the determinant tolerance below which a quadric
/// is treated as non-invertible.
pub const F_DET_EPS: u64 = 0x3CD2_03AF_9EE7_5616;

/// Bit pattern of `1e-9`, the base factor of the per-pass acceptance
/// threshold.
pub const F_THRESHOLD_BASE: u64 = 0x3E11_2E0B_E826_D695;

/// Bit pattern of `3.0`, the offset added to the pass index in the
/// threshold formula.
pub const F_THREE: u64 = 0x4008_0000_0000_0000;

/// Bit pattern of `0.999`, the colinearity guard: a collapse is rejected
/// when two edge directions have a dot product of larger magnitude.
pub const F_COLINEAR: u64 = 0x3FEF_F7CE_D916_872B;

/// Bit pattern of `0.2`, the fold-over guard: a collapse is rejected when a
/// recomputed normal's dot product with the old normal falls below it.
pub const F_FLIP: u64 = 0x3FC9_9999_9999_999A;

/// The sign bit of a double.
pub const F_SIGN_MASK: u64 = 0x8000_0000_0000_0000;

/// All bits of a double except the sign.
pub const F_ABS_MASK: u64 = 0x7FFF_FFFF_FFFF_FFFF;

/// The double that IEEE addition returns on the two doubles given by bits.
pub uninterp spec fn fadd(a: u64, b: u64) -> u64;

/// The double that IEEE subtraction returns on the two doubles given by bits.
pub uninterp spec fn fsub(a: u64, b: u64) -> u64;

/// The double that IEEE multiplication returns on the two doubles given by bits.
pub uninterp spec fn fmul(a: u64, b: u64) -> u64;

/// The double that IEEE division returns on the two doubles given by bits.
pub uninterp spec fn fdiv(a: u64, b: u64) -> u64;

/// Whether the double given by `a` compares strictly below the one given by
/// `b`; false whenever either is a NaN.
pub uninterp spec fn flt(a: u64, b: u64) -> bool;

/// Whether the doubles given by `a` and `b` compare equal; false whenever
/// either is a NaN, and true for positive and negative zero together.
pub uninterp spec fn feq(a: u64, b: u64) -> bool;

/// The smaller of the two doubles under IEEE minNum semantics: the other
/// argument when one is a NaN.
pub uninterp spec fn fmin(a: u64, b: u64) -> u64;

/// The larger of the two doubles under IEEE maxNum semantics: the other
/// argument when one is a NaN.
pub uninterp spec fn fmax(a: u64, b: u64) -> u64;

/// The square root of the double given by bits.
pub uninterp spec fn fsqrt(a: u64) -> u64;

/// `a` raised to the power `b`, both doubles given by bits.
pub uninterp spec fn fpow(a: u64, b: u64) -> u64;

/// The arc cosine, in radians, of the double given by bits.
pub uninterp spec fn facos(a: u64) -> u64;

/// The double nearest to the unsigned integer `n`.
pub uninterp spec fn f_of_uint(n: usize) -> u64;

/// IEEE negation: exactly a flip of the sign bit, for every input
/// including NaN.
pub open spec fn fneg(a: u64) -> u64 {
    a ^ F_SIGN_MASK
}

/// IEEE absolute value: exactly a clear of the sign bit, for every input
/// including NaN.
pub open spec fn fabs(a: u64) -> u64 {
    a & F_ABS_MASK
}

/// Relies on rustc_apfloat's `Add` for `ieee::Double`: IEEE addition,
/// rounding to nearest even.
#[verifier::external_body]
pub(crate) fn add_f(a: u64, b: u64) -> (r: u64)
    ensures
        r == fadd(a, b),
{
    let x = rustc_apfloat::ieee::Double::from_bits(a as u128);
    let y = rustc_apfloat::ieee::Double::from_bits(b as u128);
    (x + y).value.to_bits() as u64
}

/// Relies on rustc_apfloat's `Sub` for `ieee::Double`: IEEE subtraction,
/// rounding to nearest even.
#[verifier::external_body]
pub(crate) fn sub_f(a: u64, b: u64) -> (r: u64)
    ensures
        r == fsub(a, b),
{
    let x = rustc_apfloat::ieee::Double::from_bits(a as u128);
    let y = rustc_apfloat::ieee::Double::from_bits(b as u128);
    (x - y).value.to_bits() as u64
}

/// Relies on rustc_apfloat's `Mul` for `ieee::Double`: IEEE multiplication,
/// rounding to nearest even.
#[verifier::external_body]
pub(crate) fn mul_f(a: u64, b: u64) -> (r: u64)
    ensures
        r == fmul(a, b),
{
    let x = rustc_apfloat::ieee::Double::from_bits(a as u128);
    let y = rustc_apfloat::ieee::Double::from_bits(b as u128);
    (x * y).value.to_bits() as u64
}

/// Relies on rustc_apfloat's `Div` for `ieee::Double`: IEEE division,
/// rounding to nearest even.
#[verifier::external_body]
pub(crate) fn div_f(a: u64, b: u64) -> (r: u64)
    ensures
        r == fdiv(a, b),
{
    let x = rustc_apfloat::ieee::Double::from_bits(a as u128);
    let y = rustc_apfloat::ieee::Double::from_bits(b as u128);
    (x / y).value.to_bits() as u64
}

/// Relies on rustc_apfloat's `PartialOrd` for `ieee::Double`: the IEEE
/// `<` predicate, false when either argument is a NaN.
#[verifier::external_body]
pub(crate) fn lt_f(a: u64, b: u64) -> (r: bool)
    ensures
        r == flt(a, b),
{
    let x = rustc_apfloat::ieee::Double::from_bits(a as u128);
    let y = rustc_apfloat::ieee::Double::from_bits(b as u128);
    x < y
}

/// Relies on rustc_apfloat's `PartialEq` for `ieee::Double`: the IEEE
/// `==` predicate, false when either argument is a NaN.
#[verifier::external_body]
pub(crate) fn eq_f(a: u64, b: u64) -> (r: bool)
    ensures
        r == feq(a, b),
{
    let x = rustc_apfloat::ieee::Double::from_bits(a as u128);
    let y = rustc_apfloat::ieee::Double::from_bits(b as u128);
    x == y
}

/// Relies on rustc_apfloat's `Float::min`: IEEE minNum, which its source
/// shows returns one of the two arguments unchanged.
#[verifier::external_body]
pub(crate) fn min_f(a: u64, b: u64) -> (r: u64)
    ensures
        r == fmin(a, b),
        r == a || r == b,
{
    let x = rustc_apfloat::ieee::Double::from_bits(a as u128);
    let y = rustc_apfloat::ieee::Double::from_bits(b as u128);
    x.min(y).to_bits() as u64
}

/// Relies on rustc_apfloat's `Float::max`: IEEE maxNum, which its source
/// shows returns one of the two arguments unchanged.
#[verifier::external_body]
pub(crate) fn max_f(a: u64, b: u64) -> (r: u64)
    ensures
        r == fmax(a, b),
        r == a || r == b,
{
    let x = rustc_apfloat::ieee::Double::from_bits(a as u128);
    let y = rustc_apfloat::ieee::Double::from_bits(b as u128);
    x.max(y).to_bits() as u64
}

/// Relies on libm's `sqrt` (and bytemuck's `cast` to move between a double
/// and its bits): the IEEE square root of a double.
#[verifier::external_body]
pub(crate) fn sqrt_f(a: u64) -> (r: u64)
    ensures
        r == fsqrt(a),
{
    bytemuck::cast(libm::sqrt(bytemuck::cast(a)))
}

/// Relies on libm's `pow` (and bytemuck's `cast` to move between a double
/// and its bits): `a` raised to the power `b`.
#[verifier::external_body]
pub(crate) fn pow_f(a: u64, b: u64) -> (r: u64)
    ensures
        r == fpow(a, b),
{
    bytemuck::cast(libm::pow(bytemuck::cast(a), bytemuck::cast(b)))
}

/// Relies on libm's `acos` (and bytemuck's `cast` to move between a double
/// and its bits): the arc cosine of a double, in radians.
#[verifier::external_body]
pub(crate) fn acos_f(a: u64) -> (r: u64)
    ensures
        r == facos(a),
{
    bytemuck::cast(libm::acos(bytemuck::cast(a)))
}

/// Relies on rustc_apfloat's `Float::from_u128`: the conversion of an
/// unsigned integer to the nearest double.
#[verifier::external_body]
pub(crate) fn uint_to_f(n: usize) -> (r: u64)
    ensures
        r == f_of_uint(n),
{
    rustc_apfloat::ieee::Double::from_u128(n as u128).value.to_bits() as u64
}

/// IEEE negation, performed directly on the bit pattern.
pub(crate) fn neg_f(a: u64) -> (r: u64)
    ensures
        r == fneg(a),
{
    a ^ F_SIGN_MASK
}

/// IEEE absolute value, performed directly on the bit pattern.
pub(crate) fn abs_f(a: u64) -> (r: u64)
    ensures
        r == fabs(a),
{
    a & F_ABS_MASK
}

} // verus!
