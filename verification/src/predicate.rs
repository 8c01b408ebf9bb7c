//! The empty-circumsphere test.  The exact in-sphere determinant is computed
//! by an outside adaptive-precision predicate; the library names its result,
//! normalizes the cell's orientation, and does the sign test itself.
//!
//! The outside in-sphere determinant reads "positive means strictly inside"
//! only when the four cell corners are positively oriented, so the test
//! first takes the cell's orientation and, when it is negative, swaps two
//! corners before asking.  A flat (coplanar) cell has no circumsphere and
//! counts as containing nothing.

use vstd::prelude::*;

verus! {

use crate::geometry::Tetrahedron;
use crate::geometry::Vertex;

/// The IEEE-754 bit pattern of the in-sphere determinant of five grid points,
/// as `robust::insphere` computes it.  Grid coordinates are exactly
/// representable, the computation is exact, and so the value is a function of
/// the fifteen coordinates alone.
pub uninterp spec fn in_sphere_bits(a: Vertex, b: Vertex, c: Vertex, d: Vertex, q: Vertex) -> u64;

/// The IEEE-754 bit pattern of the orientation determinant of four grid
/// points, as `robust::orient3d` computes it; a function of the twelve
/// coordinates alone.
pub uninterp spec fn orient_bits(a: Vertex, b: Vertex, c: Vertex, d: Vertex) -> u64;

/// Whether a 64-bit IEEE-754 bit pattern encodes a value strictly greater
/// than zero: the sign bit is clear and the pattern is not the zero pattern.
pub open spec fn f64_bits_positive(bits: u64) -> bool {
    bits != 0u64 && bits < 0x8000000000000000u64
}

/// Whether a 64-bit IEEE-754 bit pattern encodes a value strictly less than
/// zero: the sign bit is set and the pattern is not the negative-zero
/// pattern.
pub open spec fn f64_bits_negative(bits: u64) -> bool {
    bits > 0x8000000000000000u64
}

/// Whether `q` lies strictly inside the circumsphere of the cell `(a, b, c,
/// d)`: the in-sphere determinant, taken over the corners in positive
/// orientation, is strictly positive.  A determinant of zero (cospherical
/// points) counts as outside, so ties favor exclusion; a flat cell contains
/// nothing.
pub open spec fn spec_in_sphere(a: Vertex, b: Vertex, c: Vertex, d: Vertex, q: Vertex) -> bool {
    if f64_bits_positive(orient_bits(a, b, c, d)) {
        f64_bits_positive(in_sphere_bits(a, b, c, d, q))
    } else if f64_bits_negative(orient_bits(a, b, c, d)) {
        f64_bits_positive(in_sphere_bits(b, a, c, d, q))
    } else {
        false
    }
}

/// Relies on robust::insphere: the exact sign-accurate in-sphere determinant
/// of five points, positive exactly when `q` lies strictly inside the sphere
/// through `a`, `b`, `c`, `d` taken in positive orientation.  Integer grid
/// coordinates convert to f64 losslessly and the adaptive-precision
/// computation is exact, so the result depends on the coordinates alone; the
/// wrapper hands its bit pattern back unchanged.
#[verifier::external_body]
fn insphere_det_bits(a: &Vertex, b: &Vertex, c: &Vertex, d: &Vertex, q: &Vertex) -> (r: u64)
    ensures
        r == in_sphere_bits(*a, *b, *c, *d, *q),
{
    robust::insphere(
        robust::Coord3D { x: a.x, y: a.y, z: a.z },
        robust::Coord3D { x: b.x, y: b.y, z: b.z },
        robust::Coord3D { x: c.x, y: c.y, z: c.z },
        robust::Coord3D { x: d.x, y: d.y, z: d.z },
        robust::Coord3D { x: q.x, y: q.y, z: q.z },
    ).to_bits()
}

/// Relies on robust::orient3d: the exact sign-accurate orientation
/// determinant of four points, positive exactly when they are positively
/// oriented, zero exactly when they are coplanar.  Integer grid coordinates
/// convert to f64 losslessly and the computation is exact, so the result
/// depends on the coordinates alone; the wrapper hands its bit pattern back
/// unchanged.
#[verifier::external_body]
fn orient_det_bits(a: &Vertex, b: &Vertex, c: &Vertex, d: &Vertex) -> (r: u64)
    ensures
        r == orient_bits(*a, *b, *c, *d),
{
    robust::orient3d(
        robust::Coord3D { x: a.x, y: a.y, z: a.z },
        robust::Coord3D { x: b.x, y: b.y, z: b.z },
        robust::Coord3D { x: c.x, y: c.y, z: c.z },
        robust::Coord3D { x: d.x, y: d.y, z: d.z },
    ).to_bits()
}

/// Whether the bit pattern encodes a strictly positive value.
fn bits_positive(bits: u64) -> (r: bool)
    ensures
        r == f64_bits_positive(bits),
{
    bits != 0 && bits < 0x8000000000000000
}

impl Tetrahedron {
    /// Whether `v` lies strictly inside the circumsphere constructed via the
    /// vertices of the cell `t`, whatever their orientation.
    pub fn in_circumsphere(t: Tetrahedron, v: &Vertex) -> (r: bool)
        ensures
            r == spec_in_sphere(t.a, t.b, t.c, t.d, *v),
    {
        let orient = orient_det_bits(&t.a, &t.b, &t.c, &t.d);
        if bits_positive(orient) {
            bits_positive(insphere_det_bits(&t.a, &t.b, &t.c, &t.d, v))
        } else if orient > 0x8000000000000000 {
            bits_positive(insphere_det_bits(&t.b, &t.a, &t.c, &t.d, v))
        } else {
            false
        }
    }
}

} // verus!
