//! The geometric entities: vertices on an exact integer grid, canonical
//! undirected edges, and the transient faces and cells of the incremental
//! construction, together with the fuzzy (squared-distance) comparator used
//! for deduplication.

use vstd::prelude::*;

verus! {

/// Largest coordinate magnitude the library accepts.  Inputs within this
/// range keep every bounding-construct corner inside the 32-bit coordinate
/// type and every intermediate distance computation exact.
pub const COORD_BOUND: i32 = 268435456;

/// A point of the input set, on an exact integer coordinate grid.
///
/// Coordinates are integers so that comparisons, the squared-distance
/// comparator and the in-sphere predicate are all exact; callers working in
/// other units quantize onto this grid first.  Equality and hashing are
/// structural (all three coordinates equal), which makes a vertex usable as
/// a set or graph key; the fuzzy comparator [`Vertex::almost_equal`] is a
/// separate operation and never stands in for identity.
#[derive(Clone, Copy, PartialEq, Eq, Hash, Debug, Structural)]
pub struct Vertex {
    pub x: i32,
    pub y: i32,
    pub z: i32,
}

/// An undirected segment of the final graph.  [`Edge::new`] stores the
/// lexicographically smaller endpoint first, so the same unordered pair of
/// vertices always yields the same value.
#[derive(Clone, Copy, PartialEq, Eq, Hash, Debug, Structural)]
pub struct Edge {
    pub a: Vertex,
    pub b: Vertex,
}

/// A transient triangular face, examined during a single insertion step of
/// the incremental construction.
#[derive(Clone, Copy, PartialEq, Eq, Structural, Debug)]
pub struct Triangle {
    pub a: Vertex,
    pub b: Vertex,
    pub c: Vertex,
}

/// A tetrahedral cell of the evolving triangulation.
#[derive(Clone, Copy, PartialEq, Eq, Structural, Debug)]
pub struct Tetrahedron {
    pub a: Vertex,
    pub b: Vertex,
    pub c: Vertex,
    pub d: Vertex,
}

/// Whether every coordinate of `v` has magnitude at most [`COORD_BOUND`].
pub open spec fn in_coord_range(v: Vertex) -> bool {
    &&& -COORD_BOUND <= v.x <= COORD_BOUND
    &&& -COORD_BOUND <= v.y <= COORD_BOUND
    &&& -COORD_BOUND <= v.z <= COORD_BOUND
}

/// The exact squared Euclidean distance between two vertices.
pub open spec fn dist_sq(u: Vertex, v: Vertex) -> int {
    (u.x - v.x) * (u.x - v.x) + (u.y - v.y) * (u.y - v.y) + (u.z - v.z) * (u.z - v.z)
}

/// The fuzzy comparator: two vertices count as coincident when their squared
/// distance is strictly below the tolerance.  It is used only for
/// deduplicating faces and detecting bounding-construct corners, never for
/// identity, and it is not transitive.
pub open spec fn spec_almost_eq(u: Vertex, v: Vertex, tolerance_sq: u64) -> bool {
    dist_sq(u, v) < tolerance_sq
}

/// Strict lexicographic order on vertex coordinates.
pub open spec fn vertex_lt(u: Vertex, v: Vertex) -> bool {
    ||| u.x < v.x
    ||| (u.x == v.x && u.y < v.y)
    ||| (u.x == v.x && u.y == v.y && u.z < v.z)
}

/// The canonical undirected edge on endpoints `u` and `v`: the
/// lexicographically smaller endpoint comes first.
pub open spec fn spec_edge(u: Vertex, v: Vertex) -> Edge {
    if vertex_lt(v, u) {
        Edge { a: v, b: u }
    } else {
        Edge { a: u, b: v }
    }
}

/// Fuzzy face matching: each vertex of one face is fuzzy-coincident with
/// some vertex of the other, in any pairing.
pub open spec fn spec_tri_almost_eq(s: Triangle, t: Triangle, tolerance_sq: u64) -> bool {
    &&& (spec_almost_eq(s.a, t.a, tolerance_sq) || spec_almost_eq(s.a, t.b, tolerance_sq)
        || spec_almost_eq(s.a, t.c, tolerance_sq))
    &&& (spec_almost_eq(s.b, t.a, tolerance_sq) || spec_almost_eq(s.b, t.b, tolerance_sq)
        || spec_almost_eq(s.b, t.c, tolerance_sq))
    &&& (spec_almost_eq(s.c, t.a, tolerance_sq) || spec_almost_eq(s.c, t.b, tolerance_sq)
        || spec_almost_eq(s.c, t.c, tolerance_sq))
}

/// Whether some corner of cell `t` is fuzzy-coincident with `v`.
pub open spec fn spec_contains_vertex(t: Tetrahedron, v: Vertex, tolerance_sq: u64) -> bool {
    ||| spec_almost_eq(v, t.a, tolerance_sq)
    ||| spec_almost_eq(v, t.b, tolerance_sq)
    ||| spec_almost_eq(v, t.c, tolerance_sq)
    ||| spec_almost_eq(v, t.d, tolerance_sq)
}

/// The squared distance of a vertex to itself is zero, so under any positive
/// tolerance a vertex is fuzzy-coincident with itself.
pub proof fn lemma_dist_sq_self(v: Vertex)
    ensures
        dist_sq(v, v) == 0,
{
    assert((v.x - v.x) * (v.x - v.x) == 0) by (nonlinear_arith);
    assert((v.y - v.y) * (v.y - v.y) == 0) by (nonlinear_arith);
    assert((v.z - v.z) * (v.z - v.z) == 0) by (nonlinear_arith);
}

/// The square of a number bounded by `2^32` in magnitude is bounded by
/// `2^64`, so three such squares sum without overflowing 128 bits.
proof fn lemma_square_bound(v: int)
    requires
        -0x100000000 <= v <= 0x100000000,
    ensures
        0 <= v * v <= 0x10000000000000000,
{
    assert(0 <= v * v <= 0x10000000000000000) by (nonlinear_arith)
        requires
            -0x100000000 <= v <= 0x100000000,
    ;
}

impl Vertex {
    /// Builds the vertex with the given grid coordinates.
    pub fn new(x: i32, y: i32, z: i32) -> (v: Vertex)
        ensures
            v == (Vertex { x, y, z }),
    {
        Vertex { x, y, z }
    }

    /// Fuzzy comparator: whether the squared Euclidean distance to `v` is
    /// strictly below `tolerance_sq`.
    pub fn almost_equal(&self, v: &Vertex, tolerance_sq: u64) -> (r: bool)
        ensures
            r == spec_almost_eq(*self, *v, tolerance_sq),
    {
        let dx: i128 = self.x as i128 - v.x as i128;
        let dy: i128 = self.y as i128 - v.y as i128;
        let dz: i128 = self.z as i128 - v.z as i128;
        proof {
            lemma_square_bound(dx as int);
            lemma_square_bound(dy as int);
            lemma_square_bound(dz as int);
        }
        dx * dx + dy * dy + dz * dz < tolerance_sq as i128
    }
}

impl Edge {
    /// Builds the canonical edge on `a` and `b`: the direction is normalized,
    /// so `new(a, b)` and `new(b, a)` yield the same value.
    pub fn new(a: Vertex, b: Vertex) -> (e: Edge)
        ensures
            e == spec_edge(a, b),
    {
        if b.x < a.x || (b.x == a.x && (b.y < a.y || (b.y == a.y && b.z < a.z))) {
            Edge { a: b, b: a }
        } else {
            Edge { a, b }
        }
    }
}

impl Triangle {
    /// Builds the face with the given corners.
    pub fn new(a: Vertex, b: Vertex, c: Vertex) -> (t: Triangle)
        ensures
            t == (Triangle { a, b, c }),
    {
        Triangle { a, b, c }
    }

    /// Fuzzy face matching, vertex-wise under the tolerance.
    pub fn almost_equal(&self, triangle: &Triangle, tolerance_sq: u64) -> (r: bool)
        ensures
            r == spec_tri_almost_eq(*self, *triangle, tolerance_sq),
    {
        (self.a.almost_equal(&triangle.a, tolerance_sq)
            || self.a.almost_equal(&triangle.b, tolerance_sq)
            || self.a.almost_equal(&triangle.c, tolerance_sq))
            && (self.b.almost_equal(&triangle.a, tolerance_sq)
                || self.b.almost_equal(&triangle.b, tolerance_sq)
                || self.b.almost_equal(&triangle.c, tolerance_sq))
            && (self.c.almost_equal(&triangle.a, tolerance_sq)
                || self.c.almost_equal(&triangle.b, tolerance_sq)
                || self.c.almost_equal(&triangle.c, tolerance_sq))
    }
}

impl Tetrahedron {
    /// Builds the cell with the given corners.
    pub fn new(a: Vertex, b: Vertex, c: Vertex, d: Vertex) -> (t: Tetrahedron)
        ensures
            t == (Tetrahedron { a, b, c, d }),
    {
        Tetrahedron { a, b, c, d }
    }

    /// Whether some corner of this cell is fuzzy-coincident with `v`.
    pub fn contains_vertex(&self, v: &Vertex, tolerance_sq: u64) -> (r: bool)
        ensures
            r == spec_contains_vertex(*self, *v, tolerance_sq),
    {
        v.almost_equal(&self.a, tolerance_sq)
            || v.almost_equal(&self.b, tolerance_sq)
            || v.almost_equal(&self.c, tolerance_sq)
            || v.almost_equal(&self.d, tolerance_sq)
    }
}

} // verus!
