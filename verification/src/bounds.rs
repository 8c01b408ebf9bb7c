//! The bounding construct: one oversized cell that seeds the incremental
//! algorithm.  Its corners are the minimum corner of the axis-aligned
//! bounding box pushed out by one unit, and three corners pushed out past the
//! maximum by twice the largest box extent.

use vstd::prelude::*;

verus! {

use crate::geometry::COORD_BOUND;
use crate::geometry::Tetrahedron;
use crate::geometry::Vertex;
use crate::geometry::in_coord_range;

/// The least x coordinate among the vertices of `s` (for non-empty `s`).
pub open spec fn x_min_of(s: Seq<Vertex>) -> int
    recommends
        s.len() > 0,
    decreases s.len(),
{
    if s.len() <= 1 {
        s[0].x as int
    } else {
        let m = x_min_of(s.drop_last());
        if s.last().x < m {
            s.last().x as int
        } else {
            m
        }
    }
}

/// The greatest x coordinate among the vertices of `s` (for non-empty `s`).
pub open spec fn x_max_of(s: Seq<Vertex>) -> int
    recommends
        s.len() > 0,
    decreases s.len(),
{
    if s.len() <= 1 {
        s[0].x as int
    } else {
        let m = x_max_of(s.drop_last());
        if s.last().x > m {
            s.last().x as int
        } else {
            m
        }
    }
}

/// The least y coordinate among the vertices of `s` (for non-empty `s`).
pub open spec fn y_min_of(s: Seq<Vertex>) -> int
    recommends
        s.len() > 0,
    decreases s.len(),
{
    if s.len() <= 1 {
        s[0].y as int
    } else {
        let m = y_min_of(s.drop_last());
        if s.last().y < m {
            s.last().y as int
        } else {
            m
        }
    }
}

/// The greatest y coordinate among the vertices of `s` (for non-empty `s`).
pub open spec fn y_max_of(s: Seq<Vertex>) -> int
    recommends
        s.len() > 0,
    decreases s.len(),
{
    if s.len() <= 1 {
        s[0].y as int
    } else {
        let m = y_max_of(s.drop_last());
        if s.last().y > m {
            s.last().y as int
        } else {
            m
        }
    }
}

/// The least z coordinate among the vertices of `s` (for non-empty `s`).
pub open spec fn z_min_of(s: Seq<Vertex>) -> int
    recommends
        s.len() > 0,
    decreases s.len(),
{
    if s.len() <= 1 {
        s[0].z as int
    } else {
        let m = z_min_of(s.drop_last());
        if s.last().z < m {
            s.last().z as int
        } else {
            m
        }
    }
}

/// The greatest z coordinate among the vertices of `s` (for non-empty `s`).
pub open spec fn z_max_of(s: Seq<Vertex>) -> int
    recommends
        s.len() > 0,
    decreases s.len(),
{
    if s.len() <= 1 {
        s[0].z as int
    } else {
        let m = z_max_of(s.drop_last());
        if s.last().z > m {
            s.last().z as int
        } else {
            m
        }
    }
}

/// Twice the largest extent of the axis-aligned bounding box of `s`.
pub open spec fn spec_super_extent(s: Seq<Vertex>) -> int {
    let dx = x_max_of(s) - x_min_of(s);
    let dy = y_max_of(s) - y_min_of(s);
    let dz = z_max_of(s) - z_min_of(s);
    let m = if dx >= dy { dx } else { dy };
    let m = if m >= dz { m } else { dz };
    2 * m
}

/// The bounding construct of the non-empty vertex sequence `s`: one corner a
/// unit below the box minimum on every axis, and three corners each pushed
/// past the box maximum along one axis by twice the largest extent.
pub open spec fn spec_super_tetrahedron(s: Seq<Vertex>) -> Tetrahedron {
    let d = spec_super_extent(s);
    Tetrahedron {
        a: Vertex {
            x: (x_min_of(s) - 1) as i32,
            y: (y_min_of(s) - 1) as i32,
            z: (z_min_of(s) - 1) as i32,
        },
        b: Vertex {
            x: (x_max_of(s) + d) as i32,
            y: (y_min_of(s) - 1) as i32,
            z: (z_min_of(s) - 1) as i32,
        },
        c: Vertex {
            x: (x_min_of(s) - 1) as i32,
            y: (y_max_of(s) + d) as i32,
            z: (z_min_of(s) - 1) as i32,
        },
        d: Vertex {
            x: (x_min_of(s) - 1) as i32,
            y: (y_min_of(s) - 1) as i32,
            z: (z_max_of(s) + d) as i32,
        },
    }
}

/// The least x coordinate is a lower bound for every vertex's x coordinate.
pub proof fn lemma_x_min_le(s: Seq<Vertex>, i: int)
    requires
        0 <= i < s.len(),
    ensures
        x_min_of(s) <= s[i].x,
    decreases s.len(),
{
    if s.len() > 1 && i < s.len() - 1 {
        lemma_x_min_le(s.drop_last(), i);
        assert(s.drop_last()[i] == s[i]);
    }
}

/// The least y coordinate is a lower bound for every vertex's y coordinate.
pub proof fn lemma_y_min_le(s: Seq<Vertex>, i: int)
    requires
        0 <= i < s.len(),
    ensures
        y_min_of(s) <= s[i].y,
    decreases s.len(),
{
    if s.len() > 1 && i < s.len() - 1 {
        lemma_y_min_le(s.drop_last(), i);
        assert(s.drop_last()[i] == s[i]);
    }
}

/// Computes the bounding construct of a non-empty vertex sequence in one
/// linear pass over the coordinates.
#[verifier::loop_isolation(false)]
pub fn make_super_tetrahedron(vertices: &Vec<Vertex>) -> (t: Tetrahedron)
    requires
        vertices@.len() > 0,
        forall|k: int| 0 <= k < vertices@.len() ==> in_coord_range(#[trigger] vertices@[k]),
    ensures
        t == spec_super_tetrahedron(vertices@),
{
    let mut x_min = vertices[0].x;
    let mut y_min = vertices[0].y;
    let mut z_min = vertices[0].z;
    let mut x_max = x_min;
    let mut y_max = y_min;
    let mut z_max = z_min;

    let mut i: usize = 1;
    while i < vertices.len()
        invariant
            1 <= i <= vertices@.len(),
            -COORD_BOUND <= x_min <= x_max <= COORD_BOUND,
            -COORD_BOUND <= y_min <= y_max <= COORD_BOUND,
            -COORD_BOUND <= z_min <= z_max <= COORD_BOUND,
            x_min == x_min_of(vertices@.take(i as int)),
            x_max == x_max_of(vertices@.take(i as int)),
            y_min == y_min_of(vertices@.take(i as int)),
            y_max == y_max_of(vertices@.take(i as int)),
            z_min == z_min_of(vertices@.take(i as int)),
            z_max == z_max_of(vertices@.take(i as int)),
        decreases vertices@.len() - i,
    {
        let v = vertices[i];
        proof {
            assert(vertices@.take(i + 1).drop_last() =~= vertices@.take(i as int));
            assert(vertices@.take(i + 1).last() == vertices@[i as int]);
        }
        if v.x < x_min {
            x_min = v.x;
        }
        if v.x > x_max {
            x_max = v.x;
        }
        if v.y < y_min {
            y_min = v.y;
        }
        if v.y > y_max {
            y_max = v.y;
        }
        if v.z < z_min {
            z_min = v.z;
        }
        if v.z > z_max {
            z_max = v.z;
        }
        i = i + 1;
    }
    proof {
        assert(vertices@.take(vertices@.len() as int) =~= vertices@);
    }

    let dx: i32 = x_max - x_min;
    let dy: i32 = y_max - y_min;
    let dz: i32 = z_max - z_min;
    let m: i32 = if dx >= dy {
        dx
    } else {
        dy
    };
    let m: i32 = if m >= dz {
        m
    } else {
        dz
    };
    let d_max: i32 = 2 * m;

    Tetrahedron::new(
        Vertex { x: x_min - 1, y: y_min - 1, z: z_min - 1 },
        Vertex { x: x_max + d_max, y: y_min - 1, z: z_min - 1 },
        Vertex { x: x_min - 1, y: y_max + d_max, z: z_min - 1 },
        Vertex { x: x_min - 1, y: y_min - 1, z: z_max + d_max },
    )
}

} // verus!
