//! The library-level laws: every returned edge endpoint is an input point
//! and never a bounding-construct corner, a single input point yields an
//! empty edge set, the result is a function of the input alone, the
//! canonical edge is symmetric in its endpoints, and the fuzzy comparator
//! and the bounding construct are translation-covariant.

use vstd::prelude::*;

verus! {

use crate::bounds::spec_super_extent;
use crate::bounds::spec_super_tetrahedron;
use crate::bounds::x_max_of;
use crate::bounds::x_min_of;
use crate::bounds::y_max_of;
use crate::bounds::y_min_of;
use crate::bounds::z_max_of;
use crate::bounds::z_min_of;
use crate::driver::bad_faces;
use crate::driver::boundary_faces;
use crate::driver::boundary_upto;
use crate::driver::bw_run;
use crate::driver::cell_edges;
use crate::driver::cell_faces;
use crate::driver::cells_edges;
use crate::driver::dedup_append;
use crate::driver::dedup_insert;
use crate::driver::interior_cells;
use crate::driver::rebuilt_cells;
use crate::driver::spec_edge_skeleton;
use crate::driver::spec_touches_corner;
use crate::driver::surviving_cells;
use crate::geometry::Edge;
use crate::geometry::Tetrahedron;
use crate::geometry::Triangle;
use crate::geometry::Vertex;
use crate::geometry::COORD_BOUND;
use crate::geometry::dist_sq;
use crate::geometry::in_coord_range;
use crate::geometry::lemma_dist_sq_self;
use crate::geometry::spec_almost_eq;
use crate::geometry::spec_contains_vertex;
use crate::geometry::spec_edge;
use crate::geometry::vertex_lt;

/// Whether `v` is an input point or a corner of the bounding construct.
pub open spec fn from_input_or_corner(v: Vertex, points: Seq<Vertex>, st: Tetrahedron) -> bool {
    ||| points.contains(v)
    ||| v == st.a
    ||| v == st.b
    ||| v == st.c
    ||| v == st.d
}

/// Whether every corner of cell `t` is an input point or a bounding corner.
pub open spec fn cell_from(t: Tetrahedron, points: Seq<Vertex>, st: Tetrahedron) -> bool {
    &&& from_input_or_corner(t.a, points, st)
    &&& from_input_or_corner(t.b, points, st)
    &&& from_input_or_corner(t.c, points, st)
    &&& from_input_or_corner(t.d, points, st)
}

/// An element of a sequence shorn of its last entry is an element of the
/// sequence.
pub proof fn lemma_drop_last_contains<A>(s: Seq<A>, x: A)
    requires
        s.len() > 0,
        s.drop_last().contains(x),
    ensures
        s.contains(x),
{
    let i = choose|i: int| 0 <= i < s.drop_last().len() && s.drop_last()[i] == x;
    assert(s[i] == x);
}

/// Membership in a concatenation is membership in one of the parts.
pub proof fn lemma_concat_contains<A>(s: Seq<A>, t: Seq<A>, x: A)
    ensures
        (s + t).contains(x) <==> s.contains(x) || t.contains(x),
{
    if (s + t).contains(x) {
        let i = choose|i: int| 0 <= i < (s + t).len() && (s + t)[i] == x;
        if i < s.len() {
            assert(s[i] == x);
        } else {
            assert(t[i - s.len()] == x);
        }
    }
    if s.contains(x) {
        let i = choose|i: int| 0 <= i < s.len() && s[i] == x;
        assert((s + t)[i] == x);
    }
    if t.contains(x) {
        let i = choose|i: int| 0 <= i < t.len() && t[i] == x;
        assert((s + t)[s.len() + i] == x);
    }
}

/// Every candidate face of an insertion step is a face of some cell of the
/// working collection.
pub proof fn lemma_bad_faces_origin(cells: Seq<Tetrahedron>, p: Vertex, f: Triangle)
    requires
        bad_faces(cells, p).contains(f),
    ensures
        exists|t: Tetrahedron|
            cells.contains(t) && #[trigger] cell_faces(t).contains(f),
    decreases cells.len(),
{
    let rest = if crate::driver::spec_cell_bad(cells.last(), p) {
        cell_faces(cells.last())
    } else {
        Seq::<Triangle>::empty()
    };
    lemma_concat_contains(bad_faces(cells.drop_last(), p), rest, f);
    if bad_faces(cells.drop_last(), p).contains(f) {
        lemma_bad_faces_origin(cells.drop_last(), p, f);
        let t = choose|t: Tetrahedron|
            cells.drop_last().contains(t) && #[trigger] cell_faces(t).contains(f);
        lemma_drop_last_contains(cells, t);
        assert(cells.contains(t) && cell_faces(t).contains(f));
    } else {
        assert(cells.contains(cells.last()));
        assert(cells.contains(cells.last()) && cell_faces(cells.last()).contains(f));
    }
}

/// Every surviving cell was already in the working collection.
pub proof fn lemma_surviving_origin(cells: Seq<Tetrahedron>, p: Vertex, t: Tetrahedron)
    requires
        surviving_cells(cells, p).contains(t),
    ensures
        cells.contains(t),
    decreases cells.len(),
{
    let rest = if crate::driver::spec_cell_bad(cells.last(), p) {
        Seq::<Tetrahedron>::empty()
    } else {
        seq![cells.last()]
    };
    lemma_concat_contains(surviving_cells(cells.drop_last(), p), rest, t);
    if surviving_cells(cells.drop_last(), p).contains(t) {
        lemma_surviving_origin(cells.drop_last(), p, t);
        lemma_drop_last_contains(cells, t);
    } else {
        assert(t == cells.last());
        assert(cells.contains(cells.last()));
    }
}

/// Every boundary face is a candidate face.
pub proof fn lemma_boundary_origin(faces: Seq<Triangle>, n: int, tolerance_sq: u64, f: Triangle)
    requires
        n <= faces.len(),
        boundary_upto(faces, n, tolerance_sq).contains(f),
    ensures
        faces.contains(f),
    decreases n,
{
    let rest = if crate::driver::face_matches_other(faces, n - 1, tolerance_sq) {
        Seq::<Triangle>::empty()
    } else {
        seq![faces[n - 1]]
    };
    lemma_concat_contains(boundary_upto(faces, n - 1, tolerance_sq), rest, f);
    if boundary_upto(faces, n - 1, tolerance_sq).contains(f) {
        lemma_boundary_origin(faces, n - 1, tolerance_sq, f);
    } else {
        assert(f == faces[n - 1]);
    }
}

/// Every rebuilt cell joins some boundary face to the new vertex.
pub proof fn lemma_rebuilt_origin(faces: Seq<Triangle>, p: Vertex, t: Tetrahedron)
    requires
        rebuilt_cells(faces, p).contains(t),
    ensures
        exists|f: Triangle|
            #[trigger] faces.contains(f) && t == (Tetrahedron { a: f.a, b: f.b, c: f.c, d: p }),
    decreases faces.len(),
{
    let last_cell = Tetrahedron { a: faces.last().a, b: faces.last().b, c: faces.last().c, d: p };
    lemma_concat_contains(rebuilt_cells(faces.drop_last(), p), seq![last_cell], t);
    if rebuilt_cells(faces.drop_last(), p).contains(t) {
        lemma_rebuilt_origin(faces.drop_last(), p, t);
        let f = choose|f: Triangle|
            #[trigger] faces.drop_last().contains(f) && t == (Tetrahedron {
                a: f.a,
                b: f.b,
                c: f.c,
                d: p,
            });
        lemma_drop_last_contains(faces, f);
        assert(faces.contains(f) && t == (Tetrahedron { a: f.a, b: f.b, c: f.c, d: p }));
    } else {
        assert(t == last_cell);
        assert(faces.contains(faces.last()));
        assert(faces.contains(faces.last()) && t == (Tetrahedron {
            a: faces.last().a,
            b: faces.last().b,
            c: faces.last().c,
            d: p,
        }));
    }
}

/// A face of a cell draws its three corners from the cell's four corners.
proof fn lemma_cell_faces_corners(t: Tetrahedron, f: Triangle, points: Seq<Vertex>, st: Tetrahedron)
    requires
        cell_faces(t).contains(f),
        cell_from(t, points, st),
    ensures
        from_input_or_corner(f.a, points, st),
        from_input_or_corner(f.b, points, st),
        from_input_or_corner(f.c, points, st),
{
    let i = choose|i: int| 0 <= i < cell_faces(t).len() && cell_faces(t)[i] == f;
    assert(i == 0 || i == 1 || i == 2 || i == 3);
}

/// Every cell of the working collection, at every step of the run, draws
/// its corners from the input points and the bounding-construct corners.
pub proof fn lemma_run_cells_from(
    init: Seq<Tetrahedron>,
    points: Seq<Vertex>,
    tolerance_sq: u64,
    st: Tetrahedron,
    t: Tetrahedron,
)
    requires
        bw_run(init, points, tolerance_sq).contains(t),
        init == seq![st],
    ensures
        cell_from(t, points, st),
    decreases points.len(),
{
    if points.len() == 0 {
        assert(t == st);
    } else {
        let prev = bw_run(init, points.drop_last(), tolerance_sq);
        let p = points.last();
        assert(points.contains(p));
        lemma_concat_contains(
            surviving_cells(prev, p),
            rebuilt_cells(boundary_faces(bad_faces(prev, p), tolerance_sq), p),
            t,
        );
        if surviving_cells(prev, p).contains(t) {
            lemma_surviving_origin(prev, p, t);
            lemma_run_cells_from(init, points.drop_last(), tolerance_sq, st, t);
            lemma_cell_from_widen(t, points, st);
        } else {
            let bnd = boundary_faces(bad_faces(prev, p), tolerance_sq);
            lemma_rebuilt_origin(bnd, p, t);
            let f = choose|f: Triangle|
                #[trigger] bnd.contains(f) && t == (Tetrahedron {
                    a: f.a,
                    b: f.b,
                    c: f.c,
                    d: p,
                });
            lemma_boundary_origin(bad_faces(prev, p), bad_faces(prev, p).len() as int,
                tolerance_sq, f);
            lemma_bad_faces_origin(prev, p, f);
            let t0 = choose|t0: Tetrahedron|
                prev.contains(t0) && #[trigger] cell_faces(t0).contains(f);
            lemma_run_cells_from(init, points.drop_last(), tolerance_sq, st, t0);
            lemma_cell_from_widen(t0, points, st);
            lemma_cell_faces_corners(t0, f, points, st);
        }
    }
}

/// Corner provenance over a prefix extends to the full sequence.
proof fn lemma_cell_from_widen(t: Tetrahedron, points: Seq<Vertex>, st: Tetrahedron)
    requires
        points.len() > 0,
        cell_from(t, points.drop_last(), st),
    ensures
        cell_from(t, points, st),
{
    if points.drop_last().contains(t.a) {
        lemma_drop_last_contains(points, t.a);
    }
    if points.drop_last().contains(t.b) {
        lemma_drop_last_contains(points, t.b);
    }
    if points.drop_last().contains(t.c) {
        lemma_drop_last_contains(points, t.c);
    }
    if points.drop_last().contains(t.d) {
        lemma_drop_last_contains(points, t.d);
    }
}

/// Every cell kept by the corner filter was in the collection and touches no
/// bounding corner.
pub proof fn lemma_interior_origin(
    cells: Seq<Tetrahedron>,
    st: Tetrahedron,
    tolerance_sq: u64,
    t: Tetrahedron,
)
    requires
        interior_cells(cells, st, tolerance_sq).contains(t),
    ensures
        cells.contains(t),
        !spec_touches_corner(t, st, tolerance_sq),
    decreases cells.len(),
{
    let rest = if spec_touches_corner(cells.last(), st, tolerance_sq) {
        Seq::<Tetrahedron>::empty()
    } else {
        seq![cells.last()]
    };
    lemma_concat_contains(interior_cells(cells.drop_last(), st, tolerance_sq), rest, t);
    if interior_cells(cells.drop_last(), st, tolerance_sq).contains(t) {
        lemma_interior_origin(cells.drop_last(), st, tolerance_sq, t);
        lemma_drop_last_contains(cells, t);
    } else {
        assert(t == cells.last());
        assert(cells.contains(cells.last()));
    }
}

/// A cell that survives the corner filter under a positive tolerance has no
/// bounding corner among its own corners, so its corners are input points.
proof fn lemma_interior_cell_points(
    t: Tetrahedron,
    points: Seq<Vertex>,
    st: Tetrahedron,
    tolerance_sq: u64,
)
    requires
        tolerance_sq >= 1,
        cell_from(t, points, st),
        !spec_touches_corner(t, st, tolerance_sq),
    ensures
        points.contains(t.a),
        points.contains(t.b),
        points.contains(t.c),
        points.contains(t.d),
{
    if t.a == st.a || t.a == st.b || t.a == st.c || t.a == st.d {
        lemma_dist_sq_self(t.a);
        assert(spec_almost_eq(t.a, t.a, tolerance_sq));
        assert(spec_contains_vertex(t, t.a, tolerance_sq));
    }
    if t.b == st.a || t.b == st.b || t.b == st.c || t.b == st.d {
        lemma_dist_sq_self(t.b);
        assert(spec_almost_eq(t.b, t.b, tolerance_sq));
        assert(spec_contains_vertex(t, t.b, tolerance_sq));
    }
    if t.c == st.a || t.c == st.b || t.c == st.c || t.c == st.d {
        lemma_dist_sq_self(t.c);
        assert(spec_almost_eq(t.c, t.c, tolerance_sq));
        assert(spec_contains_vertex(t, t.c, tolerance_sq));
    }
    if t.d == st.a || t.d == st.b || t.d == st.c || t.d == st.d {
        lemma_dist_sq_self(t.d);
        assert(spec_almost_eq(t.d, t.d, tolerance_sq));
        assert(spec_contains_vertex(t, t.d, tolerance_sq));
    }
}

/// The endpoints of each of a cell's six edges are corners of the cell.
pub proof fn lemma_cell_edges_corners(t: Tetrahedron, e: Edge)
    requires
        cell_edges(t).contains(e),
    ensures
        e.a == t.a || e.a == t.b || e.a == t.c || e.a == t.d,
        e.b == t.a || e.b == t.b || e.b == t.c || e.b == t.d,
{
    let i = choose|i: int| 0 <= i < cell_edges(t).len() && cell_edges(t)[i] == e;
    assert(i == 0 || i == 1 || i == 2 || i == 3 || i == 4 || i == 5);
}

/// Everything in a deduplicated fold came from the accumulator or the
/// folded sequence.
pub proof fn lemma_dedup_append_origin(acc: Seq<Edge>, s: Seq<Edge>, e: Edge)
    requires
        dedup_append(acc, s).contains(e),
    ensures
        acc.contains(e) || s.contains(e),
    decreases s.len(),
{
    if s.len() == 0 {
    } else {
        let prev = dedup_append(acc, s.drop_last());
        if prev.contains(e) {
            lemma_dedup_append_origin(acc, s.drop_last(), e);
            if s.drop_last().contains(e) {
                lemma_drop_last_contains(s, e);
            }
        } else {
            assert(dedup_insert(prev, s.last()) == prev.push(s.last()));
            assert(e == s.last());
            assert(s.contains(s.last()));
        }
    }
}

/// Every extracted edge is an edge of some cell of the collection.
pub proof fn lemma_cells_edges_origin(cells: Seq<Tetrahedron>, e: Edge)
    requires
        cells_edges(cells).contains(e),
    ensures
        exists|t: Tetrahedron|
            cells.contains(t) && #[trigger] cell_edges(t).contains(e),
    decreases cells.len(),
{
    lemma_concat_contains(cells_edges(cells.drop_last()), cell_edges(cells.last()), e);
    if cells_edges(cells.drop_last()).contains(e) {
        lemma_cells_edges_origin(cells.drop_last(), e);
        let t = choose|t: Tetrahedron|
            cells.drop_last().contains(t) && #[trigger] cell_edges(t).contains(e);
        lemma_drop_last_contains(cells, t);
        assert(cells.contains(t) && cell_edges(t).contains(e));
    } else {
        assert(cells.contains(cells.last()));
        assert(cells.contains(cells.last()) && cell_edges(cells.last()).contains(e));
    }
}

/// Every edge of the computed skeleton has both endpoints among the input
/// points; no bounding-construct corner ever appears.
pub proof fn lemma_endpoints_from_input(points: Seq<Vertex>, tolerance_sq: u64, e: Edge)
    requires
        tolerance_sq >= 1,
        spec_edge_skeleton(points, tolerance_sq).contains(e),
    ensures
        points.contains(e.a),
        points.contains(e.b),
{
    let st = spec_super_tetrahedron(points);
    let run = bw_run(seq![st], points, tolerance_sq);
    let interior = interior_cells(run, st, tolerance_sq);
    lemma_dedup_append_origin(Seq::empty(), cells_edges(interior), e);
    lemma_cells_edges_origin(interior, e);
    let t = choose|t: Tetrahedron|
        interior.contains(t) && #[trigger] cell_edges(t).contains(e);
    lemma_interior_origin(run, st, tolerance_sq, t);
    lemma_run_cells_from(seq![st], points, tolerance_sq, st, t);
    lemma_interior_cell_points(t, points, st, tolerance_sq);
    lemma_cell_edges_corners(t, e);
}

/// With a single input point the run holds only the bounding construct and
/// cells joining one of its faces to the point, so `t` has a bounding corner
/// among its own corners.
proof fn lemma_single_run_cell_touches(
    points: Seq<Vertex>,
    tolerance_sq: u64,
    st: Tetrahedron,
    t: Tetrahedron,
)
    requires
        points.len() == 1,
        tolerance_sq >= 1,
        bw_run(seq![st], points, tolerance_sq).contains(t),
    ensures
        spec_touches_corner(t, st, tolerance_sq),
{
    let p = points.last();
    let init: Seq<Tetrahedron> = seq![st];
    assert(points.drop_last().len() == 0);
    let prev = bw_run(init, points.drop_last(), tolerance_sq);
    assert(prev == init);
    lemma_concat_contains(
        surviving_cells(prev, p),
        rebuilt_cells(boundary_faces(bad_faces(prev, p), tolerance_sq), p),
        t,
    );
    if surviving_cells(prev, p).contains(t) {
        lemma_surviving_origin(prev, p, t);
        assert(t == st);
        lemma_dist_sq_self(st.a);
        assert(spec_almost_eq(st.a, t.a, tolerance_sq));
    } else {
        let bnd = boundary_faces(bad_faces(prev, p), tolerance_sq);
        lemma_rebuilt_origin(bnd, p, t);
        let f = choose|f: Triangle|
            #[trigger] bnd.contains(f) && t == (Tetrahedron { a: f.a, b: f.b, c: f.c, d: p });
        lemma_boundary_origin(bad_faces(prev, p), bad_faces(prev, p).len() as int, tolerance_sq,
            f);
        lemma_bad_faces_origin(prev, p, f);
        let t0 = choose|t0: Tetrahedron|
            prev.contains(t0) && #[trigger] cell_faces(t0).contains(f);
        assert(t0 == st);
        let i = choose|i: int| 0 <= i < cell_faces(st).len() && cell_faces(st)[i] == f;
        assert(i == 0 || i == 1 || i == 2 || i == 3);
        lemma_dist_sq_self(f.a);
        if i == 3 {
            assert(f.a == st.b);
            assert(spec_almost_eq(st.b, t.a, tolerance_sq));
        } else {
            assert(f.a == st.a);
            assert(spec_almost_eq(st.a, t.a, tolerance_sq));
        }
    }
}

/// A collection in which every cell touches a bounding corner filters down
/// to nothing.
proof fn lemma_all_touch_interior_empty(cells: Seq<Tetrahedron>, st: Tetrahedron, tolerance_sq: u64)
    requires
        forall|i: int|
            0 <= i < cells.len() ==> spec_touches_corner(#[trigger] cells[i], st, tolerance_sq),
    ensures
        interior_cells(cells, st, tolerance_sq) == Seq::<Tetrahedron>::empty(),
    decreases cells.len(),
{
    if cells.len() == 0 {
    } else {
        assert forall|i: int| 0 <= i < cells.drop_last().len() implies spec_touches_corner(
            #[trigger] cells.drop_last()[i],
            st,
            tolerance_sq,
        ) by {
            assert(cells.drop_last()[i] == cells[i]);
        }
        lemma_all_touch_interior_empty(cells.drop_last(), st, tolerance_sq);
        assert(spec_touches_corner(cells.last(), st, tolerance_sq));
        assert(interior_cells(cells, st, tolerance_sq) =~= Seq::<Tetrahedron>::empty());
    }
}

/// A single input point yields an edge set that is empty, not absent: every
/// final cell touches a bounding-construct corner, so the corner filter
/// removes them all.
pub proof fn lemma_single_point_empty(points: Seq<Vertex>, tolerance_sq: u64)
    requires
        points.len() == 1,
        tolerance_sq >= 1,
    ensures
        spec_edge_skeleton(points, tolerance_sq) == Seq::<Edge>::empty(),
{
    let st = spec_super_tetrahedron(points);
    let run = bw_run(seq![st], points, tolerance_sq);
    assert forall|i: int| 0 <= i < run.len() implies spec_touches_corner(
        #[trigger] run[i],
        st,
        tolerance_sq,
    ) by {
        assert(run.contains(run[i]));
        lemma_single_run_cell_touches(points, tolerance_sq, st, run[i]);
    }
    lemma_all_touch_interior_empty(run, st, tolerance_sq);
    assert(cells_edges(Seq::<Tetrahedron>::empty()) == Seq::<Edge>::empty());
    assert(dedup_append(Seq::<Edge>::empty(), Seq::<Edge>::empty()) == Seq::<Edge>::empty());
}

/// Two runs over the same input under the same tolerance produce the same
/// edge sequence: the result is a function of the input and the tolerance
/// alone.
pub proof fn lemma_deterministic(
    points: Seq<Vertex>,
    tolerance_sq: u64,
    r1: Seq<Edge>,
    r2: Seq<Edge>,
)
    requires
        r1 == spec_edge_skeleton(points, tolerance_sq),
        r2 == spec_edge_skeleton(points, tolerance_sq),
    ensures
        r1 == r2,
{
}

/// The canonical edge treats `(u, v)` and `(v, u)` as the same edge.
pub proof fn lemma_edge_symmetric(u: Vertex, v: Vertex)
    ensures
        spec_edge(u, v) == spec_edge(v, u),
{
    if !vertex_lt(u, v) && !vertex_lt(v, u) {
        assert(u.x == v.x && u.y == v.y && u.z == v.z);
        assert(u == (Vertex { x: v.x, y: v.y, z: v.z }));
    }
}

/// The vertex translated by `off`, componentwise.
pub open spec fn spec_translate(v: Vertex, off: Vertex) -> Vertex {
    Vertex { x: (v.x + off.x) as i32, y: (v.y + off.y) as i32, z: (v.z + off.z) as i32 }
}

/// Translating both vertices by the same offset leaves the fuzzy comparator
/// unchanged: the squared distance depends only on coordinate differences.
pub proof fn lemma_almost_eq_translation(u: Vertex, v: Vertex, off: Vertex, tolerance_sq: u64)
    requires
        in_coord_range(u),
        in_coord_range(v),
        in_coord_range(off),
    ensures
        spec_almost_eq(spec_translate(u, off), spec_translate(v, off), tolerance_sq)
            == spec_almost_eq(u, v, tolerance_sq),
{
    let ut = spec_translate(u, off);
    let vt = spec_translate(v, off);
    assert(ut.x == u.x + off.x && ut.y == u.y + off.y && ut.z == u.z + off.z);
    assert(vt.x == v.x + off.x && vt.y == v.y + off.y && vt.z == v.z + off.z);
    assert(dist_sq(ut, vt) == dist_sq(u, v));
}

/// Every vertex of `s` translated by `off`, in order.
pub open spec fn spec_translate_all(s: Seq<Vertex>, off: Vertex) -> Seq<Vertex> {
    s.map(|i: int, v: Vertex| spec_translate(v, off))
}

/// The per-axis extremes of a translated vertex sequence shift by the
/// offset.
proof fn lemma_extremes_translation(s: Seq<Vertex>, off: Vertex)
    requires
        s.len() > 0,
        forall|i: int| 0 <= i < s.len() ==> in_coord_range(#[trigger] s[i]),
        in_coord_range(off),
    ensures
        x_min_of(spec_translate_all(s, off)) == x_min_of(s) + off.x,
        x_max_of(spec_translate_all(s, off)) == x_max_of(s) + off.x,
        y_min_of(spec_translate_all(s, off)) == y_min_of(s) + off.y,
        y_max_of(spec_translate_all(s, off)) == y_max_of(s) + off.y,
        z_min_of(spec_translate_all(s, off)) == z_min_of(s) + off.z,
        z_max_of(spec_translate_all(s, off)) == z_max_of(s) + off.z,
    decreases s.len(),
{
    let t = spec_translate_all(s, off);
    assert(t[0] == spec_translate(s[0], off));
    if s.len() == 1 {
    } else {
        assert(t.drop_last() =~= spec_translate_all(s.drop_last(), off));
        assert forall|i: int| 0 <= i < s.drop_last().len() implies in_coord_range(
            #[trigger] s.drop_last()[i],
        ) by {
            assert(s.drop_last()[i] == s[i]);
        }
        lemma_extremes_translation(s.drop_last(), off);
        assert(t.last() == spec_translate(s.last(), off));
        assert(s.last() == s[s.len() - 1]);
    }
}

/// The bounding construct translates with the points: building it from the
/// translated sequence is translating each of its corners.
pub proof fn lemma_super_tetrahedron_translation(s: Seq<Vertex>, off: Vertex)
    requires
        s.len() > 0,
        forall|i: int| 0 <= i < s.len() ==> in_coord_range(#[trigger] s[i]),
        in_coord_range(off),
    ensures
        spec_super_tetrahedron(spec_translate_all(s, off)) == (Tetrahedron {
            a: spec_translate(spec_super_tetrahedron(s).a, off),
            b: spec_translate(spec_super_tetrahedron(s).b, off),
            c: spec_translate(spec_super_tetrahedron(s).c, off),
            d: spec_translate(spec_super_tetrahedron(s).d, off),
        }),
{
    lemma_extremes_translation(s, off);
    lemma_extremes_in_range(s);
    assert(spec_super_extent(spec_translate_all(s, off)) == spec_super_extent(s));
}

/// The extremes of an in-range vertex sequence are in range themselves.
pub proof fn lemma_extremes_in_range(s: Seq<Vertex>)
    requires
        s.len() > 0,
        forall|i: int| 0 <= i < s.len() ==> in_coord_range(#[trigger] s[i]),
    ensures
        -COORD_BOUND <= x_min_of(s) <= x_max_of(s) <= COORD_BOUND,
        -COORD_BOUND <= y_min_of(s) <= y_max_of(s) <= COORD_BOUND,
        -COORD_BOUND <= z_min_of(s) <= z_max_of(s) <= COORD_BOUND,
    decreases s.len(),
{
    if s.len() == 1 {
    } else {
        assert forall|i: int| 0 <= i < s.drop_last().len() implies in_coord_range(
            #[trigger] s.drop_last()[i],
        ) by {
            assert(s.drop_last()[i] == s[i]);
        }
        lemma_extremes_in_range(s.drop_last());
        assert(s.last() == s[s.len() - 1]);
    }
}

/// No input point is a bounding-construct corner: each corner has a
/// coordinate strictly outside the bounding box of the input.
proof fn lemma_corners_not_input(points: Seq<Vertex>, i: int)
    requires
        0 <= i < points.len(),
        forall|k: int| 0 <= k < points.len() ==> in_coord_range(#[trigger] points[k]),
    ensures
        points[i] != spec_super_tetrahedron(points).a,
        points[i] != spec_super_tetrahedron(points).b,
        points[i] != spec_super_tetrahedron(points).c,
        points[i] != spec_super_tetrahedron(points).d,
{
    lemma_extremes_in_range(points);
    crate::bounds::lemma_x_min_le(points, i);
    crate::bounds::lemma_y_min_le(points, i);
    let st = spec_super_tetrahedron(points);
    assert(st.a.x == x_min_of(points) - 1);
    assert(st.b.y == y_min_of(points) - 1);
    assert(st.c.x == x_min_of(points) - 1);
    assert(st.d.x == x_min_of(points) - 1);
}

/// No bounding-construct corner ever appears in the skeleton: every edge
/// endpoint differs from all four corners.
pub proof fn lemma_no_corner_in_skeleton(points: Seq<Vertex>, tolerance_sq: u64, e: Edge)
    requires
        tolerance_sq >= 1,
        forall|k: int| 0 <= k < points.len() ==> in_coord_range(#[trigger] points[k]),
        spec_edge_skeleton(points, tolerance_sq).contains(e),
    ensures
        e.a != spec_super_tetrahedron(points).a && e.b != spec_super_tetrahedron(points).a,
        e.a != spec_super_tetrahedron(points).b && e.b != spec_super_tetrahedron(points).b,
        e.a != spec_super_tetrahedron(points).c && e.b != spec_super_tetrahedron(points).c,
        e.a != spec_super_tetrahedron(points).d && e.b != spec_super_tetrahedron(points).d,
{
    if points.len() == 0 {
        let st = spec_super_tetrahedron(points);
        let run = bw_run(seq![st], points, tolerance_sq);
        assert(run == seq![st]);
        lemma_dist_sq_self(st.a);
        assert(spec_almost_eq(st.a, st.a, tolerance_sq));
        assert(spec_touches_corner(st, st, tolerance_sq));
        assert(run.last() == st);
        assert(run.drop_last() =~= Seq::<Tetrahedron>::empty());
        assert(interior_cells(run.drop_last(), st, tolerance_sq) == Seq::<Tetrahedron>::empty());
        assert(interior_cells(run, st, tolerance_sq) == interior_cells(
            run.drop_last(),
            st,
            tolerance_sq,
        ) + Seq::<Tetrahedron>::empty());
        assert(Seq::<Tetrahedron>::empty() + Seq::<Tetrahedron>::empty()
            =~= Seq::<Tetrahedron>::empty());
        assert(cells_edges(Seq::<Tetrahedron>::empty()) == Seq::<Edge>::empty());
        assert(dedup_append(Seq::<Edge>::empty(), Seq::<Edge>::empty()) == Seq::<Edge>::empty());
        assert(false);
    }
    lemma_endpoints_from_input(points, tolerance_sq, e);
    let ia = choose|ia: int| 0 <= ia < points.len() && points[ia] == e.a;
    let ib = choose|ib: int| 0 <= ib < points.len() && points[ib] == e.b;
    lemma_corners_not_input(points, ia);
    lemma_corners_not_input(points, ib);
}

} // verus!
