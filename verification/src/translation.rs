//! Translation equivariance: translating every input point translates the
//! computed skeleton edge for edge, provided the in-sphere predicate is
//! itself translation-invariant.  The predicate is outside code, so its
//! invariance — a property of the exact determinant, which reads only
//! coordinate differences — stands as a hypothesis here.

use vstd::prelude::*;

verus! {

use crate::bounds::spec_super_tetrahedron;
use crate::geometry::Edge;
use crate::geometry::Tetrahedron;
use crate::geometry::Triangle;
use crate::geometry::Vertex;
use crate::geometry::dist_sq;
use crate::geometry::in_coord_range;
use crate::geometry::spec_almost_eq;
use crate::geometry::spec_contains_vertex;
use crate::geometry::spec_edge;
use crate::geometry::spec_tri_almost_eq;
use crate::geometry::vertex_lt;
use crate::driver::bad_faces;
use crate::driver::bw_run;
use crate::driver::cell_edges;
use crate::driver::cells_edges;
use crate::driver::dedup_append;
use crate::driver::interior_cells;
use crate::driver::spec_edge_skeleton;
use crate::driver::spec_touches_corner;
use crate::driver::boundary_faces;
use crate::driver::boundary_upto;
use crate::driver::bw_step;
use crate::driver::cell_faces;
use crate::driver::face_matches_other;
use crate::driver::rebuilt_cells;
use crate::driver::spec_cell_bad;
use crate::driver::surviving_cells;
use crate::laws::cell_from;
use crate::laws::lemma_bad_faces_origin;
use crate::laws::lemma_cell_edges_corners;
use crate::laws::lemma_cells_edges_origin;
use crate::laws::lemma_dedup_append_origin;
use crate::laws::lemma_interior_origin;
use crate::laws::lemma_run_cells_from;
use crate::laws::lemma_super_tetrahedron_translation;
use crate::laws::spec_translate_all;
use crate::laws::lemma_extremes_in_range;
use crate::laws::spec_translate;
use crate::predicate::spec_in_sphere;

/// The range every corner of a bounding construct stays within: five times
/// the coordinate bound covers the farthest pushed-out corner, and one more
/// bound covers a translation offset without overflow.
pub open spec fn in_wide_range(v: Vertex) -> bool {
    &&& -1342177280 <= v.x <= 1342177280
    &&& -1342177280 <= v.y <= 1342177280
    &&& -1342177280 <= v.z <= 1342177280
}

/// Whether every corner of the cell is in the wide range.
pub open spec fn cell_wide(t: Tetrahedron) -> bool {
    &&& in_wide_range(t.a)
    &&& in_wide_range(t.b)
    &&& in_wide_range(t.c)
    &&& in_wide_range(t.d)
}

/// Whether every cell of the collection is in the wide range.
pub open spec fn cells_wide(cs: Seq<Tetrahedron>) -> bool {
    forall|i: int| 0 <= i < cs.len() ==> cell_wide(#[trigger] cs[i])
}

/// Whether every corner of the face is in the wide range.
pub open spec fn face_wide(f: Triangle) -> bool {
    &&& in_wide_range(f.a)
    &&& in_wide_range(f.b)
    &&& in_wide_range(f.c)
}

/// Whether every face of the sequence is in the wide range.
pub open spec fn faces_wide(fs: Seq<Triangle>) -> bool {
    forall|i: int| 0 <= i < fs.len() ==> face_wide(#[trigger] fs[i])
}

/// The cell translated corner for corner.
pub open spec fn spec_translate_cell(t: Tetrahedron, off: Vertex) -> Tetrahedron {
    Tetrahedron {
        a: spec_translate(t.a, off),
        b: spec_translate(t.b, off),
        c: spec_translate(t.c, off),
        d: spec_translate(t.d, off),
    }
}

/// The face translated corner for corner.
pub open spec fn spec_translate_face(f: Triangle, off: Vertex) -> Triangle {
    Triangle { a: spec_translate(f.a, off), b: spec_translate(f.b, off), c: spec_translate(f.c, off) }
}

/// The edge translated endpoint for endpoint.
pub open spec fn spec_translate_edge(e: Edge, off: Vertex) -> Edge {
    Edge { a: spec_translate(e.a, off), b: spec_translate(e.b, off) }
}

/// Every cell of `cs` translated, in order.
pub open spec fn spec_translate_cells(cs: Seq<Tetrahedron>, off: Vertex) -> Seq<Tetrahedron> {
    cs.map(|i: int, t: Tetrahedron| spec_translate_cell(t, off))
}

/// Every face of `fs` translated, in order.
pub open spec fn spec_translate_faces(fs: Seq<Triangle>, off: Vertex) -> Seq<Triangle> {
    fs.map(|i: int, f: Triangle| spec_translate_face(f, off))
}

/// Every edge of `s` translated, in order.
pub open spec fn spec_translate_edges(s: Seq<Edge>, off: Vertex) -> Seq<Edge> {
    s.map(|i: int, e: Edge| spec_translate_edge(e, off))
}

/// The hypothesis on the outside predicate: the in-sphere result does not
/// change when all five points are translated by `off`.
pub open spec fn predicate_translation_invariant(off: Vertex) -> bool {
    forall|a: Vertex, b: Vertex, c: Vertex, d: Vertex, q: Vertex|
        #[trigger] spec_in_sphere(
            spec_translate(a, off),
            spec_translate(b, off),
            spec_translate(c, off),
            spec_translate(d, off),
            spec_translate(q, off),
        ) == spec_in_sphere(a, b, c, d, q)
}

/// Fuzzy equality is unchanged by translating both vertices: the squared
/// distance reads only coordinate differences, and in the wide range the
/// translated coordinates do not wrap.
proof fn lemma_almost_eq_translate(u: Vertex, v: Vertex, off: Vertex, tolerance_sq: u64)
    requires
        in_wide_range(u),
        in_wide_range(v),
        in_coord_range(off),
    ensures
        spec_almost_eq(spec_translate(u, off), spec_translate(v, off), tolerance_sq)
            == spec_almost_eq(u, v, tolerance_sq),
{
    let ut = spec_translate(u, off);
    let vt = spec_translate(v, off);
    assert(ut.x == u.x + off.x && ut.y == u.y + off.y && ut.z == u.z + off.z);
    assert(vt.x == v.x + off.x && vt.y == v.y + off.y && vt.z == v.z + off.z);
    assert(dist_sq(ut, vt) == dist_sq(u, v));
}

/// Fuzzy face matching is unchanged by translating both faces.
proof fn lemma_tri_almost_eq_translate(s: Triangle, t: Triangle, off: Vertex, tolerance_sq: u64)
    requires
        face_wide(s),
        face_wide(t),
        in_coord_range(off),
    ensures
        spec_tri_almost_eq(
            spec_translate_face(s, off),
            spec_translate_face(t, off),
            tolerance_sq,
        ) == spec_tri_almost_eq(s, t, tolerance_sq),
{
    lemma_almost_eq_translate(s.a, t.a, off, tolerance_sq);
    lemma_almost_eq_translate(s.a, t.b, off, tolerance_sq);
    lemma_almost_eq_translate(s.a, t.c, off, tolerance_sq);
    lemma_almost_eq_translate(s.b, t.a, off, tolerance_sq);
    lemma_almost_eq_translate(s.b, t.b, off, tolerance_sq);
    lemma_almost_eq_translate(s.b, t.c, off, tolerance_sq);
    lemma_almost_eq_translate(s.c, t.a, off, tolerance_sq);
    lemma_almost_eq_translate(s.c, t.b, off, tolerance_sq);
    lemma_almost_eq_translate(s.c, t.c, off, tolerance_sq);
}

/// Fuzzy corner containment is unchanged by translating the cell and the
/// vertex together.
proof fn lemma_contains_vertex_translate(t: Tetrahedron, v: Vertex, off: Vertex, tolerance_sq: u64)
    requires
        cell_wide(t),
        in_wide_range(v),
        in_coord_range(off),
    ensures
        spec_contains_vertex(
            spec_translate_cell(t, off),
            spec_translate(v, off),
            tolerance_sq,
        ) == spec_contains_vertex(t, v, tolerance_sq),
{
    lemma_almost_eq_translate(v, t.a, off, tolerance_sq);
    lemma_almost_eq_translate(v, t.b, off, tolerance_sq);
    lemma_almost_eq_translate(v, t.c, off, tolerance_sq);
    lemma_almost_eq_translate(v, t.d, off, tolerance_sq);
}

/// Lexicographic vertex order is unchanged by translating both vertices.
proof fn lemma_vertex_lt_translate(u: Vertex, v: Vertex, off: Vertex)
    requires
        in_wide_range(u),
        in_wide_range(v),
        in_coord_range(off),
    ensures
        vertex_lt(spec_translate(u, off), spec_translate(v, off)) == vertex_lt(u, v),
{
}

/// The canonical edge of translated endpoints is the translated canonical
/// edge.
proof fn lemma_edge_translate(u: Vertex, v: Vertex, off: Vertex)
    requires
        in_wide_range(u),
        in_wide_range(v),
        in_coord_range(off),
    ensures
        spec_edge(spec_translate(u, off), spec_translate(v, off)) == spec_translate_edge(
            spec_edge(u, v),
            off,
        ),
{
    lemma_vertex_lt_translate(u, v, off);
    lemma_vertex_lt_translate(v, u, off);
}

/// Translation is injective in the wide range.
proof fn lemma_translate_injective(u: Vertex, v: Vertex, off: Vertex)
    requires
        in_wide_range(u),
        in_wide_range(v),
        in_coord_range(off),
    ensures
        (spec_translate(u, off) == spec_translate(v, off)) == (u == v),
{
    if spec_translate(u, off) == spec_translate(v, off) {
        assert(u.x == v.x && u.y == v.y && u.z == v.z);
        assert(u == (Vertex { x: v.x, y: v.y, z: v.z }));
    }
}

/// An in-range vertex is in the wide range.
proof fn lemma_range_wide(v: Vertex)
    requires
        in_coord_range(v),
    ensures
        in_wide_range(v),
{
}

/// The bounding construct of an in-range input is in the wide range.
pub proof fn lemma_super_wide(points: Seq<Vertex>)
    requires
        points.len() > 0,
        forall|k: int| 0 <= k < points.len() ==> in_coord_range(#[trigger] points[k]),
    ensures
        cell_wide(spec_super_tetrahedron(points)),
{
    lemma_extremes_in_range(points);
}

/// A cell drawing its corners from in-range inputs and a wide bounding
/// construct is in the wide range.
proof fn lemma_cell_from_wide(t: Tetrahedron, points: Seq<Vertex>, st: Tetrahedron)
    requires
        cell_from(t, points, st),
        forall|k: int| 0 <= k < points.len() ==> in_coord_range(#[trigger] points[k]),
        cell_wide(st),
    ensures
        cell_wide(t),
{
    if points.contains(t.a) {
        let i = choose|i: int| 0 <= i < points.len() && points[i] == t.a;
        lemma_range_wide(points[i]);
    }
    if points.contains(t.b) {
        let i = choose|i: int| 0 <= i < points.len() && points[i] == t.b;
        lemma_range_wide(points[i]);
    }
    if points.contains(t.c) {
        let i = choose|i: int| 0 <= i < points.len() && points[i] == t.c;
        lemma_range_wide(points[i]);
    }
    if points.contains(t.d) {
        let i = choose|i: int| 0 <= i < points.len() && points[i] == t.d;
        lemma_range_wide(points[i]);
    }
}
/// Translating a concatenation of faces is concatenating the translations.
proof fn lemma_faces_concat_translate(aa: Seq<Triangle>, bb: Seq<Triangle>, off: Vertex)
    ensures
        spec_translate_faces(aa + bb, off) =~= spec_translate_faces(aa, off)
            + spec_translate_faces(bb, off),
{
}

/// Translating a concatenation of cells is concatenating the translations.
proof fn lemma_cells_concat_translate(aa: Seq<Tetrahedron>, bb: Seq<Tetrahedron>, off: Vertex)
    ensures
        spec_translate_cells(aa + bb, off) =~= spec_translate_cells(aa, off)
            + spec_translate_cells(bb, off),
{
}

/// Translating a concatenation of edges is concatenating the translations.
proof fn lemma_edges_concat_translate(aa: Seq<Edge>, bb: Seq<Edge>, off: Vertex)
    ensures
        spec_translate_edges(aa + bb, off) =~= spec_translate_edges(aa, off)
            + spec_translate_edges(bb, off),
{
}

/// The candidate faces of a translated step are the translated candidate
/// faces, given the predicate hypothesis.
proof fn lemma_bad_faces_translate(cs: Seq<Tetrahedron>, p: Vertex, off: Vertex)
    requires
        predicate_translation_invariant(off),
    ensures
        spec_translate_faces(bad_faces(cs, p), off) =~= bad_faces(
            spec_translate_cells(cs, off),
            spec_translate(p, off),
        ),
    decreases cs.len(),
{
    let tcs = spec_translate_cells(cs, off);
    let tp = spec_translate(p, off);
    if cs.len() == 0 {
        assert(tcs.len() == 0);
    } else {
        lemma_bad_faces_translate(cs.drop_last(), p, off);
        assert(tcs.drop_last() =~= spec_translate_cells(cs.drop_last(), off));
        assert(tcs.last() == spec_translate_cell(cs.last(), off));
        let t = cs.last();
        assert(spec_in_sphere(
            spec_translate(t.a, off),
            spec_translate(t.b, off),
            spec_translate(t.c, off),
            spec_translate(t.d, off),
            spec_translate(p, off),
        ) == spec_in_sphere(t.a, t.b, t.c, t.d, p));
        assert(spec_cell_bad(tcs.last(), tp) == spec_cell_bad(t, p));
        assert(cell_faces(spec_translate_cell(t, off)) =~= spec_translate_faces(
            cell_faces(t),
            off,
        ));
        let rest = if spec_cell_bad(t, p) {
            cell_faces(t)
        } else {
            Seq::<Triangle>::empty()
        };
        lemma_faces_concat_translate(bad_faces(cs.drop_last(), p), rest, off);
        assert(spec_translate_faces(bad_faces(cs, p), off) =~= bad_faces(tcs, tp));
    }
}

/// The survivors of a translated step are the translated survivors, given
/// the predicate hypothesis.
proof fn lemma_surviving_translate(cs: Seq<Tetrahedron>, p: Vertex, off: Vertex)
    requires
        predicate_translation_invariant(off),
    ensures
        spec_translate_cells(surviving_cells(cs, p), off) =~= surviving_cells(
            spec_translate_cells(cs, off),
            spec_translate(p, off),
        ),
    decreases cs.len(),
{
    let tcs = spec_translate_cells(cs, off);
    let tp = spec_translate(p, off);
    if cs.len() == 0 {
        assert(tcs.len() == 0);
    } else {
        lemma_surviving_translate(cs.drop_last(), p, off);
        assert(tcs.drop_last() =~= spec_translate_cells(cs.drop_last(), off));
        assert(tcs.last() == spec_translate_cell(cs.last(), off));
        let t = cs.last();
        assert(spec_in_sphere(
            spec_translate(t.a, off),
            spec_translate(t.b, off),
            spec_translate(t.c, off),
            spec_translate(t.d, off),
            spec_translate(p, off),
        ) == spec_in_sphere(t.a, t.b, t.c, t.d, p));
        assert(spec_cell_bad(tcs.last(), tp) == spec_cell_bad(t, p));
        let rest = if spec_cell_bad(t, p) {
            Seq::<Tetrahedron>::empty()
        } else {
            seq![t]
        };
        lemma_cells_concat_translate(surviving_cells(cs.drop_last(), p), rest, off);
        assert(spec_translate_cells(surviving_cells(cs, p), off) =~= surviving_cells(tcs, tp));
    }
}

/// Candidate faces of wide cells are wide.
proof fn lemma_bad_faces_wide(cs: Seq<Tetrahedron>, p: Vertex)
    requires
        cells_wide(cs),
    ensures
        faces_wide(bad_faces(cs, p)),
{
    let fs = bad_faces(cs, p);
    assert forall|i: int| 0 <= i < fs.len() implies face_wide(#[trigger] fs[i]) by {
        assert(fs.contains(fs[i]));
        lemma_bad_faces_origin(cs, p, fs[i]);
        let t = choose|t: Tetrahedron| cs.contains(t) && #[trigger] cell_faces(t).contains(fs[i]);
        let k = choose|k: int| 0 <= k < cs.len() && cs[k] == t;
        assert(cell_wide(cs[k]));
        let fi = choose|fi: int| 0 <= fi < cell_faces(t).len() && cell_faces(t)[fi] == fs[i];
        assert(fi == 0 || fi == 1 || fi == 2 || fi == 3);
    }
}

/// Whether a face is fuzzy-matched by another candidate is unchanged under
/// translation of all candidates.
proof fn lemma_matches_other_translate(fs: Seq<Triangle>, i: int, off: Vertex, tolerance_sq: u64)
    requires
        faces_wide(fs),
        in_coord_range(off),
        0 <= i < fs.len(),
    ensures
        face_matches_other(spec_translate_faces(fs, off), i, tolerance_sq)
            == face_matches_other(fs, i, tolerance_sq),
{
    let tfs = spec_translate_faces(fs, off);
    if face_matches_other(fs, i, tolerance_sq) {
        let j = choose|j: int|
            0 <= j < fs.len() && j != i && spec_tri_almost_eq(fs[i], #[trigger] fs[j],
                tolerance_sq);
        lemma_tri_almost_eq_translate(fs[i], fs[j], off, tolerance_sq);
        assert(tfs[j] == spec_translate_face(fs[j], off));
        assert(spec_tri_almost_eq(tfs[i], tfs[j], tolerance_sq));
    }
    if face_matches_other(tfs, i, tolerance_sq) {
        let j = choose|j: int|
            0 <= j < tfs.len() && j != i && spec_tri_almost_eq(tfs[i], #[trigger] tfs[j],
                tolerance_sq);
        lemma_tri_almost_eq_translate(fs[i], fs[j], off, tolerance_sq);
        assert(spec_tri_almost_eq(fs[i], fs[j], tolerance_sq));
    }
}

/// The cavity boundary of translated candidates is the translated cavity
/// boundary.
proof fn lemma_boundary_translate(fs: Seq<Triangle>, n: int, off: Vertex, tolerance_sq: u64)
    requires
        faces_wide(fs),
        in_coord_range(off),
        n <= fs.len(),
    ensures
        spec_translate_faces(boundary_upto(fs, n, tolerance_sq), off) =~= boundary_upto(
            spec_translate_faces(fs, off),
            n,
            tolerance_sq,
        ),
    decreases n,
{
    let tfs = spec_translate_faces(fs, off);
    if n <= 0 {
    } else {
        lemma_boundary_translate(fs, n - 1, off, tolerance_sq);
        lemma_matches_other_translate(fs, n - 1, off, tolerance_sq);
        assert(tfs[n - 1] == spec_translate_face(fs[n - 1], off));
        let rest = if face_matches_other(fs, n - 1, tolerance_sq) {
            Seq::<Triangle>::empty()
        } else {
            seq![fs[n - 1]]
        };
        lemma_faces_concat_translate(boundary_upto(fs, n - 1, tolerance_sq), rest, off);
        assert(spec_translate_faces(boundary_upto(fs, n, tolerance_sq), off) =~= boundary_upto(
            tfs,
            n,
            tolerance_sq,
        ));
    }
}

/// The rebuilt cells over translated boundary faces are the translated
/// rebuilt cells.
proof fn lemma_rebuilt_translate(fs: Seq<Triangle>, p: Vertex, off: Vertex)
    ensures
        spec_translate_cells(rebuilt_cells(fs, p), off) =~= rebuilt_cells(
            spec_translate_faces(fs, off),
            spec_translate(p, off),
        ),
    decreases fs.len(),
{
    let tfs = spec_translate_faces(fs, off);
    if fs.len() == 0 {
        assert(tfs.len() == 0);
    } else {
        lemma_rebuilt_translate(fs.drop_last(), p, off);
        assert(tfs.drop_last() =~= spec_translate_faces(fs.drop_last(), off));
        assert(tfs.last() == spec_translate_face(fs.last(), off));
        let f = fs.last();
        lemma_cells_concat_translate(
            rebuilt_cells(fs.drop_last(), p),
            seq![Tetrahedron { a: f.a, b: f.b, c: f.c, d: p }],
            off,
        );
        assert(spec_translate_cells(rebuilt_cells(fs, p), off) =~= rebuilt_cells(
            tfs,
            spec_translate(p, off),
        ));
    }
}

/// One insertion step over translated cells and a translated vertex is the
/// translated step.
proof fn lemma_step_translate(cs: Seq<Tetrahedron>, p: Vertex, off: Vertex, tolerance_sq: u64)
    requires
        cells_wide(cs),
        in_coord_range(off),
        predicate_translation_invariant(off),
    ensures
        spec_translate_cells(bw_step(cs, p, tolerance_sq), off) =~= bw_step(
            spec_translate_cells(cs, off),
            spec_translate(p, off),
            tolerance_sq,
        ),
{
    let fs = bad_faces(cs, p);
    lemma_bad_faces_translate(cs, p, off);
    lemma_bad_faces_wide(cs, p);
    lemma_surviving_translate(cs, p, off);
    lemma_boundary_translate(fs, fs.len() as int, off, tolerance_sq);
    lemma_rebuilt_translate(boundary_faces(fs, tolerance_sq), p, off);
    lemma_cells_concat_translate(
        surviving_cells(cs, p),
        rebuilt_cells(boundary_faces(fs, tolerance_sq), p),
        off,
    );
    assert(spec_translate_faces(fs, off).len() == fs.len());
}
/// Whether both endpoints of the edge are in the wide range.
pub open spec fn edge_wide(e: Edge) -> bool {
    &&& in_wide_range(e.a)
    &&& in_wide_range(e.b)
}

/// Whether every edge of the sequence is in the wide range.
pub open spec fn edges_wide(s: Seq<Edge>) -> bool {
    forall|i: int| 0 <= i < s.len() ==> edge_wide(#[trigger] s[i])
}

/// The run over translated points from the translated seed is the
/// translated run.
proof fn lemma_run_translate(st: Tetrahedron, pts: Seq<Vertex>, off: Vertex, tolerance_sq: u64)
    requires
        cell_wide(st),
        forall|k: int| 0 <= k < pts.len() ==> in_coord_range(#[trigger] pts[k]),
        in_coord_range(off),
        predicate_translation_invariant(off),
    ensures
        spec_translate_cells(bw_run(seq![st], pts, tolerance_sq), off) =~= bw_run(
            seq![spec_translate_cell(st, off)],
            spec_translate_all(pts, off),
            tolerance_sq,
        ),
    decreases pts.len(),
{
    let tst = spec_translate_cell(st, off);
    let tpts = spec_translate_all(pts, off);
    if pts.len() == 0 {
        assert(tpts.len() == 0);
        assert(spec_translate_cells(seq![st], off) =~= seq![tst]);
    } else {
        assert forall|k: int| 0 <= k < pts.drop_last().len() implies in_coord_range(
            #[trigger] pts.drop_last()[k],
        ) by {
            assert(pts.drop_last()[k] == pts[k]);
        }
        lemma_run_translate(st, pts.drop_last(), off, tolerance_sq);
        assert(tpts.drop_last() =~= spec_translate_all(pts.drop_last(), off));
        assert(tpts.last() == spec_translate(pts.last(), off));
        let prev = bw_run(seq![st], pts.drop_last(), tolerance_sq);
        assert forall|i: int| 0 <= i < prev.len() implies cell_wide(#[trigger] prev[i]) by {
            assert(prev.contains(prev[i]));
            lemma_run_cells_from(seq![st], pts.drop_last(), tolerance_sq, st, prev[i]);
            lemma_cell_from_wide(prev[i], pts.drop_last(), st);
        }
        lemma_step_translate(prev, pts.last(), off, tolerance_sq);
    }
}

/// The corner filter over translated cells and a translated construct is
/// the translated filter.
proof fn lemma_interior_translate(
    cs: Seq<Tetrahedron>,
    st: Tetrahedron,
    off: Vertex,
    tolerance_sq: u64,
)
    requires
        cells_wide(cs),
        cell_wide(st),
        in_coord_range(off),
    ensures
        spec_translate_cells(interior_cells(cs, st, tolerance_sq), off) =~= interior_cells(
            spec_translate_cells(cs, off),
            spec_translate_cell(st, off),
            tolerance_sq,
        ),
    decreases cs.len(),
{
    let tcs = spec_translate_cells(cs, off);
    let tst = spec_translate_cell(st, off);
    if cs.len() == 0 {
        assert(tcs.len() == 0);
    } else {
        assert forall|i: int| 0 <= i < cs.drop_last().len() implies cell_wide(
            #[trigger] cs.drop_last()[i],
        ) by {
            assert(cs.drop_last()[i] == cs[i]);
        }
        lemma_interior_translate(cs.drop_last(), st, off, tolerance_sq);
        assert(tcs.drop_last() =~= spec_translate_cells(cs.drop_last(), off));
        assert(tcs.last() == spec_translate_cell(cs.last(), off));
        let t = cs.last();
        assert(cell_wide(t)) by {
            assert(cs[cs.len() - 1] == t);
        }
        lemma_contains_vertex_translate(t, st.a, off, tolerance_sq);
        lemma_contains_vertex_translate(t, st.b, off, tolerance_sq);
        lemma_contains_vertex_translate(t, st.c, off, tolerance_sq);
        lemma_contains_vertex_translate(t, st.d, off, tolerance_sq);
        assert(spec_touches_corner(spec_translate_cell(t, off), tst, tolerance_sq)
            == spec_touches_corner(t, st, tolerance_sq));
        let rest = if spec_touches_corner(t, st, tolerance_sq) {
            Seq::<Tetrahedron>::empty()
        } else {
            seq![t]
        };
        lemma_cells_concat_translate(interior_cells(cs.drop_last(), st, tolerance_sq), rest, off);
        assert(spec_translate_cells(interior_cells(cs, st, tolerance_sq), off)
            =~= interior_cells(tcs, tst, tolerance_sq));
    }
}

/// The six edges of a translated cell are the translated edges.
proof fn lemma_cell_edges_translate(t: Tetrahedron, off: Vertex)
    requires
        cell_wide(t),
        in_coord_range(off),
    ensures
        spec_translate_edges(cell_edges(t), off) =~= cell_edges(spec_translate_cell(t, off)),
{
    lemma_edge_translate(t.a, t.b, off);
    lemma_edge_translate(t.b, t.c, off);
    lemma_edge_translate(t.c, t.a, off);
    lemma_edge_translate(t.d, t.a, off);
    lemma_edge_translate(t.d, t.b, off);
    lemma_edge_translate(t.d, t.c, off);
}

/// The flattened edges of translated cells are the translated flattened
/// edges.
proof fn lemma_cells_edges_translate(cs: Seq<Tetrahedron>, off: Vertex)
    requires
        cells_wide(cs),
        in_coord_range(off),
    ensures
        spec_translate_edges(cells_edges(cs), off) =~= cells_edges(
            spec_translate_cells(cs, off),
        ),
    decreases cs.len(),
{
    let tcs = spec_translate_cells(cs, off);
    if cs.len() == 0 {
        assert(tcs.len() == 0);
    } else {
        assert forall|i: int| 0 <= i < cs.drop_last().len() implies cell_wide(
            #[trigger] cs.drop_last()[i],
        ) by {
            assert(cs.drop_last()[i] == cs[i]);
        }
        lemma_cells_edges_translate(cs.drop_last(), off);
        assert(tcs.drop_last() =~= spec_translate_cells(cs.drop_last(), off));
        assert(tcs.last() == spec_translate_cell(cs.last(), off));
        assert(cell_wide(cs.last())) by {
            assert(cs[cs.len() - 1] == cs.last());
        }
        lemma_cell_edges_translate(cs.last(), off);
        lemma_edges_concat_translate(cells_edges(cs.drop_last()), cell_edges(cs.last()), off);
        assert(spec_translate_edges(cells_edges(cs), off) =~= cells_edges(tcs));
    }
}

/// Membership among translated edges mirrors membership among the
/// untranslated ones: translation is injective in the wide range.
proof fn lemma_contains_translate(s: Seq<Edge>, e: Edge, off: Vertex)
    requires
        edges_wide(s),
        edge_wide(e),
        in_coord_range(off),
    ensures
        spec_translate_edges(s, off).contains(spec_translate_edge(e, off)) == s.contains(e),
{
    let ts = spec_translate_edges(s, off);
    let te = spec_translate_edge(e, off);
    if s.contains(e) {
        let i = choose|i: int| 0 <= i < s.len() && s[i] == e;
        assert(ts[i] == spec_translate_edge(s[i], off));
        assert(ts.contains(te)) by {
            assert(ts[i] == te);
        }
    }
    if ts.contains(te) {
        let i = choose|i: int| 0 <= i < ts.len() && ts[i] == te;
        assert(ts[i] == spec_translate_edge(s[i], off));
        assert(edge_wide(s[i]));
        lemma_translate_injective(s[i].a, e.a, off);
        lemma_translate_injective(s[i].b, e.b, off);
        assert(s[i] == (Edge { a: e.a, b: e.b }));
        assert(s.contains(e));
    }
}

/// Deduplicated folding commutes with translation.
proof fn lemma_dedup_append_translate(acc: Seq<Edge>, s: Seq<Edge>, off: Vertex)
    requires
        edges_wide(acc),
        edges_wide(s),
        in_coord_range(off),
    ensures
        spec_translate_edges(dedup_append(acc, s), off) =~= dedup_append(
            spec_translate_edges(acc, off),
            spec_translate_edges(s, off),
        ),
    decreases s.len(),
{
    let tacc = spec_translate_edges(acc, off);
    let ts = spec_translate_edges(s, off);
    if s.len() == 0 {
        assert(ts.len() == 0);
    } else {
        assert forall|i: int| 0 <= i < s.drop_last().len() implies edge_wide(
            #[trigger] s.drop_last()[i],
        ) by {
            assert(s.drop_last()[i] == s[i]);
        }
        lemma_dedup_append_translate(acc, s.drop_last(), off);
        assert(ts.drop_last() =~= spec_translate_edges(s.drop_last(), off));
        assert(ts.last() == spec_translate_edge(s.last(), off));
        let prev = dedup_append(acc, s.drop_last());
        assert forall|i: int| 0 <= i < prev.len() implies edge_wide(#[trigger] prev[i]) by {
            assert(prev.contains(prev[i]));
            lemma_dedup_append_origin(acc, s.drop_last(), prev[i]);
            if acc.contains(prev[i]) {
                let k = choose|k: int| 0 <= k < acc.len() && acc[k] == prev[i];
                assert(edge_wide(acc[k]));
            } else {
                let k = choose|k: int|
                    0 <= k < s.drop_last().len() && s.drop_last()[k] == prev[i];
                assert(s.drop_last()[k] == s[k]);
                assert(edge_wide(s[k]));
            }
        }
        assert(edge_wide(s.last())) by {
            assert(s[s.len() - 1] == s.last());
        }
        lemma_contains_translate(prev, s.last(), off);
        if !prev.contains(s.last()) {
            assert(spec_translate_edges(prev.push(s.last()), off) =~= spec_translate_edges(
                prev,
                off,
            ).push(spec_translate_edge(s.last(), off)));
        }
        assert(spec_translate_edges(dedup_append(acc, s), off) =~= dedup_append(tacc, ts));
    }
}

/// Translating every input point translates the skeleton edge for edge,
/// under the hypothesis that the outside in-sphere predicate is
/// translation-invariant — which the exact determinant, reading only
/// coordinate differences, is.
pub proof fn lemma_skeleton_translation(points: Seq<Vertex>, off: Vertex, tolerance_sq: u64)
    requires
        points.len() > 0,
        forall|k: int| 0 <= k < points.len() ==> in_coord_range(#[trigger] points[k]),
        in_coord_range(off),
        predicate_translation_invariant(off),
    ensures
        spec_edge_skeleton(spec_translate_all(points, off), tolerance_sq) =~= spec_translate_edges(
            spec_edge_skeleton(points, tolerance_sq),
            off,
        ),
{
    let st = spec_super_tetrahedron(points);
    let tpts = spec_translate_all(points, off);
    lemma_super_tetrahedron_translation(points, off);
    assert(spec_super_tetrahedron(tpts) == spec_translate_cell(st, off));
    lemma_super_wide(points);
    let run = bw_run(seq![st], points, tolerance_sq);
    lemma_run_translate(st, points, off, tolerance_sq);
    assert forall|i: int| 0 <= i < run.len() implies cell_wide(#[trigger] run[i]) by {
        assert(run.contains(run[i]));
        lemma_run_cells_from(seq![st], points, tolerance_sq, st, run[i]);
        lemma_cell_from_wide(run[i], points, st);
    }
    lemma_interior_translate(run, st, off, tolerance_sq);
    let interior = interior_cells(run, st, tolerance_sq);
    assert forall|i: int| 0 <= i < interior.len() implies cell_wide(#[trigger] interior[i]) by {
        assert(interior.contains(interior[i]));
        lemma_interior_origin(run, st, tolerance_sq, interior[i]);
        let k = choose|k: int| 0 <= k < run.len() && run[k] == interior[i];
        assert(cell_wide(run[k]));
    }
    lemma_cells_edges_translate(interior, off);
    let flat = cells_edges(interior);
    assert forall|i: int| 0 <= i < flat.len() implies edge_wide(#[trigger] flat[i]) by {
        assert(flat.contains(flat[i]));
        lemma_cells_edges_origin(interior, flat[i]);
        let t = choose|t: Tetrahedron|
            interior.contains(t) && #[trigger] cell_edges(t).contains(flat[i]);
        let k = choose|k: int| 0 <= k < interior.len() && interior[k] == t;
        assert(cell_wide(interior[k]));
        lemma_cell_edges_corners(t, flat[i]);
    }
    assert(edges_wide(Seq::<Edge>::empty()));
    lemma_dedup_append_translate(Seq::empty(), flat, off);
    assert(spec_translate_edges(Seq::<Edge>::empty(), off) =~= Seq::<Edge>::empty());
}

} // verus!
