//! The incremental driver: one Bowyer-Watson insertion pass per input
//! vertex, then a final pass that drops every cell touching a
//! bounding-construct corner and flattens the rest into a deduplicated
//! undirected edge sequence.
//!
//! Every step of the executable code is pinned to a spec-level model of the
//! same pass, so the result of [`tetrahedralize`] is stated exactly by
//! [`spec_edge_skeleton`].

use vstd::prelude::*;

verus! {

use crate::bounds::make_super_tetrahedron;
use crate::bounds::spec_super_tetrahedron;
use crate::geometry::Edge;
use crate::geometry::Tetrahedron;
use crate::geometry::Triangle;
use crate::geometry::Vertex;
use crate::geometry::in_coord_range;
use crate::geometry::spec_contains_vertex;
use crate::geometry::spec_edge;
use crate::geometry::spec_tri_almost_eq;
use crate::predicate::spec_in_sphere;

/// Whether the circumsphere of cell `t` is violated by the new vertex `p`.
pub open spec fn spec_cell_bad(t: Tetrahedron, p: Vertex) -> bool {
    spec_in_sphere(t.a, t.b, t.c, t.d, p)
}

/// The four triangular faces of a cell, in enumeration order.
pub open spec fn cell_faces(t: Tetrahedron) -> Seq<Triangle> {
    seq![
        Triangle { a: t.a, b: t.b, c: t.c },
        Triangle { a: t.a, b: t.b, c: t.d },
        Triangle { a: t.a, b: t.c, c: t.d },
        Triangle { a: t.b, b: t.c, c: t.d },
    ]
}

/// The candidate faces of one insertion step: the faces of every cell whose
/// circumsphere contains `p`, in cell order.
pub open spec fn bad_faces(cells: Seq<Tetrahedron>, p: Vertex) -> Seq<Triangle>
    decreases cells.len(),
{
    if cells.len() == 0 {
        Seq::empty()
    } else {
        bad_faces(cells.drop_last(), p) + (if spec_cell_bad(cells.last(), p) {
            cell_faces(cells.last())
        } else {
            Seq::empty()
        })
    }
}

/// The cells whose circumsphere does not contain `p`, in order.
pub open spec fn surviving_cells(cells: Seq<Tetrahedron>, p: Vertex) -> Seq<Tetrahedron>
    decreases cells.len(),
{
    if cells.len() == 0 {
        Seq::empty()
    } else {
        surviving_cells(cells.drop_last(), p) + (if spec_cell_bad(cells.last(), p) {
            Seq::empty()
        } else {
            seq![cells.last()]
        })
    }
}

/// Whether the face at index `i` is fuzzy-matched by some candidate face at
/// a different index.
pub open spec fn face_matches_other(faces: Seq<Triangle>, i: int, tolerance_sq: u64) -> bool {
    exists|j: int|
        0 <= j < faces.len() && j != i && spec_tri_almost_eq(
            faces[i],
            #[trigger] faces[j],
            tolerance_sq,
        )
}

/// The candidate faces among the first `n` that no other candidate face
/// fuzzy-matches: the cavity boundary, in order.
pub open spec fn boundary_upto(faces: Seq<Triangle>, n: int, tolerance_sq: u64) -> Seq<Triangle>
    decreases n,
{
    if n <= 0 {
        Seq::empty()
    } else {
        boundary_upto(faces, n - 1, tolerance_sq) + (if face_matches_other(
            faces,
            n - 1,
            tolerance_sq,
        ) {
            Seq::empty()
        } else {
            seq![faces[n - 1]]
        })
    }
}

/// The cavity boundary of a candidate face sequence.
pub open spec fn boundary_faces(faces: Seq<Triangle>, tolerance_sq: u64) -> Seq<Triangle> {
    boundary_upto(faces, faces.len() as int, tolerance_sq)
}

/// One new cell per boundary face, connecting the face to the new vertex.
pub open spec fn rebuilt_cells(faces: Seq<Triangle>, p: Vertex) -> Seq<Tetrahedron>
    decreases faces.len(),
{
    if faces.len() == 0 {
        Seq::empty()
    } else {
        rebuilt_cells(faces.drop_last(), p) + seq![
            Tetrahedron { a: faces.last().a, b: faces.last().b, c: faces.last().c, d: p },
        ]
    }
}

/// One insertion step: survivors of the circumsphere test, followed by the
/// rebuilt cells over the cavity boundary.
pub open spec fn bw_step(cells: Seq<Tetrahedron>, p: Vertex, tolerance_sq: u64) -> Seq<
    Tetrahedron,
> {
    surviving_cells(cells, p) + rebuilt_cells(
        boundary_faces(bad_faces(cells, p), tolerance_sq),
        p,
    )
}

/// The working cell collection after inserting every vertex of `points`, in
/// input order, starting from `init`.
pub open spec fn bw_run(init: Seq<Tetrahedron>, points: Seq<Vertex>, tolerance_sq: u64) -> Seq<
    Tetrahedron,
>
    decreases points.len(),
{
    if points.len() == 0 {
        init
    } else {
        bw_step(bw_run(init, points.drop_last(), tolerance_sq), points.last(), tolerance_sq)
    }
}

/// Whether some corner of the bounding construct `st` is fuzzy-coincident
/// with a corner of cell `t`.
pub open spec fn spec_touches_corner(t: Tetrahedron, st: Tetrahedron, tolerance_sq: u64) -> bool {
    ||| spec_contains_vertex(t, st.a, tolerance_sq)
    ||| spec_contains_vertex(t, st.b, tolerance_sq)
    ||| spec_contains_vertex(t, st.c, tolerance_sq)
    ||| spec_contains_vertex(t, st.d, tolerance_sq)
}

/// The cells free of every bounding-construct corner, in order.
pub open spec fn interior_cells(
    cells: Seq<Tetrahedron>,
    st: Tetrahedron,
    tolerance_sq: u64,
) -> Seq<Tetrahedron>
    decreases cells.len(),
{
    if cells.len() == 0 {
        Seq::empty()
    } else {
        interior_cells(cells.drop_last(), st, tolerance_sq) + (if spec_touches_corner(
            cells.last(),
            st,
            tolerance_sq,
        ) {
            Seq::empty()
        } else {
            seq![cells.last()]
        })
    }
}

/// The six canonical edges of a cell, in enumeration order.
pub open spec fn cell_edges(t: Tetrahedron) -> Seq<Edge> {
    seq![
        spec_edge(t.a, t.b),
        spec_edge(t.b, t.c),
        spec_edge(t.c, t.a),
        spec_edge(t.d, t.a),
        spec_edge(t.d, t.b),
        spec_edge(t.d, t.c),
    ]
}

/// The edges of every cell, concatenated in cell order.
pub open spec fn cells_edges(cells: Seq<Tetrahedron>) -> Seq<Edge>
    decreases cells.len(),
{
    if cells.len() == 0 {
        Seq::empty()
    } else {
        cells_edges(cells.drop_last()) + cell_edges(cells.last())
    }
}

/// Set-like insertion into an edge sequence: append unless already present.
pub open spec fn dedup_insert(acc: Seq<Edge>, e: Edge) -> Seq<Edge> {
    if acc.contains(e) {
        acc
    } else {
        acc.push(e)
    }
}

/// Folds [`dedup_insert`] over `s` in order, starting from `acc`.
pub open spec fn dedup_append(acc: Seq<Edge>, s: Seq<Edge>) -> Seq<Edge>
    decreases s.len(),
{
    if s.len() == 0 {
        acc
    } else {
        dedup_insert(dedup_append(acc, s.drop_last()), s.last())
    }
}

/// The full pipeline on a non-empty vertex sequence: seed with the bounding
/// construct, run every insertion step, drop the cells touching a bounding
/// corner, and flatten the rest into a deduplicated edge sequence.
pub open spec fn spec_edge_skeleton(points: Seq<Vertex>, tolerance_sq: u64) -> Seq<Edge> {
    let st = spec_super_tetrahedron(points);
    dedup_append(
        Seq::empty(),
        cells_edges(interior_cells(bw_run(seq![st], points, tolerance_sq), st, tolerance_sq)),
    )
}

/// Whether no edge value occurs twice in `s`.
pub open spec fn edges_distinct(s: Seq<Edge>) -> bool {
    forall|i: int, j: int| 0 <= i < j < s.len() ==> #[trigger] s[i] != #[trigger] s[j]
}

/// Deduplicated insertion keeps the sequence free of repeats.
proof fn lemma_dedup_insert_distinct(acc: Seq<Edge>, e: Edge)
    requires
        edges_distinct(acc),
    ensures
        edges_distinct(dedup_insert(acc, e)),
{
    if !acc.contains(e) {
        assert forall|i: int, j: int| 0 <= i < j < acc.push(e).len() implies #[trigger] acc.push(
            e,
        )[i] != #[trigger] acc.push(e)[j] by {
            if j == acc.len() {
                assert(acc[i] == acc.push(e)[i]);
            }
        }
    }
}

/// A deduplicated fold keeps the accumulator free of repeats.
proof fn lemma_dedup_append_distinct(acc: Seq<Edge>, s: Seq<Edge>)
    requires
        edges_distinct(acc),
    ensures
        edges_distinct(dedup_append(acc, s)),
    decreases s.len(),
{
    if s.len() > 0 {
        lemma_dedup_append_distinct(acc, s.drop_last());
        lemma_dedup_insert_distinct(dedup_append(acc, s.drop_last()), s.last());
    }
}

/// Folding insertions over a concatenation is folding them over each part in
/// turn.
pub proof fn lemma_dedup_append_concat(acc: Seq<Edge>, s: Seq<Edge>, t: Seq<Edge>)
    ensures
        dedup_append(acc, s + t) == dedup_append(dedup_append(acc, s), t),
    decreases t.len(),
{
    if t.len() == 0 {
        assert(s + t =~= s);
    } else {
        assert((s + t).drop_last() =~= s + t.drop_last());
        lemma_dedup_append_concat(acc, s, t.drop_last());
    }
}

/// Linear membership scan over the edges collected so far.
fn contains_edge(edges: &Vec<Edge>, e: &Edge) -> (r: bool)
    ensures
        r == edges@.contains(*e),
{
    let mut i: usize = 0;
    while i < edges.len()
        invariant
            0 <= i <= edges@.len(),
            forall|k: int| 0 <= k < i ==> edges@[k] != *e,
        decreases edges@.len() - i,
    {
        if edges[i] == *e {
            assert(edges@.contains(*e)) by {
                assert(edges@[i as int] == *e);
            }
            return true;
        }
        i = i + 1;
    }
    false
}

/// Inserts `e` unless an equal edge is already present.
fn insert_edge(edges: &mut Vec<Edge>, e: Edge)
    ensures
        final(edges)@ == dedup_insert(old(edges)@, e),
{
    if !contains_edge(edges, &e) {
        edges.push(e);
    }
}

/// Inserts the six canonical edges of `t`, deduplicating against everything
/// collected so far.
fn add_cell_edges(edges: &mut Vec<Edge>, t: &Tetrahedron)
    ensures
        final(edges)@ == dedup_append(old(edges)@, cell_edges(*t)),
{
    let ghost acc0 = edges@;
    insert_edge(edges, Edge::new(t.a, t.b));
    insert_edge(edges, Edge::new(t.b, t.c));
    insert_edge(edges, Edge::new(t.c, t.a));
    insert_edge(edges, Edge::new(t.d, t.a));
    insert_edge(edges, Edge::new(t.d, t.b));
    insert_edge(edges, Edge::new(t.d, t.c));
    proof {
        let s6 = cell_edges(*t);
        let s5 = seq![
            spec_edge(t.a, t.b),
            spec_edge(t.b, t.c),
            spec_edge(t.c, t.a),
            spec_edge(t.d, t.a),
            spec_edge(t.d, t.b),
        ];
        let s4 = seq![
            spec_edge(t.a, t.b),
            spec_edge(t.b, t.c),
            spec_edge(t.c, t.a),
            spec_edge(t.d, t.a),
        ];
        let s3 = seq![spec_edge(t.a, t.b), spec_edge(t.b, t.c), spec_edge(t.c, t.a)];
        let s2 = seq![spec_edge(t.a, t.b), spec_edge(t.b, t.c)];
        let s1 = seq![spec_edge(t.a, t.b)];
        assert(s6.drop_last() =~= s5);
        assert(s5.drop_last() =~= s4);
        assert(s4.drop_last() =~= s3);
        assert(s3.drop_last() =~= s2);
        assert(s2.drop_last() =~= s1);
        assert(s1.drop_last() =~= Seq::<Edge>::empty());
        assert(dedup_append(acc0, Seq::<Edge>::empty()) == acc0);
        assert(dedup_append(acc0, s1) == dedup_insert(acc0, spec_edge(t.a, t.b)));
        assert(dedup_append(acc0, s2) == dedup_insert(dedup_append(acc0, s1), spec_edge(t.b, t.c)));
        assert(dedup_append(acc0, s3) == dedup_insert(dedup_append(acc0, s2), spec_edge(t.c, t.a)));
        assert(dedup_append(acc0, s4) == dedup_insert(dedup_append(acc0, s3), spec_edge(t.d, t.a)));
        assert(dedup_append(acc0, s5) == dedup_insert(dedup_append(acc0, s4), spec_edge(t.d, t.b)));
        assert(dedup_append(acc0, s6) == dedup_insert(dedup_append(acc0, s5), spec_edge(t.d, t.c)));
    }
}

/// Scans the working collection once: collects the four faces of every cell
/// whose circumsphere contains `p`, and keeps the cells whose circumsphere
/// does not.
#[verifier::loop_isolation(false)]
fn scan_cells(cells: &Vec<Tetrahedron>, p: &Vertex) -> (r: (Vec<Triangle>, Vec<Tetrahedron>))
    ensures
        r.0@ == bad_faces(cells@, *p),
        r.1@ == surviving_cells(cells@, *p),
{
    let mut faces: Vec<Triangle> = Vec::new();
    let mut kept: Vec<Tetrahedron> = Vec::new();
    let mut i: usize = 0;
    while i < cells.len()
        invariant
            0 <= i <= cells@.len(),
            faces@ == bad_faces(cells@.take(i as int), *p),
            kept@ == surviving_cells(cells@.take(i as int), *p),
        decreases cells@.len() - i,
    {
        proof {
            assert(cells@.take(i as int + 1).drop_last() =~= cells@.take(i as int));
        }
        let t = cells[i];
        if Tetrahedron::in_circumsphere(t, p) {
            faces.push(Triangle::new(t.a, t.b, t.c));
            faces.push(Triangle::new(t.a, t.b, t.d));
            faces.push(Triangle::new(t.a, t.c, t.d));
            faces.push(Triangle::new(t.b, t.c, t.d));
            proof {
                assert(faces@ =~= bad_faces(cells@.take(i as int + 1), *p));
            }
        } else {
            kept.push(t);
            proof {
                assert(kept@ =~= surviving_cells(cells@.take(i as int + 1), *p));
            }
        }
        i = i + 1;
    }
    proof {
        assert(cells@.take(cells@.len() as int) =~= cells@);
    }
    (faces, kept)
}

/// Boundary extraction: a candidate face survives only when no candidate
/// face at a different index fuzzy-matches it.
#[verifier::loop_isolation(false)]
fn extract_boundary(faces: &Vec<Triangle>, tolerance_sq: u64) -> (b: Vec<Triangle>)
    ensures
        b@ == boundary_faces(faces@, tolerance_sq),
{
    let mut boundary: Vec<Triangle> = Vec::new();
    let mut i: usize = 0;
    while i < faces.len()
        invariant
            0 <= i <= faces@.len(),
            boundary@ == boundary_upto(faces@, i as int, tolerance_sq),
        decreases faces@.len() - i,
    {
        let mut matched = false;
        let mut j: usize = 0;
        while j < faces.len()
            invariant
                0 <= j <= faces@.len(),
                i < faces@.len(),
                matched == (exists|j0: int|
                    0 <= j0 < j && j0 != i && spec_tri_almost_eq(
                        faces@[i as int],
                        #[trigger] faces@[j0],
                        tolerance_sq,
                    )),
            decreases faces@.len() - j,
        {
            if j != i {
                if faces[i].almost_equal(&faces[j], tolerance_sq) {
                    matched = true;
                }
            }
            j = j + 1;
        }
        if !matched {
            boundary.push(faces[i]);
        }
        i = i + 1;
    }
    boundary
}

/// One insertion step of the incremental driver: discard the cells violated
/// by `p`, then connect every boundary face of the cavity to `p`.
#[verifier::loop_isolation(false)]
fn insert_vertex(cells: Vec<Tetrahedron>, p: &Vertex, tolerance_sq: u64) -> (out: Vec<
    Tetrahedron,
>)
    ensures
        out@ == bw_step(cells@, *p, tolerance_sq),
{
    let (faces, kept) = scan_cells(&cells, p);
    let boundary = extract_boundary(&faces, tolerance_sq);
    let mut out = kept;
    let ghost bnd = boundary@;
    let mut i: usize = 0;
    while i < boundary.len()
        invariant
            0 <= i <= boundary@.len(),
            boundary@ == bnd,
            out@ == surviving_cells(cells@, *p) + rebuilt_cells(bnd.take(i as int), *p),
        decreases boundary@.len() - i,
    {
        proof {
            assert(bnd.take(i as int + 1).drop_last() =~= bnd.take(i as int));
        }
        let f = boundary[i];
        out.push(Tetrahedron::new(f.a, f.b, f.c, *p));
        proof {
            assert(out@ =~= surviving_cells(cells@, *p) + rebuilt_cells(
                bnd.take(i as int + 1),
                *p,
            ));
        }
        i = i + 1;
    }
    proof {
        assert(bnd.take(bnd.len() as int) =~= bnd);
    }
    out
}

/// Corner-cell filtering: keeps only the cells free of every
/// bounding-construct corner.
#[verifier::loop_isolation(false)]
fn filter_interior(cells: &Vec<Tetrahedron>, st: &Tetrahedron, tolerance_sq: u64) -> (out: Vec<
    Tetrahedron,
>)
    ensures
        out@ == interior_cells(cells@, *st, tolerance_sq),
{
    let mut interior: Vec<Tetrahedron> = Vec::new();
    let mut i: usize = 0;
    while i < cells.len()
        invariant
            0 <= i <= cells@.len(),
            interior@ == interior_cells(cells@.take(i as int), *st, tolerance_sq),
        decreases cells@.len() - i,
    {
        proof {
            assert(cells@.take(i as int + 1).drop_last() =~= cells@.take(i as int));
        }
        let t = cells[i];
        if !(t.contains_vertex(&st.a, tolerance_sq) || t.contains_vertex(&st.b, tolerance_sq)
            || t.contains_vertex(&st.c, tolerance_sq) || t.contains_vertex(
            &st.d,
            tolerance_sq,
        )) {
            interior.push(t);
            proof {
                assert(interior@ =~= interior_cells(
                    cells@.take(i as int + 1),
                    *st,
                    tolerance_sq,
                ));
            }
        }
        i = i + 1;
    }
    proof {
        assert(cells@.take(cells@.len() as int) =~= cells@);
    }
    interior
}

/// Edge extraction: the six canonical edges of every cell, deduplicated in
/// enumeration order.
#[verifier::loop_isolation(false)]
fn extract_edges(cells: &Vec<Tetrahedron>) -> (out: Vec<Edge>)
    ensures
        out@ == dedup_append(Seq::empty(), cells_edges(cells@)),
{
    let mut edges: Vec<Edge> = Vec::new();
    let mut i: usize = 0;
    while i < cells.len()
        invariant
            0 <= i <= cells@.len(),
            edges@ == dedup_append(Seq::empty(), cells_edges(cells@.take(i as int))),
        decreases cells@.len() - i,
    {
        let t = cells[i];
        add_cell_edges(&mut edges, &t);
        proof {
            assert(cells@.take(i as int + 1).drop_last() =~= cells@.take(i as int));
            assert(cells_edges(cells@.take(i as int + 1)) == cells_edges(cells@.take(i as int))
                + cell_edges(cells@[i as int]));
            lemma_dedup_append_concat(
                Seq::empty(),
                cells_edges(cells@.take(i as int)),
                cell_edges(cells@[i as int]),
            );
        }
        i = i + 1;
    }
    proof {
        assert(cells@.take(cells@.len() as int) =~= cells@);
    }
    edges
}

/// Computes the edge skeleton of the Delaunay tetrahedralization of
/// `vertices`.
///
/// Returns `None` exactly when the input is empty.  Otherwise the returned
/// edges are the deduplicated, canonically directed edges of every final
/// cell free of bounding-construct corners, exactly as
/// [`spec_edge_skeleton`] states, built by one Bowyer-Watson insertion pass
/// per vertex in input order.
///
/// `tolerance_sq` is the squared-distance threshold of the fuzzy comparator
/// used for face deduplication and corner detection; it must be at least 1,
/// so that coincident vertices always count as fuzzy-equal.
#[verifier::loop_isolation(false)]
pub fn tetrahedralize(vertices: &Vec<Vertex>, tolerance_sq: u64) -> (r: Option<Vec<Edge>>)
    requires
        tolerance_sq >= 1,
        forall|k: int| 0 <= k < vertices@.len() ==> in_coord_range(#[trigger] vertices@[k]),
    ensures
        match r {
            None => vertices@.len() == 0,
            Some(edges) => vertices@.len() > 0 && edges@ == spec_edge_skeleton(
                vertices@,
                tolerance_sq,
            ),
        },
        r matches Some(edges) ==> edges_distinct(edges@),
        r matches Some(edges) ==> forall|i: int|
            0 <= i < edges@.len() ==> vertices@.contains((#[trigger] edges@[i]).a)
                && vertices@.contains(edges@[i].b),
{
    if vertices.len() == 0 {
        return None;
    }
    let st = make_super_tetrahedron(vertices);
    let mut cells: Vec<Tetrahedron> = Vec::new();
    cells.push(st);
    proof {
        assert(cells@ =~= seq![spec_super_tetrahedron(vertices@)]);
    }

    let mut k: usize = 0;
    while k < vertices.len()
        invariant
            0 <= k <= vertices@.len(),
            cells@ == bw_run(
                seq![spec_super_tetrahedron(vertices@)],
                vertices@.take(k as int),
                tolerance_sq,
            ),
        decreases vertices@.len() - k,
    {
        let p = vertices[k];
        cells = insert_vertex(cells, &p, tolerance_sq);
        proof {
            assert(vertices@.take(k as int + 1).drop_last() =~= vertices@.take(k as int));
            assert(vertices@.take(k as int + 1).last() == vertices@[k as int]);
        }
        k = k + 1;
    }
    proof {
        assert(vertices@.take(vertices@.len() as int) =~= vertices@);
    }

    let interior = filter_interior(&cells, &st, tolerance_sq);
    let edges = extract_edges(&interior);
    proof {
        lemma_dedup_append_distinct(Seq::empty(), cells_edges(interior@));
        assert forall|i: int| 0 <= i < edges@.len() implies vertices@.contains(
            (#[trigger] edges@[i]).a,
        ) && vertices@.contains(edges@[i].b) by {
            assert(edges@.contains(edges@[i]));
            crate::laws::lemma_endpoints_from_input(vertices@, tolerance_sq, edges@[i]);
        }
    }
    Some(edges)
}

} // verus!
