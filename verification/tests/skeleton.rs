use delaunay3d::tetrahedralize;
use delaunay3d::Edge;
use delaunay3d::Vertex;

use std::collections::BTreeSet;

type Key = (i32, i32, i32);

fn key(v: &Vertex) -> Key {
    (v.x, v.y, v.z)
}

/// The result's edges as unordered index pairs into `points`; panics if an
/// endpoint is not an input point.
fn index_pairs(points: &[Vertex], edges: &[Edge]) -> BTreeSet<(usize, usize)> {
    let mut pairs = BTreeSet::new();
    for e in edges {
        let ia = points.iter().position(|p| key(p) == key(&e.a)).expect("endpoint not an input point");
        let ib = points.iter().position(|p| key(p) == key(&e.b)).expect("endpoint not an input point");
        let pair = if ia <= ib { (ia, ib) } else { (ib, ia) };
        pairs.insert(pair);
    }
    pairs
}

#[test]
fn empty_input_yields_no_result() {
    let points: Vec<Vertex> = Vec::new();
    assert!(tetrahedralize(&points, 1).is_none());
}

#[test]
fn single_point_yields_empty_edge_set() {
    let points = vec![Vertex::new(3, -4, 5)];
    let edges = tetrahedralize(&points, 1).expect("one point must give a result");
    assert_eq!(edges.len(), 0);
}

#[test]
fn four_noncoplanar_points_yield_tetrahedron_edges() {
    let points = vec![
        Vertex::new(0, 0, 0),
        Vertex::new(6, 0, 0),
        Vertex::new(0, 6, 0),
        Vertex::new(0, 0, 6),
    ];
    let edges = tetrahedralize(&points, 1).expect("non-empty input must give a result");
    assert_eq!(edges.len(), 6);
    let pairs = index_pairs(&points, &edges);
    let expected: BTreeSet<(usize, usize)> =
        [(0, 1), (0, 2), (0, 3), (1, 2), (1, 3), (2, 3)].into_iter().collect();
    assert_eq!(pairs, expected);
}

#[test]
fn endpoints_are_input_points() {
    let points = vec![
        Vertex::new(0, 0, 0),
        Vertex::new(6, 0, 0),
        Vertex::new(0, 6, 0),
        Vertex::new(0, 0, 6),
        Vertex::new(2, 2, 2),
    ];
    let edges = tetrahedralize(&points, 1).expect("non-empty input must give a result");
    // index_pairs panics if any endpoint is not drawn from the input
    let _ = index_pairs(&points, &edges);
    assert!(!edges.is_empty());
}

#[test]
fn repeated_calls_agree() {
    let points = vec![
        Vertex::new(0, 0, 0),
        Vertex::new(6, 0, 0),
        Vertex::new(0, 6, 0),
        Vertex::new(0, 0, 6),
        Vertex::new(5, 5, 5),
    ];
    let first = tetrahedralize(&points, 1).expect("non-empty input must give a result");
    let second = tetrahedralize(&points, 1).expect("non-empty input must give a result");
    assert_eq!(first, second);
}

#[test]
fn edge_new_canonicalizes_direction() {
    let a = Vertex::new(4, -1, 9);
    let b = Vertex::new(-2, 7, 3);
    assert_eq!(Edge::new(a, b), Edge::new(b, a));
    assert_eq!(Edge::new(a, a), Edge::new(a, a));
}

#[test]
fn translation_preserves_adjacency() {
    let points = vec![
        Vertex::new(0, 0, 0),
        Vertex::new(6, 0, 0),
        Vertex::new(0, 6, 0),
        Vertex::new(0, 0, 6),
        Vertex::new(2, 1, 2),
    ];
    let moved: Vec<Vertex> = points.iter().map(|p| Vertex::new(p.x + 7, p.y - 3, p.z + 11)).collect();
    let base = tetrahedralize(&points, 1).expect("non-empty input must give a result");
    let shifted = tetrahedralize(&moved, 1).expect("non-empty input must give a result");
    assert_eq!(index_pairs(&points, &base), index_pairs(&moved, &shifted));
}

#[test]
fn duplicate_points_still_give_input_endpoints() {
    let points = vec![
        Vertex::new(0, 0, 0),
        Vertex::new(6, 0, 0),
        Vertex::new(0, 6, 0),
        Vertex::new(0, 0, 6),
        Vertex::new(6, 0, 0),
    ];
    let edges = tetrahedralize(&points, 1).expect("non-empty input must give a result");
    // whatever the triangulation of a degenerate input, endpoints are inputs
    let _ = index_pairs(&points, &edges);
}

#[test]
fn all_identical_points_give_a_result() {
    let points = vec![Vertex::new(2, 2, 2), Vertex::new(2, 2, 2), Vertex::new(2, 2, 2)];
    let edges = tetrahedralize(&points, 1).expect("non-empty input must give a result");
    let _ = index_pairs(&points, &edges);
}

#[test]
fn extreme_coordinates_stay_in_range() {
    let b = delaunay3d::COORD_BOUND;
    let points = vec![
        Vertex::new(-b, -b, -b),
        Vertex::new(b, -b, -b),
        Vertex::new(-b, b, -b),
        Vertex::new(-b, -b, b),
    ];
    let edges = tetrahedralize(&points, 1).expect("non-empty input must give a result");
    let _ = index_pairs(&points, &edges);
    assert_eq!(edges.len(), 6);
}

// The bounding construct's one-unit margin does not scale with the points,
// so adjacency near the hull can differ after scaling; on this configuration
// the bounding corners stay clear of every circumsphere and the edge set is
// preserved exactly.
#[test]
fn uniform_scaling_preserves_adjacency() {
    let points = vec![
        Vertex::new(0, 0, 0),
        Vertex::new(6, 0, 0),
        Vertex::new(0, 6, 0),
        Vertex::new(0, 0, 6),
    ];
    let scaled: Vec<Vertex> = points.iter().map(|p| Vertex::new(3 * p.x, 3 * p.y, 3 * p.z)).collect();
    let base = tetrahedralize(&points, 1).expect("non-empty input must give a result");
    let larger = tetrahedralize(&scaled, 1).expect("non-empty input must give a result");
    assert_eq!(index_pairs(&points, &base), index_pairs(&scaled, &larger));
}
