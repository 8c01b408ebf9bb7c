use delaunay3d::geometry::Tetrahedron;
use delaunay3d::geometry::Triangle;
use delaunay3d::tetrahedralize;
use delaunay3d::Vertex;

use std::collections::BTreeSet;

#[test]
fn almost_equal_respects_tolerance() {
    let origin = Vertex::new(0, 0, 0);
    let unit = Vertex::new(1, 0, 0);
    // squared distance 1 is not strictly below 1, but is below 2
    assert!(!origin.almost_equal(&unit, 1));
    assert!(origin.almost_equal(&unit, 2));
    // a vertex is always fuzzy-coincident with itself under a positive tolerance
    assert!(origin.almost_equal(&origin, 1));
}

#[test]
fn triangle_almost_equal_matches_permuted_corners() {
    let a = Vertex::new(0, 0, 0);
    let b = Vertex::new(10, 0, 0);
    let c = Vertex::new(0, 10, 0);
    let d = Vertex::new(0, 0, 10);
    let t1 = Triangle::new(a, b, c);
    let t2 = Triangle::new(c, a, b);
    let t3 = Triangle::new(a, b, d);
    assert!(t1.almost_equal(&t2, 1));
    assert!(!t1.almost_equal(&t3, 1));
}

#[test]
fn contains_vertex_is_fuzzy() {
    let t = Tetrahedron::new(
        Vertex::new(0, 0, 0),
        Vertex::new(10, 0, 0),
        Vertex::new(0, 10, 0),
        Vertex::new(0, 0, 10),
    );
    assert!(t.contains_vertex(&Vertex::new(10, 0, 0), 1));
    assert!(t.contains_vertex(&Vertex::new(10, 1, 0), 2));
    assert!(!t.contains_vertex(&Vertex::new(5, 5, 5), 1));
}

#[test]
fn in_circumsphere_detects_interior_point_whatever_the_orientation() {
    let a = Vertex::new(0, 0, 0);
    let b = Vertex::new(10, 0, 0);
    let c = Vertex::new(0, 10, 0);
    let d = Vertex::new(0, 0, 10);
    let inside = Vertex::new(3, 3, 3);
    let outside = Vertex::new(100, 100, 100);
    let t1 = Tetrahedron::new(a, b, c, d);
    let t2 = Tetrahedron::new(b, a, c, d);
    assert!(Tetrahedron::in_circumsphere(t1, &inside));
    assert!(Tetrahedron::in_circumsphere(t2, &inside));
    assert!(!Tetrahedron::in_circumsphere(t1, &outside));
    assert!(!Tetrahedron::in_circumsphere(t2, &outside));
}

#[test]
fn in_circumsphere_tie_counts_as_outside() {
    let a = Vertex::new(0, 0, 0);
    let b = Vertex::new(10, 0, 0);
    let c = Vertex::new(0, 10, 0);
    let d = Vertex::new(0, 0, 10);
    // the circumsphere has center (5, 5, 5); this point lies exactly on it
    let on_sphere = Vertex::new(10, 10, 0);
    let t = Tetrahedron::new(a, b, c, d);
    assert!(!Tetrahedron::in_circumsphere(t, &on_sphere));
}

/// For the corners of an axis-aligned cube, every cell reconstructible from
/// the resulting edges (a 4-clique of input points) must have an empty
/// circumsphere: re-running the exact predicate against all eight corners
/// finds none strictly inside.
#[test]
fn cube_cells_satisfy_empty_circumsphere() {
    let mut points: Vec<Vertex> = Vec::new();
    for &x in &[0, 6] {
        for &y in &[0, 6] {
            for &z in &[0, 6] {
                points.push(Vertex::new(x, y, z));
            }
        }
    }
    let edges = tetrahedralize(&points, 1).expect("non-empty input must give a result");
    let mut pairs: BTreeSet<(usize, usize)> = BTreeSet::new();
    for e in &edges {
        let ia = points.iter().position(|p| (p.x, p.y, p.z) == (e.a.x, e.a.y, e.a.z)).unwrap();
        let ib = points.iter().position(|p| (p.x, p.y, p.z) == (e.b.x, e.b.y, e.b.z)).unwrap();
        pairs.insert(if ia <= ib { (ia, ib) } else { (ib, ia) });
    }
    let linked = |i: usize, j: usize| {
        let p = if i <= j { (i, j) } else { (j, i) };
        pairs.contains(&p)
    };
    let coord = |i: usize| robust::Coord3D::<i32> {
        x: points[i].x,
        y: points[i].y,
        z: points[i].z,
    };
    for i in 0..points.len() {
        for j in (i + 1)..points.len() {
            for k in (j + 1)..points.len() {
                for l in (k + 1)..points.len() {
                    let clique = linked(i, j) && linked(i, k) && linked(i, l)
                        && linked(j, k) && linked(j, l) && linked(k, l);
                    if !clique {
                        continue;
                    }
                    let orient = robust::orient3d(coord(i), coord(j), coord(k), coord(l));
                    if orient == 0.0 {
                        continue;
                    }
                    for m in 0..points.len() {
                        if m == i || m == j || m == k || m == l {
                            continue;
                        }
                        let det = if orient > 0.0 {
                            robust::insphere(coord(i), coord(j), coord(k), coord(l), coord(m))
                        } else {
                            robust::insphere(coord(j), coord(i), coord(k), coord(l), coord(m))
                        };
                        assert!(det <= 0.0, "input point strictly inside a cell circumsphere");
                    }
                }
            }
        }
    }
}

#[test]
fn bounding_construct_corners_follow_the_formula() {
    let points = vec![
        Vertex::new(0, 0, 0),
        Vertex::new(6, 0, 0),
        Vertex::new(0, 6, 0),
        Vertex::new(0, 0, 6),
    ];
    // box minimum (0,0,0), maximum (6,6,6), twice the largest extent is 12
    let st = delaunay3d::bounds::make_super_tetrahedron(&points);
    assert_eq!((st.a.x, st.a.y, st.a.z), (-1, -1, -1));
    assert_eq!((st.b.x, st.b.y, st.b.z), (18, -1, -1));
    assert_eq!((st.c.x, st.c.y, st.c.z), (-1, 18, -1));
    assert_eq!((st.d.x, st.d.y, st.d.z), (-1, -1, 18));
}
