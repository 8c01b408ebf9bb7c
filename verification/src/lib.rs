//! Edge skeleton of the three-dimensional Delaunay tetrahedralization of a
//! finite point set.
//!
//! Given a sequence of points on an integer coordinate grid, the library
//! builds the Delaunay tetrahedralization incrementally (Bowyer-Watson) and
//! returns the set of undirected edges of the tetrahedra whose vertices are
//! all input points.  The empty-circumsphere test is delegated to an exact
//! geometric predicate.

pub mod bounds;
pub mod driver;
pub mod geometry;
pub mod laws;
pub mod predicate;
pub mod translation;

pub use driver::tetrahedralize;

pub use geometry::Edge;
pub use geometry::Vertex;
pub use geometry::COORD_BOUND;
