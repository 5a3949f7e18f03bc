//! Turns the two boundary curves of a filled chart area into a mesh of
//! counter-clockwise triangles and line segments.
//!
//! Coordinates are fixed-point integers; the caller picks the scale, and the
//! distance threshold is given in the same units.
use vstd::prelude::*;

pub mod geometry;
pub mod pairing;
pub mod path;
pub mod pixel;
pub mod runs;
pub mod triangulate;

use geometry::{Line, Triangle};
use path::{MeshError, PathSegment};
use triangulate::{gen_mesh, mesh_of};

verus! {

/// The mesh of one chart area, ready to be handed to a renderer.
pub struct TriangulatedArea {
    pub triangles: Vec<Triangle>,
    pub lines: Vec<Line>,
}

impl TriangulatedArea {
    /// Builds the mesh between the top and the bottom path.
    pub fn new(top_line: &Vec<PathSegment>, bot_line: &Vec<PathSegment>, samples_per_segment: i32, dist_thresh: u32) -> (r:
        Result<TriangulatedArea, MeshError>)
        requires
            samples_per_segment > 0,
        ensures
            match mesh_of(top_line@, bot_line@, samples_per_segment as int, dist_thresh as int) {
                Ok((t, l)) => r is Ok && r->Ok_0.triangles@ == t && r->Ok_0.lines@ == l,
                Err(e) => r is Err && r->Err_0 == e,
            },
    {
        match gen_mesh(top_line, bot_line, samples_per_segment, dist_thresh) {
            Ok((triangles, lines)) => Ok(TriangulatedArea { triangles, lines }),
            Err(e) => Err(e),
        }
    }

    pub fn triangles(&self) -> (r: &Vec<Triangle>)
        ensures
            r@ == self.triangles@,
    {
        &self.triangles
    }

    pub fn lines(&self) -> (r: &Vec<Line>)
        ensures
            r@ == self.lines@,
    {
        &self.lines
    }
}

} // verus!
