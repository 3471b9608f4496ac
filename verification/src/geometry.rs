//! Plain-value carriers for what producers submit: geometry prototypes and
//! per-instance payloads.
//!
//! The engine never interprets the scalar words inside these records; they are
//! carried as the raw bit patterns of the backend's scalar type, and the
//! embedding converts between its native representation and these words at
//! the boundary.

use vstd::prelude::*;

verus! {

/// One point of a geometry prototype, as three raw scalar words.
#[derive(Clone, Copy, PartialEq, Eq, Structural, Debug)]
pub struct Vertex {
    pub position_x: u32,
    pub position_y: u32,
    pub position_z: u32,
}

/// One per-draw payload: the transform and attribute words a producer submits
/// for a single drawn copy of a batch's geometry. Opaque to the engine; it is
/// appended, kept, or truncated only as a whole.
#[derive(Clone, Copy, PartialEq, Eq, Structural, Debug)]
pub struct Instance {
    pub position_x: u32,
    pub position_y: u32,
    pub position_z: u32,
    pub direction_x: u32,
    pub direction_y: u32,
    pub color_r: u32,
    pub color_g: u32,
    pub color_b: u32,
}

/// A geometry prototype: the mesh a batch's drawable is materialized from.
pub struct Geometry {
    pub vertices: Vec<Vertex>,
    pub indices: Vec<u16>,
}

/// The mathematical content of a geometry prototype.
#[verifier::ext_equal]
pub ghost struct GeometryView {
    pub vertices: Seq<Vertex>,
    pub indices: Seq<u16>,
}

impl View for Geometry {
    type V = GeometryView;

    open spec fn view(&self) -> GeometryView {
        GeometryView { vertices: self.vertices@, indices: self.indices@ }
    }
}

impl Geometry {
    /// Builds a prototype from its mesh data.
    pub fn new(vertices: Vec<Vertex>, indices: Vec<u16>) -> (r: Geometry)
        ensures
            r@.vertices == vertices@,
            r@.indices == indices@,
    {
        Geometry { vertices, indices }
    }

    /// An owned copy of the prototype, element for element.
    pub fn duplicate(&self) -> (r: Geometry)
        ensures
            r@ == self@,
    {
        let mut vertices: Vec<Vertex> = Vec::new();
        let mut i: usize = 0;
        while i < self.vertices.len()
            invariant
                i <= self.vertices.len(),
                vertices@ == self.vertices@.take(i as int),
            decreases self.vertices.len() - i,
        {
            vertices.push(self.vertices[i]);
            proof {
                assert(vertices@ =~= self.vertices@.take(i + 1));
            }
            i += 1;
        }
        let mut indices: Vec<u16> = Vec::new();
        let mut j: usize = 0;
        while j < self.indices.len()
            invariant
                j <= self.indices.len(),
                indices@ == self.indices@.take(j as int),
            decreases self.indices.len() - j,
        {
            indices.push(self.indices[j]);
            proof {
                assert(indices@ =~= self.indices@.take(j + 1));
            }
            j += 1;
        }
        let r = Geometry { vertices, indices };
        proof {
            assert(self.vertices@.take(self.vertices@.len() as int) =~= self.vertices@);
            assert(self.indices@.take(self.indices@.len() as int) =~= self.indices@);
            assert(r@ =~= self@);
        }
        r
    }
}

} // verus!
