//! Mesh data as a Wavefront OBJ file writes it.

use vstd::prelude::*;
use crate::render::text::is_float_literal;

verus! {

/// A vertex position, each coordinate held as the token that the file gives.
/// Turning a token into a number is left to the renderer.
pub struct Vertex {
    pub x: Vec<char>,
    pub y: Vec<char>,
    pub z: Vec<char>,
}

pub struct VertexView {
    pub x: Seq<char>,
    pub y: Seq<char>,
    pub z: Seq<char>,
}

impl View for Vertex {
    type V = VertexView;

    open spec fn view(&self) -> VertexView {
        VertexView { x: self.x@, y: self.y@, z: self.z@ }
    }
}

/// Vertices and the triangle list that indexes them, three indices a triangle.
pub struct Mesh {
    pub vertices: Vec<Vertex>,
    pub indices: Vec<u32>,
}

pub struct MeshView {
    pub vertices: Seq<VertexView>,
    pub indices: Seq<u32>,
}

impl VertexView {
    /// Every coordinate is a floating-point literal.
    pub open spec fn readable(self) -> bool {
        is_float_literal(self.x) && is_float_literal(self.y) && is_float_literal(self.z)
    }
}

impl MeshView {
    pub open spec fn empty() -> MeshView {
        MeshView { vertices: Seq::empty(), indices: Seq::empty() }
    }

    /// Every vertex is readable and the indices come in triangles.
    pub open spec fn sound(self) -> bool {
        &&& forall|k: int| 0 <= k < self.vertices.len() ==> (#[trigger] self.vertices[k]).readable()
        &&& self.indices.len() % 3 == 0
    }
}

impl View for Mesh {
    type V = MeshView;

    open spec fn view(&self) -> MeshView {
        MeshView {
            vertices: self.vertices@.map_values(|v: Vertex| v@),
            indices: self.indices@,
        }
    }
}

impl Mesh {
    pub fn new() -> (mesh: Mesh)
        ensures
            mesh@ == MeshView::empty(),
    {
        let mesh = Mesh { vertices: Vec::new(), indices: Vec::new() };
        assert(mesh@.vertices =~= Seq::empty());
        mesh
    }

    /// The number of indices as a draw call takes it: in 32 bits, signed,
    /// with the higher bits cut off.
    pub fn index_count(&self) -> (count: i32)
        ensures
            count == self@.indices.len() as i32,
    {
        #[verifier::truncate]
        (self.indices.len() as i32)
    }
}

} // verus!
