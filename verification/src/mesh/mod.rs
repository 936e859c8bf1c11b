//! Triangle meshes over a vertex buffer.

use crate::error::GeometryError;
use crate::text::{decimal, push_decimal};
use crate::vertex::Vertex;
use vstd::prelude::*;
use vstd::string::*;

pub mod compact;
pub mod delaunay;
pub mod grid;
pub mod simplify;

pub use self::delaunay::{delaunay_triangulation, faces_by_vertex};
pub use self::grid::triangulate_grid;
pub use self::simplify::ERROR_CEILING;

verus! {

/// A triangulated surface: a vertex buffer, and an index buffer that names
/// the three corners of one triangle after the other.
#[derive(Debug)]
pub struct Mesh {
    pub indices: Vec<u32>,
    pub vertices: Vec<Vertex>,
}

/// Whether every index names one of `vertex_count` vertices.
pub open spec fn indices_in_range(indices: Seq<u32>, vertex_count: int) -> bool {
    forall|k: int| 0 <= k < indices.len() ==> (#[trigger] indices[k]) < vertex_count
}

/// The first place of `indices` that names none of `vertex_count` vertices.
pub open spec fn first_out_of_range(indices: Seq<u32>, vertex_count: int, at: int) -> bool {
    &&& 0 <= at < indices.len()
    &&& indices[at] >= vertex_count
    &&& indices_in_range(indices.take(at), vertex_count)
}

pub(crate) fn check_indices(indices: &Vec<u32>, vertex_count: usize) -> (r: Option<usize>)
    ensures
        r is None <==> indices_in_range(indices@, vertex_count as int),
        r matches Some(at) ==> first_out_of_range(indices@, vertex_count as int, at as int),
{
    let mut k: usize = 0;
    while k < indices.len()
        invariant
            k <= indices@.len(),
            indices_in_range(indices@.take(k as int), vertex_count as int),
        decreases indices.len() - k,
    {
        if indices[k] as usize >= vertex_count {
            return Some(k);
        }
        proof {
            let upto = indices@.take(k + 1);
            assert forall|j: int| 0 <= j < upto.len() implies (#[trigger] upto[j])
                < vertex_count by {
                if j < k {
                    assert(indices@.take(k as int)[j] == upto[j]);
                }
            }
        }
        k = k + 1;
    }
    assert(indices@.take(k as int) =~= indices@);
    None
}

impl Mesh {
    /// The mesh invariant: the indices come in threes, each names a vertex,
    /// and 32-bit indices can name every vertex.
    pub open spec fn wf(&self) -> bool {
        &&& self.indices@.len() % 3 == 0
        &&& indices_in_range(self.indices@, self.vertices@.len() as int)
        &&& self.vertices@.len() <= u32::MAX
    }

    /// Number of triangles.
    pub open spec fn triangle_count(&self) -> int {
        self.indices@.len() as int / 3
    }

    /// The position that place `k` of the index buffer denotes.
    pub open spec fn position(&self, k: int) -> Vertex {
        self.vertices@[self.indices@[k] as int]
    }

    /// Puts two buffers together as they are; `validate` tells whether they
    /// make a mesh.
    pub fn new(indices: Vec<u32>, vertices: Vec<Vertex>) -> (mesh: Mesh)
        ensures
            mesh.indices == indices,
            mesh.vertices == vertices,
    {
        Mesh { indices, vertices }
    }

    /// Checks the mesh invariant, and names the first thing that breaks it.
    pub fn validate(&self) -> (r: Result<(), GeometryError>)
        ensures
            r is Ok <==> self.wf(),
            r matches Err(e) ==> match e {
                GeometryError::TooLarge => self.vertices@.len() > u32::MAX,
                GeometryError::PartialTriangle { index_count } => {
                    &&& self.vertices@.len() <= u32::MAX
                    &&& index_count == self.indices@.len()
                    &&& index_count % 3 != 0
                },
                GeometryError::IndexOutOfRange { at } => {
                    &&& self.vertices@.len() <= u32::MAX
                    &&& self.indices@.len() % 3 == 0
                    &&& first_out_of_range(self.indices@, self.vertices@.len() as int, at as int)
                },
                _ => false,
            },
    {
        if self.vertices.len() > u32::MAX as usize {
            return Err(GeometryError::TooLarge);
        }
        if self.indices.len() % 3 != 0 {
            return Err(GeometryError::PartialTriangle { index_count: self.indices.len() });
        }
        match check_indices(&self.indices, self.vertices.len()) {
            Some(at) => Err(GeometryError::IndexOutOfRange { at }),
            None => Ok(()),
        }
    }
}

impl Default for Mesh {
    /// The mesh without vertices.
    fn default() -> (mesh: Mesh)
        ensures
            mesh.indices@.len() == 0,
            mesh.vertices@.len() == 0,
            mesh.wf(),
    {
        Mesh { indices: Vec::new(), vertices: Vec::new() }
    }
}

/// A mesh in one line: the sizes of its buffers.
pub open spec fn summary_text(vertex_count: nat, index_count: nat) -> Seq<char> {
    "Mesh { vertices: "@ + decimal(vertex_count) + ", indices: "@ + decimal(index_count) + " }"@
}

impl Mesh {
    /// Says how large the mesh is.
    pub fn summary(&self) -> (text: String)
        ensures
            text@ == summary_text(self.vertices@.len(), self.indices@.len()),
    {
        let mut text = String::new();
        text.append("Mesh { vertices: ");
        push_decimal(&mut text, self.vertices.len() as u64);
        text.append(", indices: ");
        push_decimal(&mut text, self.indices.len() as u64);
        text.append(" }");
        assert(text@ =~= summary_text(self.vertices@.len(), self.indices@.len()));
        text
    }
}

} // verus!
