//! Compaction: a vertex buffer without orphans and without duplicates.
//!
//! The work is done by the meshoptimizer library, which this module calls
//! through three functions whose contracts are taken on trust.

use crate::mesh::{indices_in_range, Mesh};
use crate::vertex::Vertex;
use vstd::prelude::*;

verus! {

/// The mark of a vertex that has no place in the compacted buffer.
pub const UNUSED: u32 = u32::MAX;

/// Whether some index names vertex `v`.
pub open spec fn referenced(indices: Seq<u32>, v: int) -> bool {
    exists|k: int| 0 <= k < indices.len() && #[trigger] indices[k] == v
}

/// Whether place `k` of the index buffer is the first to denote its position.
pub open spec fn first_use(vertices: Seq<Vertex>, indices: Seq<u32>, k: int) -> bool {
    forall|j: int|
        0 <= j < k ==> vertices[(#[trigger] indices[j]) as int] != vertices[indices[k] as int]
}

/// Whether the table sends a vertex that some index names to new vertex `n`.
pub open spec fn sent_to(indices: Seq<u32>, remap: Seq<u32>, n: int) -> bool {
    exists|k: int| 0 <= k < indices.len() && remap[(#[trigger] indices[k]) as int] == n
}

/// What makes `remap` the table that takes each vertex to its place among
/// `count` compacted vertices:
/// a vertex that no index names is marked `UNUSED`; two places of the index
/// buffer get the same new vertex exactly if they denote equal positions;
/// the new vertices are numbered `0..count` without a gap, in the order in
/// which the index buffer first uses them.
pub open spec fn is_vertex_remap(
    vertices: Seq<Vertex>,
    indices: Seq<u32>,
    count: int,
    remap: Seq<u32>,
) -> bool {
    &&& remap.len() == vertices.len()
    &&& 0 <= count <= vertices.len()
    &&& forall|v: int|
        0 <= v < vertices.len() && !referenced(indices, v) ==> #[trigger] remap[v] == UNUSED
    &&& forall|k: int| 0 <= k < indices.len() ==> remap[(#[trigger] indices[k]) as int] < count
    &&& forall|j: int, k: int|
        0 <= j < indices.len() && 0 <= k < indices.len() ==> (remap[(#[trigger] indices[j]) as int]
            == remap[(#[trigger] indices[k]) as int] <==> vertices[indices[j] as int]
            == vertices[indices[k] as int])
    &&& forall|n: int| 0 <= n < count ==> #[trigger] sent_to(indices, remap, n)
    &&& forall|j: int, k: int|
        0 <= j < k < indices.len() && first_use(vertices, indices, j) && first_use(
            vertices,
            indices,
            k,
        ) ==> remap[(#[trigger] indices[j]) as int] < remap[(#[trigger] indices[k]) as int]
}

/// Calls `meshopt::generate_vertex_remap` on a vertex buffer with its index
/// buffer, and returns the number of distinct vertices in use with the table
/// from old to new vertex.
///
/// Claimed of it: the result is the table that `is_vertex_remap` describes.
/// The outside function walks the index buffer once; a vertex whose bytes
/// it has not met yet gets the next free number, one whose bytes it has met
/// gets the number given then, and the table's other entries keep the all-ones
/// mark that it starts with. A vertex is twelve bytes without padding, so
/// equal bytes are equal coordinates. Left out: an index that names no
/// vertex, and a buffer so long that a vertex could get the mark as its
/// number.
#[verifier::external_body]
fn vertex_remap(vertices: &Vec<Vertex>, indices: &Vec<u32>) -> (r: (usize, Vec<u32>))
    requires
        indices_in_range(indices@, vertices@.len() as int),
        vertices@.len() <= u32::MAX,
    ensures
        is_vertex_remap(vertices@, indices@, r.0 as int, r.1@),
{
    meshopt::generate_vertex_remap(vertices.as_slice(), Some(indices.as_slice()))
}

/// Calls `meshopt::remap_index_buffer`, which writes for each index its
/// entry in the table.
///
/// Claimed of it: the result is as long as `indices`, and entry `k` is
/// `remap[indices[k]]`. Left out: an index outside the table, and an index
/// whose entry is the unused mark, on which the outside function stops.
#[verifier::external_body]
fn remapped_indices(indices: &Vec<u32>, vertex_count: usize, remap: &Vec<u32>) -> (r: Vec<u32>)
    requires
        indices_in_range(indices@, remap@.len() as int),
        forall|k: int| 0 <= k < indices@.len() ==> remap@[(#[trigger] indices@[k]) as int] != UNUSED,
    ensures
        r@.len() == indices@.len(),
        forall|k: int| 0 <= k < r@.len() ==> #[trigger] r@[k] == remap@[indices@[k] as int],
{
    meshopt::remap_index_buffer(Some(indices.as_slice()), vertex_count, remap.as_slice())
}

/// Calls `meshopt::remap_vertex_buffer`, which makes a buffer of
/// `vertex_count` default vertices and copies each vertex that the table
/// does not mark unused to its new place.
///
/// Claimed of it: the result has `vertex_count` vertices, and the new
/// place of every vertex in use holds that vertex. Left out: a new buffer
/// longer than the old one (the outside function stops on an entry that is
/// not below the old length), a table of another length than the buffer,
/// an entry outside the new buffer, and two unequal vertices sent to one
/// place (the later copy would win).
#[verifier::external_body]
fn remapped_vertices(vertices: &Vec<Vertex>, vertex_count: usize, remap: &Vec<u32>) -> (r: Vec<
    Vertex,
>)
    requires
        vertex_count <= vertices@.len(),
        remap@.len() == vertices@.len(),
        forall|v: int|
            0 <= v < remap@.len() && (#[trigger] remap@[v]) != UNUSED ==> remap@[v] < vertex_count,
        forall|u: int, v: int|
            0 <= u < remap@.len() && 0 <= v < remap@.len() && (#[trigger] remap@[u]) != UNUSED
                && remap@[u] == (#[trigger] remap@[v]) ==> vertices@[u] == vertices@[v],
    ensures
        r@.len() == vertex_count,
        forall|v: int|
            0 <= v < remap@.len() && (#[trigger] remap@[v]) != UNUSED ==> r@[remap@[v] as int]
                == vertices@[v],
{
    meshopt::remap_vertex_buffer(vertices.as_slice(), vertex_count, remap.as_slice())
}

impl Mesh {
    /// The positions that the index buffer denotes, as a set.
    pub open spec fn referenced_positions(&self) -> Set<Vertex> {
        Set::new(
            |p: Vertex| exists|k: int| 0 <= k < self.indices@.len() && #[trigger] self.position(k) == p,
        )
    }

    /// Drops the vertices that no index names and merges equal ones, and
    /// rewrites the index buffer to match.
    ///
    /// Every place of the index buffer denotes the same position as
    /// before. The new vertex buffer holds each denoted position once, in
    /// the order in which the index buffer first uses it.
    pub fn compact(&self) -> (compacted: Mesh)
        requires
            self.wf(),
        ensures
            compacted.wf(),
            compacted.indices@.len() == self.indices@.len(),
            compacted.vertices@.len() <= self.vertices@.len(),
            forall|k: int|
                0 <= k < self.indices@.len() ==> #[trigger] compacted.position(k) == self.position(
                    k,
                ),
            compacted.referenced_positions() == self.referenced_positions(),
            forall|n: int|
                0 <= n < compacted.vertices@.len() ==> #[trigger] referenced(compacted.indices@, n),
            forall|a: int, b: int|
                0 <= a < b < compacted.vertices@.len() ==> #[trigger] compacted.vertices@[a]
                    != #[trigger] compacted.vertices@[b],
            forall|j: int, k: int|
                0 <= j < k < self.indices@.len() && first_use(self.vertices@, self.indices@, j)
                    && first_use(self.vertices@, self.indices@, k) ==> (
                #[trigger] compacted.indices@[j]) < (#[trigger] compacted.indices@[k]),
    {
        // the table from old to new vertex
        let (new_vertex_count, remap) = vertex_remap(&self.vertices, &self.indices);
        let ghost old_vertices = self.vertices@;
        let ghost old_indices = self.indices@;
        proof {
            assert forall|u: int, v: int|
                0 <= u < remap@.len() && 0 <= v < remap@.len() && (#[trigger] remap@[u]) != UNUSED
                    && remap@[u] == (#[trigger] remap@[v]) implies old_vertices[u]
                == old_vertices[v] by {
                assert(referenced(old_indices, u));
                assert(referenced(old_indices, v));
                let j = choose|j: int| 0 <= j < old_indices.len() && #[trigger] old_indices[j] == u;
                let k = choose|k: int| 0 <= k < old_indices.len() && #[trigger] old_indices[k] == v;
                assert(remap@[old_indices[j] as int] == remap@[old_indices[k] as int]);
            }
            assert forall|v: int|
                0 <= v < remap@.len() && (#[trigger] remap@[v]) != UNUSED implies remap@[v]
                < new_vertex_count by {
                assert(referenced(old_indices, v));
                let k = choose|k: int| 0 <= k < old_indices.len() && #[trigger] old_indices[k] == v;
                assert(remap@[old_indices[k] as int] < new_vertex_count);
            }
        }
        // the index buffer through the table
        let new_indices = remapped_indices(&self.indices, self.vertices.len(), &remap);
        // the vertices in use, at their new places
        let new_vertices = remapped_vertices(&self.vertices, new_vertex_count, &remap);
        let compacted = Mesh { vertices: new_vertices, indices: new_indices };
        proof {
            assert forall|k: int| 0 <= k < old_indices.len() implies #[trigger] compacted.position(
                k,
            ) == self.position(k) by {
                let v = old_indices[k] as int;
                assert(remap@[v] != UNUSED);
                assert(compacted.indices@[k] == remap@[v]);
            }
            assert forall|n: int| 0 <= n < compacted.vertices@.len() implies #[trigger] referenced(
                compacted.indices@,
                n,
            ) by {
                assert(sent_to(old_indices, remap@, n));
                let k = choose|k: int|
                    0 <= k < old_indices.len() && remap@[(#[trigger] old_indices[k]) as int] == n;
                assert(compacted.indices@[k] == n);
            }
            assert forall|a: int, b: int| 0 <= a < b < compacted.vertices@.len() implies
                #[trigger] compacted.vertices@[a] != #[trigger] compacted.vertices@[b] by {
                assert(sent_to(old_indices, remap@, a));
                assert(sent_to(old_indices, remap@, b));
                let j = choose|j: int|
                    0 <= j < old_indices.len() && remap@[(#[trigger] old_indices[j]) as int] == a;
                let k = choose|k: int|
                    0 <= k < old_indices.len() && remap@[(#[trigger] old_indices[k]) as int] == b;
                assert(compacted.position(j) == self.position(j));
                assert(compacted.position(k) == self.position(k));
                assert(compacted.indices@[j] == a);
                assert(compacted.indices@[k] == b);
            }
            assert forall|p: Vertex|
                compacted.referenced_positions().contains(p) <==> self.referenced_positions().contains(
                    p,
                ) by {
                if compacted.referenced_positions().contains(p) {
                    let k = choose|k: int|
                        0 <= k < compacted.indices@.len() && #[trigger] compacted.position(k) == p;
                    assert(self.position(k) == p);
                }
                if self.referenced_positions().contains(p) {
                    let k = choose|k: int|
                        0 <= k < self.indices@.len() && #[trigger] self.position(k) == p;
                    assert(compacted.position(k) == p);
                }
            }
            assert(compacted.referenced_positions() =~= self.referenced_positions());
        }
        compacted
    }
}

} // verus!
