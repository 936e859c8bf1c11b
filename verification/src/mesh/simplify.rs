//! Simplification: fewer triangles over the same vertices.
//!
//! The decimation itself works on floating-point positions and is not done
//! here. This module says how many indices to ask it for, and makes a mesh
//! of what it returns.

use crate::error::GeometryError;
use crate::fixed::{round_div, SCALE};
use crate::mesh::compact::{first_use, referenced};
use crate::mesh::{check_indices, first_out_of_range, indices_in_range, Mesh};
use vstd::arithmetic::div_mod::lemma_fundamental_div_mod_converse;
use vstd::prelude::*;

verus! {

/// The geometric error that a simplification may make, in hundredths of the
/// mesh's extent: five times the extent, so far above the noise of the
/// samples that the index count alone limits the reduction.
pub const ERROR_CEILING: u32 = 500;

/// Number of indices that a reduction to `reduction_factor` hundredths of
/// `index_count` indices aims at: the product, rounded to the nearest integer.
pub open spec fn simplify_target(index_count: int, reduction_factor: int) -> int {
    round_div(index_count * reduction_factor, SCALE as int)
}

/// Keeping everything asks for every index, and keeping nothing for none.
pub proof fn lemma_simplify_target_ends(index_count: int)
    requires
        index_count >= 0,
    ensures
        simplify_target(index_count, SCALE as int) == index_count,
        simplify_target(index_count, 0) == 0,
{
    assert(index_count * 0 == 0) by (nonlinear_arith);
    lemma_fundamental_div_mod_converse(100int, 200int, 0, 100);
    lemma_fundamental_div_mod_converse(2 * (index_count * 100) + 100, 200int, index_count, 100);
}

impl Mesh {
    /// Number of indices to ask a decimation for, to keep `reduction_factor`
    /// hundredths of this mesh: `100` keeps all of it, `50` half.
    pub fn simplify_target(&self, reduction_factor: u32) -> (target: usize)
        requires
            reduction_factor <= SCALE,
        ensures
            target == simplify_target(self.indices@.len() as int, reduction_factor as int),
            target <= self.indices@.len(),
    {
        let count = self.indices.len() as u128;
        let factor = reduction_factor as u128;
        proof {
            assert(0 <= count * factor <= count * 100) by (nonlinear_arith)
                requires
                    0 <= factor <= 100,
                    0 <= count,
            ;
        }
        let target: u128 = (2 * (count * factor) + 100) / 200;
        target as usize
    }

    /// The mesh that a decimation leaves: this mesh's vertices with the
    /// index buffer `decimated` that the decimation returned for them.
    ///
    /// Succeeds if and only if `decimated` holds whole triangles over this
    /// mesh's vertices and no more indices than the mesh had.
    pub fn simplify(&self, decimated: Vec<u32>) -> (r: Result<Mesh, GeometryError>)
        requires
            self.wf(),
        ensures
            r is Ok <==> decimated@.len() <= self.indices@.len() && decimated@.len() % 3 == 0
                && indices_in_range(decimated@, self.vertices@.len() as int),
            r matches Ok(mesh) ==> mesh.wf() && mesh.vertices@ == self.vertices@ && mesh.indices@
                == decimated@,
            r matches Err(e) ==> match e {
                GeometryError::Grown { index_count } => index_count == decimated@.len()
                    && decimated@.len() > self.indices@.len(),
                GeometryError::PartialTriangle { index_count } => index_count == decimated@.len()
                    && decimated@.len() <= self.indices@.len() && decimated@.len() % 3 != 0,
                GeometryError::IndexOutOfRange { at } => decimated@.len() <= self.indices@.len()
                    && decimated@.len() % 3 == 0 && first_out_of_range(
                    decimated@,
                    self.vertices@.len() as int,
                    at as int,
                ),
                _ => false,
            },
    {
        if decimated.len() > self.indices.len() {
            return Err(GeometryError::Grown { index_count: decimated.len() });
        }
        if decimated.len() % 3 != 0 {
            return Err(GeometryError::PartialTriangle { index_count: decimated.len() });
        }
        match check_indices(&decimated, self.vertices.len()) {
            Some(at) => Err(GeometryError::IndexOutOfRange { at }),
            None => Ok(Mesh { vertices: self.vertices.clone(), indices: decimated }),
        }
    }

    /// Simplifies and compacts in one step: the mesh of the index buffer
    /// `decimated` that a decimation returned for this mesh, without the
    /// vertices that it no longer uses.
    ///
    /// The result has as many indices as `decimated`, so never more than
    /// this mesh, and each denotes the position that `decimated` names in
    /// this mesh's vertices.
    pub fn reduce(&self, decimated: Vec<u32>) -> (r: Result<Mesh, GeometryError>)
        requires
            self.wf(),
        ensures
            r is Ok <==> decimated@.len() <= self.indices@.len() && decimated@.len() % 3 == 0
                && indices_in_range(decimated@, self.vertices@.len() as int),
            r matches Ok(mesh) ==> {
                &&& mesh.wf()
                &&& mesh.indices@.len() == decimated@.len()
                &&& mesh.indices@.len() <= self.indices@.len()
                &&& mesh.vertices@.len() <= self.vertices@.len()
                &&& forall|k: int|
                    0 <= k < decimated@.len() ==> #[trigger] mesh.position(k)
                        == self.vertices@[decimated@[k] as int]
                &&& forall|n: int|
                    0 <= n < mesh.vertices@.len() ==> #[trigger] referenced(mesh.indices@, n)
                &&& forall|a: int, b: int|
                    0 <= a < b < mesh.vertices@.len() ==> #[trigger] mesh.vertices@[a]
                        != #[trigger] mesh.vertices@[b]
                &&& forall|j: int, k: int|
                    0 <= j < k < decimated@.len() && first_use(self.vertices@, decimated@, j)
                        && first_use(self.vertices@, decimated@, k) ==> (
                    #[trigger] mesh.indices@[j]) < (#[trigger] mesh.indices@[k])
            },
            r matches Err(e) ==> match e {
                GeometryError::Grown { index_count } => index_count == decimated@.len()
                    && decimated@.len() > self.indices@.len(),
                GeometryError::PartialTriangle { index_count } => index_count == decimated@.len()
                    && decimated@.len() <= self.indices@.len() && decimated@.len() % 3 != 0,
                GeometryError::IndexOutOfRange { at } => decimated@.len() <= self.indices@.len()
                    && decimated@.len() % 3 == 0 && first_out_of_range(
                    decimated@,
                    self.vertices@.len() as int,
                    at as int,
                ),
                _ => false,
            },
    {
        match self.simplify(decimated) {
            Ok(simplified) => {
                let compacted = simplified.compact();
                proof {
                    assert forall|k: int| 0 <= k < decimated@.len() implies
                        #[trigger] compacted.position(k) == self.vertices@[decimated@[k] as int] by {
                        assert(compacted.position(k) == simplified.position(k));
                    }
                }
                Ok(compacted)
            },
            Err(e) => Err(e),
        }
    }
}

} // verus!
