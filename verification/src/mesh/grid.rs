//! Meshes of regular grids.

use crate::bbox::BBox;
use crate::error::{DecodeReason, FetchError, GeometryError, TerrainError};
use crate::fixed::{ceil_div, lemma_ceil_div_covers};
use crate::mesh::Mesh;
use crate::providers::Punkt;
use crate::vertex::Vertex;
use vstd::arithmetic::div_mod::lemma_fundamental_div_mod_converse;
use vstd::prelude::*;

verus! {

/// Number of triangles that a grid of `width` by `height` vertices is cut
/// into: two for each cell.
pub open spec fn grid_triangle_count(width: int, height: int) -> int {
    if width >= 1 && height >= 1 {
        2 * (width - 1) * (height - 1)
    } else {
        0
    }
}

/// Corner `corner` of triangle `k` of a grid that is `width` vertices wide.
///
/// Triangles `2c` and `2c + 1` halve cell `c`, the cells counted row by
/// row. With `v0` the cell's first vertex, `v1` the next in its row, and
/// `v2`, `v3` the two above them, the halves are `(v0, v2, v1)` and
/// `(v1, v2, v3)`: every cell is cut along the same diagonal, and every
/// triangle turns the same way.
pub open spec fn grid_triangle(width: int, k: int, corner: int) -> int {
    let cell = k / 2;
    let row = cell / (width - 1);
    let column = cell % (width - 1);
    let v0 = row * width + column;
    if k % 2 == 0 {
        if corner == 0 {
            v0
        } else if corner == 1 {
            v0 + width
        } else {
            v0 + 1
        }
    } else {
        if corner == 0 {
            v0 + 1
        } else if corner == 1 {
            v0 + width
        } else {
            v0 + width + 1
        }
    }
}

/// Every corner of every triangle of the grid names a vertex of the grid.
pub proof fn lemma_grid_triangle_in_grid(width: int, height: int, k: int, corner: int)
    requires
        0 <= k < grid_triangle_count(width, height),
        0 <= corner < 3,
    ensures
        width >= 2,
        height >= 2,
        0 <= grid_triangle(width, k, corner) < width * height,
        0 <= (k / 2) / (width - 1) < height - 1,
        0 <= (k / 2) % (width - 1) < width - 1,
{
    assert(width >= 2 && height >= 2) by (nonlinear_arith)
        requires
            0 <= k < 2 * (width - 1) * (height - 1),
            width >= 1,
            height >= 1,
    ;
    let cell = k / 2;
    let row = cell / (width - 1);
    let column = cell % (width - 1);
    assert(0 <= cell < (width - 1) * (height - 1)) by (nonlinear_arith)
        requires
            0 <= k < 2 * (width - 1) * (height - 1),
            cell == k / 2,
    ;
    assert(cell == (width - 1) * row + column && 0 <= column < width - 1) by (nonlinear_arith)
        requires
            width - 1 > 0,
            row == cell / (width - 1),
            column == cell % (width - 1),
    ;
    assert(0 <= row < height - 1) by (nonlinear_arith)
        requires
            cell == (width - 1) * row + column,
            0 <= column < width - 1,
            0 <= cell < (width - 1) * (height - 1),
    ;
    assert(0 <= row * width && (row + 1) * width + column + 1 < width * height
        && (row + 1) * width == row * width + width) by (nonlinear_arith)
        requires
            0 <= row < height - 1,
            0 <= column < width - 1,
    ;
}

/// Cuts a grid of `width` by `height` vertices, numbered row by row, into
/// triangles.
pub fn triangulate_grid(width: usize, height: usize) -> (faces: Vec<[u32; 3]>)
    requires
        width * height <= u32::MAX + 1,
    ensures
        faces@.len() == grid_triangle_count(width as int, height as int),
        forall|k: int, corner: int|
            0 <= k < faces@.len() && 0 <= corner < 3 ==> (#[trigger] faces@[k]@[corner])
                == grid_triangle(width as int, k, corner),
        forall|k: int, corner: int|
            0 <= k < faces@.len() && 0 <= corner < 3 ==> (#[trigger] faces@[k]@[corner]) < width
                * height,
{
    let mut faces: Vec<[u32; 3]> = Vec::new();
    if width < 2 || height < 2 {
        assert(grid_triangle_count(width as int, height as int) == 0) by (nonlinear_arith)
            requires
                width < 2 || height < 2,
                width >= 0,
                height >= 0,
        ;
        return faces;
    }
    let mut y: usize = 0;
    while y < height - 1
        invariant
            width >= 2,
            height >= 2,
            width * height <= u32::MAX + 1,
            y <= height - 1,
            faces@.len() == 2 * (y * (width - 1)),
            forall|k: int, corner: int|
                0 <= k < faces@.len() && 0 <= corner < 3 ==> (#[trigger] faces@[k]@[corner])
                    == grid_triangle(width as int, k, corner),
        decreases height - 1 - y,
    {
        let mut x: usize = 0;
        while x < width - 1
            invariant
                width >= 2,
                height >= 2,
                width * height <= u32::MAX + 1,
                y < height - 1,
                x <= width - 1,
                faces@.len() == 2 * (y * (width - 1) + x),
                forall|k: int, corner: int|
                    0 <= k < faces@.len() && 0 <= corner < 3 ==> (#[trigger] faces@[k]@[corner])
                        == grid_triangle(width as int, k, corner),
            decreases width - 1 - x,
        {
            proof {
                assert(0 <= y * width && (y + 1) * width + x + 1 < width * height && (y + 1)
                    * width == y * width + width) by (nonlinear_arith)
                    requires
                        0 <= y < height - 1,
                        0 <= x < width - 1,
                ;
            }
            let v0: u32 = (y * width + x) as u32;
            let v1: u32 = v0 + 1;
            let v2: u32 = v0 + width as u32;
            let v3: u32 = v2 + 1;
            let ghost cell = y * (width - 1) + x;
            let ghost before = faces@;
            proof {
                assert(cell == y * (width - 1) + x);
                lemma_fundamental_div_mod_converse(cell, width - 1, y as int, x as int);
                assert((2 * cell) / 2 == cell && (2 * cell) % 2 == 0);
                assert((2 * cell + 1) / 2 == cell && (2 * cell + 1) % 2 == 1);
            }
            // the half below the diagonal
            faces.push([v0, v2, v1]);
            // the half above the diagonal
            faces.push([v1, v2, v3]);
            x = x + 1;
            proof {
                assert(y * (width - 1) + x == cell + 1);
                assert forall|k: int, corner: int|
                    0 <= k < faces@.len() && 0 <= corner < 3 implies (
                #[trigger] faces@[k]@[corner]) == grid_triangle(width as int, k, corner) by {
                    if k < before.len() {
                        assert(faces@[k] == before[k]);
                    } else if k == 2 * cell {
                        assert(faces@[k]@ =~= seq![v0, v2, v1]);
                    } else {
                        assert(k == 2 * cell + 1);
                        assert(faces@[k]@ =~= seq![v1, v2, v3]);
                    }
                }
            }
        }
        proof {
            assert((y + 1) * (width - 1) == y * (width - 1) + (width - 1)) by (nonlinear_arith);
        }
        y = y + 1;
    }
    proof {
        assert(2 * (y * (width - 1)) == 2 * (width - 1) * (height - 1)) by (nonlinear_arith)
            requires
                y == height - 1,
        ;
        assert forall|k: int, corner: int|
            0 <= k < faces@.len() && 0 <= corner < 3 implies (#[trigger] faces@[k]@[corner])
            < width * height by {
            lemma_grid_triangle_in_grid(width as int, height as int, k, corner);
        }
    }
    faces
}

/// The index buffer of a grid: the corners of its triangles, one triangle
/// after the other.
pub fn grid_indices(width: usize, height: usize) -> (indices: Vec<u32>)
    requires
        width * height <= u32::MAX + 1,
    ensures
        indices@.len() == 3 * grid_triangle_count(width as int, height as int),
        forall|k: int, corner: int|
            0 <= k < grid_triangle_count(width as int, height as int) && 0 <= corner < 3
                ==> #[trigger] indices@[3 * k + corner] == grid_triangle(width as int, k, corner),
        forall|p: int| 0 <= p < indices@.len() ==> (#[trigger] indices@[p]) < width * height,
{
    let faces = triangulate_grid(width, height);
    let mut indices: Vec<u32> = Vec::new();
    let mut k: usize = 0;
    while k < faces.len()
        invariant
            k <= faces@.len(),
            indices@.len() == 3 * k,
            forall|j: int, corner: int|
                0 <= j < k && 0 <= corner < 3 ==> #[trigger] indices@[3 * j + corner]
                    == faces@[j]@[corner],
        decreases faces.len() - k,
    {
        let face = faces[k];
        let ghost before = indices@;
        indices.push(face[0]);
        indices.push(face[1]);
        indices.push(face[2]);
        proof {
            assert forall|j: int, corner: int| 0 <= j < k + 1 && 0 <= corner < 3 implies
                #[trigger] indices@[3 * j + corner] == faces@[j]@[corner] by {
                if j < k {
                    assert(indices@[3 * j + corner] == before[3 * j + corner]);
                }
            }
        }
        k = k + 1;
    }
    proof {
        assert forall|p: int| 0 <= p < indices@.len() implies (#[trigger] indices@[p]) < width
            * height by {
            let j = p / 3;
            let corner = p % 3;
            assert(indices@[3 * j + corner] == faces@[j]@[corner]);
        }
    }
    indices
}

/// Whether a sample has all it takes to be a vertex.
pub open spec fn is_complete(p: Punkt) -> bool {
    p.x is Some && p.y is Some && p.z is Some
}

/// The first sample that is no vertex.
pub open spec fn first_incomplete(samples: Seq<Punkt>, index: int) -> bool {
    &&& 0 <= index < samples.len()
    &&& !is_complete(samples[index])
    &&& forall|j: int| 0 <= j < index ==> is_complete(#[trigger] samples[j])
}

/// The vertex of a sample.
pub open spec fn sample_vertex(p: Punkt) -> Vertex {
    Vertex { x: p.x->0, y: p.y->0, z: p.z->0 }
}

/// The vertex of a raster grid at row-major place `i`: the grid starts at
/// the box's first corner and steps by `resolution`.
pub open spec fn raster_vertex(bbox: BBox, resolution: int, width: int, i: int, z: i32) -> Vertex {
    Vertex {
        x: (bbox.x1 + (i % width) * resolution) as i32,
        y: (bbox.y1 + (i / width) * resolution) as i32,
        z,
    }
}

/// The first place without a sample.
pub open spec fn first_missing(elevations: Seq<Option<i32>>, index: int) -> bool {
    &&& 0 <= index < elevations.len()
    &&& elevations[index] is None
    &&& forall|j: int| 0 <= j < index ==> (#[trigger] elevations[j]) is Some
}

impl Mesh {
    /// Builds the mesh of a grid of samples, `height` rows of `width` samples
    /// row by row: one vertex at each sample, and the grid's triangles.
    ///
    /// Fails where the grid has more cells than 32-bit indices can name,
    /// where `samples` holds another number of samples than the grid has
    /// cells, and at the first sample that lacks a coordinate.
    pub fn build(samples: &Vec<Punkt>, width: usize, height: usize) -> (r: Result<
        Mesh,
        TerrainError,
    >)
        ensures
            if width * height > u32::MAX {
                r == Err::<Mesh, TerrainError>(TerrainError::Geometry(GeometryError::TooLarge))
            } else if samples@.len() != width * height {
                r == Err::<Mesh, TerrainError>(
                    TerrainError::Fetch(
                        FetchError::Decode {
                            reason: DecodeReason::SampleCount {
                                expected: (width * height) as usize,
                                found: samples@.len() as usize,
                            },
                        },
                    ),
                )
            } else if exists|i: int| first_incomplete(samples@, i) {
                r matches Err(
                    TerrainError::Fetch(
                        FetchError::Decode { reason: DecodeReason::MissingSample { index } },
                    ),
                ) && first_incomplete(samples@, index as int)
            } else {
                &&& r matches Ok(mesh)
                &&& mesh.wf()
                &&& mesh.vertices@.len() == samples@.len()
                &&& forall|i: int|
                    0 <= i < samples@.len() ==> #[trigger] mesh.vertices@[i] == sample_vertex(
                        samples@[i],
                    )
                &&& mesh.indices@.len() == 3 * grid_triangle_count(width as int, height as int)
                &&& forall|k: int, corner: int|
                    0 <= k < grid_triangle_count(width as int, height as int) && 0 <= corner < 3
                        ==> #[trigger] mesh.indices@[3 * k + corner] == grid_triangle(
                        width as int,
                        k,
                        corner,
                    )
            },
    {
        proof {
            assert(width * height <= 0xffff_ffff_ffff_ffff * 0xffff_ffff_ffff_ffff)
                by (nonlinear_arith)
                requires
                    0 <= width <= 0xffff_ffff_ffff_ffff,
                    0 <= height <= 0xffff_ffff_ffff_ffff,
            ;
        }
        let cells: u128 = (width as u128) * (height as u128);
        if cells > u32::MAX as u128 {
            return Err(TerrainError::Geometry(GeometryError::TooLarge));
        }
        let count: usize = cells as usize;
        if samples.len() != count {
            return Err(
                TerrainError::Fetch(
                    FetchError::Decode {
                        reason: DecodeReason::SampleCount { expected: count, found: samples.len() },
                    },
                ),
            );
        }
        let mut vertices: Vec<Vertex> = Vec::new();
        let mut i: usize = 0;
        while i < count
            invariant
                count == samples@.len(),
                count == width * height,
                count <= u32::MAX,
                i <= count,
                vertices@.len() == i,
                forall|j: int| 0 <= j < i ==> is_complete(#[trigger] samples@[j]),
                forall|j: int|
                    0 <= j < i ==> #[trigger] vertices@[j] == sample_vertex(samples@[j]),
            decreases count - i,
        {
            let p = samples[i];
            match (p.x, p.y, p.z) {
                (Some(x), Some(y), Some(z)) => {
                    vertices.push(Vertex::new(x, y, z));
                },
                _ => {
                    assert(first_incomplete(samples@, i as int));
                    return Err(
                        TerrainError::Fetch(
                            FetchError::Decode { reason: DecodeReason::MissingSample { index: i } },
                        ),
                    );
                },
            }
            i = i + 1;
        }
        let indices = grid_indices(width, height);
        proof {
            assert(!exists|i: int| first_incomplete(samples@, i));
        }
        Ok(Mesh { indices, vertices })
    }

    /// Builds the mesh of a raster: one vertex for each pixel of `bbox` at
    /// `resolution`, row by row from the box's first corner, with the
    /// elevation that `elevations` holds for it, and the grid's triangles.
    ///
    /// `elevations` is what was read from the decoded raster, `None` where
    /// it holds no value.
    pub fn from_geotiff(elevations: &Vec<Option<i32>>, bbox: &BBox, resolution: u32) -> (r:
        Result<Mesh, TerrainError>)
        requires
            bbox.valid(),
            resolution > 0,
        ensures
            ({
                let width = ceil_div(bbox.spec_width(), resolution as int);
                let height = ceil_div(bbox.spec_height(), resolution as int);
                if width * height > u32::MAX {
                    r == Err::<Mesh, TerrainError>(TerrainError::Geometry(GeometryError::TooLarge))
                } else if elevations@.len() != width * height {
                    r == Err::<Mesh, TerrainError>(
                        TerrainError::Fetch(
                            FetchError::Decode {
                                reason: DecodeReason::SampleCount {
                                    expected: (width * height) as usize,
                                    found: elevations@.len() as usize,
                                },
                            },
                        ),
                    )
                } else if exists|i: int| first_missing(elevations@, i) {
                    r matches Err(
                        TerrainError::Fetch(
                            FetchError::Decode { reason: DecodeReason::MissingSample { index } },
                        ),
                    ) && first_missing(elevations@, index as int)
                } else {
                    &&& r matches Ok(mesh)
                    &&& mesh.wf()
                    &&& mesh.vertices@.len() == width * height
                    &&& forall|i: int|
                        0 <= i < width * height ==> #[trigger] mesh.vertices@[i] == raster_vertex(
                            *bbox,
                            resolution as int,
                            width,
                            i,
                            elevations@[i]->0,
                        )
                    &&& mesh.indices@.len() == 3 * grid_triangle_count(width, height)
                    &&& forall|k: int, corner: int|
                        0 <= k < grid_triangle_count(width, height) && 0 <= corner < 3
                            ==> #[trigger] mesh.indices@[3 * k + corner] == grid_triangle(
                            width,
                            k,
                            corner,
                        )
                }
            }),
    {
        let width: usize = bbox.num_pixels_x(resolution);
        let height: usize = bbox.num_pixels_y(resolution);
        proof {
            lemma_ceil_div_covers(bbox.spec_width(), resolution as int);
            lemma_ceil_div_covers(bbox.spec_height(), resolution as int);
            assert(width * height <= 0xffff_ffff * 0xffff_ffff) by (nonlinear_arith)
                requires
                    0 <= width <= 0xffff_ffff,
                    0 <= height <= 0xffff_ffff,
            ;
        }
        let cells: u64 = (width as u64) * (height as u64);
        if cells > u32::MAX as u64 {
            return Err(TerrainError::Geometry(GeometryError::TooLarge));
        }
        let count: usize = cells as usize;
        if elevations.len() != count {
            return Err(
                TerrainError::Fetch(
                    FetchError::Decode {
                        reason: DecodeReason::SampleCount {
                            expected: count,
                            found: elevations.len(),
                        },
                    },
                ),
            );
        }
        let mut vertices: Vec<Vertex> = Vec::new();
        let mut i: usize = 0;
        while i < count
            invariant
                bbox.valid(),
                resolution > 0,
                width == ceil_div(bbox.spec_width(), resolution as int),
                height == ceil_div(bbox.spec_height(), resolution as int),
                (width - 1) * resolution < bbox.spec_width(),
                (height - 1) * resolution < bbox.spec_height(),
                count == width * height,
                count <= u32::MAX,
                elevations@.len() == count,
                i <= count,
                vertices@.len() == i,
                forall|j: int| 0 <= j < i ==> (#[trigger] elevations@[j]) is Some,
                forall|j: int|
                    0 <= j < i ==> #[trigger] vertices@[j] == raster_vertex(
                        *bbox,
                        resolution as int,
                        width as int,
                        j,
                        elevations@[j]->0,
                    ),
            decreases count - i,
        {
            let z: i32 = match elevations[i] {
                Some(z) => z,
                None => {
                    assert(first_missing(elevations@, i as int));
                    return Err(
                        TerrainError::Fetch(
                            FetchError::Decode { reason: DecodeReason::MissingSample { index: i } },
                        ),
                    );
                },
            };
            assert(width > 0) by (nonlinear_arith)
                requires
                    i < width * height,
                    width >= 0,
                    i >= 0,
            ;
            let column: usize = i % width;
            let row: usize = i / width;
            proof {
                let w = width as int;
                let ii = i as int;
                assert(ii == w * (ii / w) + ii % w && 0 <= ii % w < w) by (nonlinear_arith)
                    requires
                        w > 0,
                ;
                assert(row < height) by (nonlinear_arith)
                    requires
                        ii == w * row + column,
                        0 <= column < w,
                        ii < w * height,
                ;
                assert(0 <= column * resolution <= (width - 1) * resolution) by (nonlinear_arith)
                    requires
                        0 <= column <= width - 1,
                        resolution > 0,
                ;
                assert(0 <= row * resolution <= (height - 1) * resolution) by (nonlinear_arith)
                    requires
                        0 <= row <= height - 1,
                        resolution > 0,
                ;
            }
            let x: i64 = bbox.x1 as i64 + (column as i64) * (resolution as i64);
            let y: i64 = bbox.y1 as i64 + (row as i64) * (resolution as i64);
            vertices.push(Vertex::new(x as i32, y as i32, z));
            i = i + 1;
        }
        let indices = grid_indices(width, height);
        proof {
            assert(!exists|i: int| first_missing(elevations@, i));
        }
        Ok(Mesh { indices, vertices })
    }
}

} // verus!
