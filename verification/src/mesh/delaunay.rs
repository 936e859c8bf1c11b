//! Meshes of unstructured triangulations.
//!
//! The triangulation itself works on floating-point coordinates and is not
//! done here. This module makes a mesh of the faces that it found.

use crate::error::GeometryError;
use crate::mesh::Mesh;
use crate::vertex::Vertex;
use vstd::prelude::*;

verus! {

/// Whether `i` is the first vertex whose position a triangulation holds
/// under the number `h`, where `places` gives that number for every vertex.
pub open spec fn first_at(places: Seq<usize>, h: int, i: int) -> bool {
    &&& 0 <= i < places.len()
    &&& places[i] == h
    &&& forall|j: int| 0 <= j < i ==> (#[trigger] places[j]) != h
}

/// Whether a triangulation of `places.len()` vertices can hold a position
/// under the number `h`: the number is below the vertex count, and some
/// vertex has it.
pub open spec fn is_held(places: Seq<usize>, h: int) -> bool {
    0 <= h < places.len() && exists|i: int| first_at(places, h, i)
}

/// Renames the corners of a triangulation's faces from the numbers under
/// which the triangulation holds positions to the vertices at them.
///
/// `places[i]` is the number of the position of vertex `i`; vertices at one
/// position share a number, and the first of them stands for it. `None`
/// where a corner's number is held by no vertex.
pub fn faces_by_vertex(places: &Vec<usize>, faces: &Vec<[usize; 3]>) -> (r: Option<
    Vec<[usize; 3]>,
>)
    ensures
        r is Some <==> forall|f: int, corner: int|
            0 <= f < faces@.len() && 0 <= corner < 3 ==> is_held(
                places@,
                (#[trigger] faces@[f]@[corner]) as int,
            ),
        r matches Some(renamed) ==> {
            &&& renamed@.len() == faces@.len()
            &&& forall|f: int, corner: int|
                0 <= f < faces@.len() && 0 <= corner < 3 ==> first_at(
                    places@,
                    faces@[f]@[corner] as int,
                    (#[trigger] renamed@[f]@[corner]) as int,
                )
        },
{
    let count: usize = places.len();
    // the first vertex at each number, or `count` where there is none yet
    let mut firsts: Vec<usize> = Vec::new();
    let mut h: usize = 0;
    while h < count
        invariant
            h <= count,
            firsts@.len() == h,
            forall|k: int| 0 <= k < h ==> #[trigger] firsts@[k] == count,
        decreases count - h,
    {
        firsts.push(count);
        h = h + 1;
    }
    let mut i: usize = 0;
    while i < count
        invariant
            i <= count,
            count == places@.len(),
            firsts@.len() == count,
            forall|k: int|
                0 <= k < count ==> if (#[trigger] firsts@[k]) == count {
                    forall|j: int| 0 <= j < i ==> (#[trigger] places@[j]) != k
                } else {
                    first_at(places@, k, firsts@[k] as int) && firsts@[k] < i
                },
        decreases count - i,
    {
        let number: usize = places[i];
        if number < count && firsts[number] == count {
            firsts.set(number, i);
        }
        i = i + 1;
    }
    let mut renamed: Vec<[usize; 3]> = Vec::new();
    let mut f: usize = 0;
    while f < faces.len()
        invariant
            f <= faces@.len(),
            count == places@.len(),
            firsts@.len() == count,
            forall|k: int|
                0 <= k < count ==> if (#[trigger] firsts@[k]) == count {
                    forall|j: int| 0 <= j < count ==> (#[trigger] places@[j]) != k
                } else {
                    first_at(places@, k, firsts@[k] as int)
                },
            renamed@.len() == f,
            forall|g: int, corner: int|
                0 <= g < f && 0 <= corner < 3 ==> is_held(
                    places@,
                    (#[trigger] faces@[g]@[corner]) as int,
                ),
            forall|g: int, corner: int|
                0 <= g < f && 0 <= corner < 3 ==> first_at(
                    places@,
                    faces@[g]@[corner] as int,
                    (#[trigger] renamed@[g]@[corner]) as int,
                ),
        decreases faces.len() - f,
    {
        let face = faces[f];
        let mut corner: usize = 0;
        while corner < 3
            invariant
                f < faces@.len(),
                face == faces@[f as int],
                corner <= 3,
                count == places@.len(),
                firsts@.len() == count,
                forall|k: int|
                    0 <= k < count ==> if (#[trigger] firsts@[k]) == count {
                        forall|j: int| 0 <= j < count ==> (#[trigger] places@[j]) != k
                    } else {
                        first_at(places@, k, firsts@[k] as int)
                    },
                forall|c: int|
                    0 <= c < corner ==> (#[trigger] face@[c]) < count && firsts@[face@[c] as int]
                        < count,
            decreases 3 - corner,
        {
            let number: usize = face[corner];
            if number >= count || firsts[number] == count {
                proof {
                    if is_held(places@, number as int) {
                        let held = choose|held: int| first_at(places@, number as int, held);
                        assert(places@[held] == number);
                        assert(firsts@[number as int] == count);
                    }
                    assert(!is_held(places@, faces@[f as int]@[corner as int] as int));
                }
                return None;
            }
            corner = corner + 1;
        }
        let ghost before = renamed@;
        renamed.push([firsts[face[0]], firsts[face[1]], firsts[face[2]]]);
        proof {
            assert(face@[0] < count && face@[1] < count && face@[2] < count);
            assert forall|g: int, c: int| 0 <= g < f + 1 && 0 <= c < 3 implies first_at(
                places@,
                faces@[g]@[c] as int,
                (#[trigger] renamed@[g]@[c]) as int,
            ) by {
                if g < f {
                    assert(renamed@[g] == before[g]);
                } else {
                    assert(renamed@[g]@ =~= seq![
                        firsts@[face@[0] as int],
                        firsts@[face@[1] as int],
                        firsts@[face@[2] as int],
                    ]);
                    assert(face@[c] < count);
                }
            }
            assert forall|g: int, c: int| 0 <= g < f + 1 && 0 <= c < 3 implies is_held(
                places@,
                (#[trigger] faces@[g]@[c]) as int,
            ) by {
                if g == f {
                    assert(face@[c] < count);
                    assert(first_at(places@, face@[c] as int, firsts@[face@[c] as int] as int));
                }
            }
        }
        f = f + 1;
    }
    Some(renamed)
}

/// The mesh of an unstructured triangulation: `vertices` with the
/// triangles `faces` that a Delaunay triangulation of their `x` and `y`
/// found, each face naming its three corners in `vertices`.
///
/// Fails without vertices, with more vertices than 32-bit indices can
/// name or more corners than an index buffer can hold, and on the first
/// corner that names no vertex.
pub fn delaunay_triangulation(vertices: Vec<Vertex>, faces: &Vec<[usize; 3]>) -> (r: Result<
    Mesh,
    GeometryError,
>)
    ensures
        r is Ok <==> 0 < vertices@.len() <= u32::MAX && 3 * faces@.len() <= usize::MAX
            && forall|f: int, corner: int|
            0 <= f < faces@.len() && 0 <= corner < 3 ==> (#[trigger] faces@[f]@[corner])
                < vertices@.len(),
        r matches Ok(mesh) ==> {
            &&& mesh.wf()
            &&& mesh.vertices@ == vertices@
            &&& mesh.indices@.len() == 3 * faces@.len()
            &&& forall|f: int, corner: int|
                0 <= f < faces@.len() && 0 <= corner < 3 ==> #[trigger] mesh.indices@[3 * f
                    + corner] == faces@[f]@[corner]
        },
        r matches Err(e) ==> match e {
            GeometryError::NoVertices => vertices@.len() == 0,
            GeometryError::TooLarge => vertices@.len() > u32::MAX || 3 * faces@.len()
                > usize::MAX,
            GeometryError::IndexOutOfRange { at } => {
                &&& 0 < vertices@.len() <= u32::MAX
                &&& at < 3 * faces@.len() <= usize::MAX
                &&& faces@[at as int / 3]@[at as int % 3] >= vertices@.len()
                &&& forall|f: int, corner: int|
                    0 <= f && 0 <= corner < 3 && 3 * f + corner < at ==> (
                    #[trigger] faces@[f]@[corner]) < vertices@.len()
            },
            _ => false,
        },
{
    if vertices.len() == 0 {
        return Err(GeometryError::NoVertices);
    }
    if vertices.len() > u32::MAX as usize || faces.len() > usize::MAX / 3 {
        return Err(GeometryError::TooLarge);
    }
    let mut indices: Vec<u32> = Vec::new();
    let mut f: usize = 0;
    while f < faces.len()
        invariant
            f <= faces@.len(),
            3 * faces@.len() <= usize::MAX,
            0 < vertices@.len() <= u32::MAX,
            indices@.len() == 3 * f,
            forall|j: int, corner: int|
                0 <= j < f && 0 <= corner < 3 ==> (#[trigger] faces@[j]@[corner]) < vertices@.len(),
            forall|j: int, corner: int|
                0 <= j < f && 0 <= corner < 3 ==> #[trigger] indices@[3 * j + corner]
                    == faces@[j]@[corner],
        decreases faces.len() - f,
    {
        let face = faces[f];
        let mut corner: usize = 0;
        while corner < 3
            invariant
                f < faces@.len(),
                3 * faces@.len() <= usize::MAX,
                face == faces@[f as int],
                corner <= 3,
                0 < vertices@.len() <= u32::MAX,
                forall|c: int| 0 <= c < corner ==> (#[trigger] face@[c]) < vertices@.len(),
                forall|j: int, c: int|
                    0 <= j < f && 0 <= c < 3 ==> (#[trigger] faces@[j]@[c]) < vertices@.len(),
            decreases 3 - corner,
        {
            if face[corner] >= vertices.len() {
                let at: usize = 3 * f + corner;
                assert(at as int / 3 == f && at as int % 3 == corner);
                assert forall|j: int, c: int| 0 <= j && 0 <= c < 3 && 3 * j + c < at implies (
                #[trigger] faces@[j]@[c]) < vertices@.len() by {
                    if j == f {
                        assert(face@[c] < vertices@.len());
                    }
                }
                return Err(GeometryError::IndexOutOfRange { at });
            }
            corner = corner + 1;
        }
        let ghost before = indices@;
        indices.push(face[0] as u32);
        indices.push(face[1] as u32);
        indices.push(face[2] as u32);
        proof {
            assert forall|j: int, c: int| 0 <= j < f + 1 && 0 <= c < 3 implies
                #[trigger] indices@[3 * j + c] == faces@[j]@[c] by {
                if j < f {
                    assert(indices@[3 * j + c] == before[3 * j + c]);
                }
            }
        }
        f = f + 1;
    }
    proof {
        assert forall|p: int| 0 <= p < indices@.len() implies (#[trigger] indices@[p])
            < vertices@.len() by {
            let j = p / 3;
            let c = p % 3;
            assert(indices@[3 * j + c] == faces@[j]@[c]);
        }
    }
    Ok(Mesh { indices, vertices })
}

} // verus!
