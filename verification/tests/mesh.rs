use ems_terrain::bbox::BBox;
use ems_terrain::error::{DecodeReason, FetchError, GeometryError, TerrainError};
use ems_terrain::mesh::grid::grid_indices;
use ems_terrain::mesh::{delaunay_triangulation, faces_by_vertex, triangulate_grid, Mesh};
use ems_terrain::providers::grid::construct_grid;
use ems_terrain::providers::Punkt;
use ems_terrain::vertex::Vertex;
use spade::Triangulation;

fn v(x: i32, y: i32, z: i32) -> Vertex {
    Vertex::new(x, y, z)
}

fn position(mesh: &Mesh, k: usize) -> Vertex {
    mesh.vertices[mesh.indices[k] as usize]
}

#[test]
fn a_grid_of_three_by_three_has_eight_triangles() {
    let faces = triangulate_grid(3, 3);
    assert_eq!(faces.len(), 8);
    assert_eq!(
        faces,
        vec![
            [0, 3, 1],
            [1, 3, 4],
            [1, 4, 2],
            [2, 4, 5],
            [3, 6, 4],
            [4, 6, 7],
            [4, 7, 5],
            [5, 7, 8],
        ]
    );
}

#[test]
fn grid_triangles_count_and_stay_in_the_grid() {
    for width in 1usize..7 {
        for height in 1usize..7 {
            let faces = triangulate_grid(width, height);
            assert_eq!(faces.len(), 2 * (width - 1) * (height - 1));
            for face in &faces {
                for corner in face {
                    assert!((*corner as usize) < width * height);
                }
            }
        }
    }
}

#[test]
fn a_grid_without_cells_has_no_triangle() {
    assert!(triangulate_grid(0, 0).is_empty());
    assert!(triangulate_grid(0, 5).is_empty());
    assert!(triangulate_grid(5, 0).is_empty());
    assert!(triangulate_grid(1, 5).is_empty());
    assert!(triangulate_grid(5, 1).is_empty());
}

#[test]
fn every_cell_is_cut_along_the_same_diagonal() {
    let width = 4usize;
    let faces = triangulate_grid(width, 3);
    for cell in 0..faces.len() / 2 {
        let lower = faces[2 * cell];
        let upper = faces[2 * cell + 1];
        let v0 = lower[0];
        assert_eq!(lower, [v0, v0 + width as u32, v0 + 1]);
        assert_eq!(upper, [v0 + 1, v0 + width as u32, v0 + width as u32 + 1]);
    }
}

#[test]
fn a_raster_becomes_a_grid_mesh() {
    let bbox = BBox { x1: 1000, y1: 2000, x2: 2000, y2: 3000 };
    let elevations = vec![Some(10), Some(20), Some(30), Some(-40)];
    let mesh = Mesh::from_geotiff(&elevations, &bbox, 500).unwrap();
    assert_eq!(
        mesh.vertices,
        vec![v(1000, 2000, 10), v(1500, 2000, 20), v(1000, 2500, 30), v(1500, 2500, -40)]
    );
    assert_eq!(mesh.indices, vec![0, 2, 1, 1, 2, 3]);
    assert_eq!(mesh.validate(), Ok(()));
}

#[test]
fn a_raster_of_uneven_extent() {
    let bbox = BBox { x1: 0, y1: 0, x2: 1001, y2: 500 };
    let elevations: Vec<Option<i32>> = (0..3).map(Some).collect();
    let mesh = Mesh::from_geotiff(&elevations, &bbox, 500).unwrap();
    assert_eq!(mesh.vertices, vec![v(0, 0, 0), v(500, 0, 1), v(1000, 0, 2)]);
    assert!(mesh.indices.is_empty());
}

#[test]
fn a_raster_with_the_wrong_number_of_samples_is_refused() {
    let bbox = BBox { x1: 0, y1: 0, x2: 1000, y2: 1000 };
    let elevations = vec![Some(1), Some(2), Some(3)];
    assert_eq!(
        Mesh::from_geotiff(&elevations, &bbox, 500).unwrap_err(),
        TerrainError::Fetch(FetchError::Decode {
            reason: DecodeReason::SampleCount { expected: 4, found: 3 }
        })
    );
}

#[test]
fn a_raster_with_a_hole_is_refused_at_the_first_hole() {
    let bbox = BBox { x1: 0, y1: 0, x2: 1000, y2: 1000 };
    let elevations = vec![Some(1), None, Some(3), None];
    assert_eq!(
        Mesh::from_geotiff(&elevations, &bbox, 500).unwrap_err(),
        TerrainError::Fetch(FetchError::Decode { reason: DecodeReason::MissingSample { index: 1 } })
    );
}

#[test]
fn a_raster_too_large_for_its_indices_is_refused() {
    let bbox = BBox { x1: 0, y1: 0, x2: 10_000_000, y2: 10_000_000 };
    assert_eq!(
        Mesh::from_geotiff(&Vec::new(), &bbox, 1).unwrap_err(),
        TerrainError::Geometry(GeometryError::TooLarge)
    );
}

#[test]
fn an_empty_box_gives_an_empty_mesh() {
    let bbox = BBox { x1: 0, y1: 0, x2: 0, y2: 0 };
    let mesh = Mesh::from_geotiff(&Vec::new(), &bbox, 100).unwrap();
    assert!(mesh.vertices.is_empty());
    assert!(mesh.indices.is_empty());
}

#[test]
fn validate_names_what_is_wrong() {
    let vertices = vec![v(0, 0, 0), v(1, 0, 0), v(0, 1, 0)];
    assert_eq!(Mesh::new(vec![0, 1, 2], vertices.clone()).validate(), Ok(()));
    assert_eq!(
        Mesh::new(vec![0, 1], vertices.clone()).validate(),
        Err(GeometryError::PartialTriangle { index_count: 2 })
    );
    assert_eq!(
        Mesh::new(vec![0, 1, 2, 0, 3, 9], vertices).validate(),
        Err(GeometryError::IndexOutOfRange { at: 4 })
    );
    assert_eq!(Mesh::default().validate(), Ok(()));
}

#[test]
fn compact_drops_unused_vertices_and_merges_equal_ones() {
    let a = v(0, 0, 5);
    let b = v(100, 0, 6);
    let c = v(0, 100, 7);
    let unused = v(900, 900, 900);
    let mesh = Mesh::new(vec![4, 1, 2, 2, 1, 0], vec![a, b, c, unused, a]);
    let compacted = mesh.compact();
    assert_eq!(compacted.vertices, vec![a, b, c]);
    assert_eq!(compacted.indices, vec![0, 1, 2, 2, 1, 0]);
    assert_eq!(compacted.validate(), Ok(()));
}

#[test]
fn compact_numbers_vertices_by_first_use() {
    let a = v(1, 1, 1);
    let b = v(2, 2, 2);
    let c = v(3, 3, 3);
    let d = v(4, 4, 4);
    let mesh = Mesh::new(vec![3, 2, 0, 0, 2, 1], vec![a, b, c, d]);
    let compacted = mesh.compact();
    assert_eq!(compacted.vertices, vec![d, c, a, b]);
    assert_eq!(compacted.indices, vec![0, 1, 2, 2, 1, 3]);
}

#[test]
fn compact_keeps_what_every_index_denotes() {
    let faces = triangulate_grid(4, 4);
    let mut indices = Vec::new();
    for (n, face) in faces.iter().enumerate() {
        if n % 3 != 1 {
            indices.extend_from_slice(face);
        }
    }
    let vertices: Vec<Vertex> = (0..16).map(|i| v(i % 4 * 100, i / 4 * 100, (i * 7) % 5)).collect();
    let mesh = Mesh::new(indices, vertices);
    let compacted = mesh.compact();
    assert_eq!(compacted.indices.len(), mesh.indices.len());
    assert!(compacted.vertices.len() <= mesh.vertices.len());
    for k in 0..mesh.indices.len() {
        assert_eq!(position(&compacted, k), position(&mesh, k));
    }
    let mut before: Vec<(i32, i32, i32)> =
        (0..mesh.indices.len()).map(|k| position(&mesh, k)).map(|p| (p.x, p.y, p.z)).collect();
    let mut after: Vec<(i32, i32, i32)> = (0..compacted.indices.len())
        .map(|k| position(&compacted, k))
        .map(|p| (p.x, p.y, p.z))
        .collect();
    before.sort();
    before.dedup();
    after.sort();
    after.dedup();
    assert_eq!(before, after);
    assert_eq!(after.len(), compacted.vertices.len());
}

#[test]
fn compact_of_a_compact_mesh_changes_nothing() {
    let mesh = Mesh::new(vec![0, 1, 2, 2, 1, 3], vec![v(0, 0, 0), v(1, 0, 0), v(0, 1, 0), v(1, 1, 0)]);
    let compacted = mesh.compact();
    assert_eq!(compacted.vertices, mesh.vertices);
    assert_eq!(compacted.indices, mesh.indices);
}

#[test]
fn compact_of_a_mesh_without_triangles_has_no_vertex() {
    let mesh = Mesh::new(Vec::new(), vec![v(0, 0, 0), v(1, 0, 0)]);
    let compacted = mesh.compact();
    assert!(compacted.vertices.is_empty());
    assert!(compacted.indices.is_empty());
    let nothing = Mesh::default().compact();
    assert!(nothing.vertices.is_empty());
}

#[test]
fn simplify_target_rounds_to_the_nearest_count() {
    let mesh = Mesh::new(vec![0; 24], vec![v(0, 0, 0)]);
    assert_eq!(mesh.simplify_target(50), 12);
    assert_eq!(mesh.simplify_target(100), 24);
    assert_eq!(mesh.simplify_target(0), 0);
    assert_eq!(mesh.simplify_target(20), 5);
    assert_eq!(mesh.simplify_target(1), 0);
    assert_eq!(mesh.simplify_target(2), 0);
    assert_eq!(mesh.simplify_target(3), 1);
    let odd = Mesh::new(vec![0; 21], vec![v(0, 0, 0)]);
    assert_eq!(odd.simplify_target(50), 11);
    assert_eq!(odd.simplify_target(10), 2);
}

#[test]
fn simplify_takes_a_valid_index_buffer() {
    let vertices = vec![v(0, 0, 0), v(1, 0, 0), v(0, 1, 0), v(1, 1, 0)];
    let mesh = Mesh::new(vec![0, 1, 2, 2, 1, 3], vertices.clone());
    let simplified = mesh.simplify(vec![0, 1, 3]).unwrap();
    assert_eq!(simplified.vertices, vertices);
    assert_eq!(simplified.indices, vec![0, 1, 3]);
    let emptied = mesh.simplify(Vec::new()).unwrap();
    assert_eq!(emptied.vertices, vertices);
    assert!(emptied.indices.is_empty());
}

#[test]
fn simplify_refuses_what_is_no_mesh() {
    let vertices = vec![v(0, 0, 0), v(1, 0, 0), v(0, 1, 0)];
    let mesh = Mesh::new(vec![0, 1, 2], vertices);
    assert_eq!(
        mesh.simplify(vec![0, 1, 2, 0, 1, 2]).unwrap_err(),
        GeometryError::Grown { index_count: 6 }
    );
    assert_eq!(
        mesh.simplify(vec![0, 1]).unwrap_err(),
        GeometryError::PartialTriangle { index_count: 2 }
    );
    assert_eq!(mesh.simplify(vec![0, 3, 1]).unwrap_err(), GeometryError::IndexOutOfRange { at: 1 });
}

#[test]
fn reduce_simplifies_and_compacts() {
    let a = v(0, 0, 0);
    let b = v(1, 0, 0);
    let c = v(0, 1, 0);
    let d = v(1, 1, 0);
    let mesh = Mesh::new(vec![0, 1, 2, 2, 1, 3], vec![a, b, c, d]);
    let reduced = mesh.reduce(vec![2, 1, 3]).unwrap();
    assert_eq!(reduced.vertices, vec![c, b, d]);
    assert_eq!(reduced.indices, vec![0, 1, 2]);
    assert_eq!(mesh.reduce(vec![0, 1, 4]).unwrap_err(), GeometryError::IndexOutOfRange { at: 2 });
}

fn decimate(mesh: &Mesh, target: usize) -> Vec<u32> {
    let positions: Vec<[f32; 3]> = mesh
        .vertices
        .iter()
        .map(|p| [p.x as f32 / 100.0, p.y as f32 / 100.0, p.z as f32 / 100.0])
        .collect();
    meshopt::simplify_decoder(
        &mesh.indices,
        &positions,
        target,
        5.0,
        meshopt::SimplifyOptions::None,
        None,
    )
}

fn flat_grid(columns: usize, rows: usize) -> Mesh {
    let vertices: Vec<Vertex> = (0..columns * rows)
        .map(|i| v((i % columns) as i32 * 500, (i / columns) as i32 * 500, 0))
        .collect();
    let indices: Vec<u32> = triangulate_grid(columns, rows).into_iter().flatten().collect();
    Mesh::new(indices, vertices)
}

#[test]
fn half_of_a_three_by_three_grid_is_at_most_four_triangles() {
    let mesh = flat_grid(3, 3);
    assert_eq!(mesh.indices.len() / 3, 8);
    let target = mesh.simplify_target(50);
    assert_eq!(target, 12);
    let simplified = mesh.simplify(decimate(&mesh, target)).unwrap();
    assert!(simplified.indices.len() / 3 <= 4);
    assert_eq!(simplified.vertices, mesh.vertices);
    let compacted = simplified.compact();
    assert_eq!(compacted.indices.len(), simplified.indices.len());
    assert!(compacted.vertices.len() <= 9);
    assert_eq!(compacted.validate(), Ok(()));
}

#[test]
fn keeping_everything_keeps_the_index_count() {
    let mut mesh = flat_grid(4, 4);
    for (i, vertex) in mesh.vertices.iter_mut().enumerate() {
        vertex.z = ((i * 37) % 11) as i32 * 100;
    }
    let target = mesh.simplify_target(100);
    assert_eq!(target, mesh.indices.len());
    let reduced = mesh.reduce(decimate(&mesh, target)).unwrap();
    assert_eq!(reduced.indices.len(), mesh.indices.len());
    assert_eq!(reduced.vertices.len(), mesh.vertices.len());
}

#[test]
fn a_triangulation_becomes_a_mesh() {
    let vertices = vec![v(0, 0, 1), v(100, 0, 2), v(0, 100, 3), v(100, 100, 4)];
    let faces = vec![[0usize, 1, 2], [2, 1, 3]];
    let mesh = delaunay_triangulation(vertices.clone(), &faces).unwrap();
    assert_eq!(mesh.vertices, vertices);
    assert_eq!(mesh.indices, vec![0, 1, 2, 2, 1, 3]);
    assert_eq!(mesh.validate(), Ok(()));
}

#[test]
fn a_triangulation_of_scattered_points() {
    let vertices = vec![v(0, 0, 1), v(400, 0, 2), v(0, 300, 3), v(400, 300, 4), v(150, 120, 9)];
    let mut triangulation: spade::DelaunayTriangulation<spade::Point2<f64>> =
        spade::DelaunayTriangulation::new();
    for p in &vertices {
        triangulation.insert(spade::Point2::new(p.x as f64, p.y as f64)).unwrap();
    }
    let faces: Vec<[usize; 3]> =
        triangulation.inner_faces().map(|f| f.vertices().map(|h| h.index())).collect();
    assert_eq!(faces.len(), 4);
    let mesh = delaunay_triangulation(vertices, &faces).unwrap();
    assert_eq!(mesh.indices.len(), 12);
    assert_eq!(mesh.validate(), Ok(()));
}

#[test]
fn a_triangulation_without_points_is_refused() {
    assert_eq!(delaunay_triangulation(Vec::new(), &Vec::new()).unwrap_err(), GeometryError::NoVertices);
}

#[test]
fn a_triangulation_that_names_no_vertex_is_refused() {
    let vertices = vec![v(0, 0, 1), v(100, 0, 2), v(0, 100, 3)];
    let faces = vec![[0usize, 1, 2], [2, 7, 1]];
    assert_eq!(
        delaunay_triangulation(vertices, &faces).unwrap_err(),
        GeometryError::IndexOutOfRange { at: 4 }
    );
}

#[test]
fn a_mesh_in_one_line() {
    let mesh = Mesh::new(vec![0, 1, 2], vec![v(0, 0, 0), v(1, 0, 0), v(0, 1, 0), v(5, 5, 5)]);
    assert_eq!(mesh.summary(), "Mesh { vertices: 4, indices: 3 }");
    assert_eq!(Mesh::default().summary(), "Mesh { vertices: 0, indices: 0 }");
}

#[test]
fn the_default_vertex_is_the_origin() {
    assert_eq!(Vertex::default(), v(0, 0, 0));
    assert_eq!(v(1, 2, 3), Vertex { x: 1, y: 2, z: 3 });
}

#[test]
fn compact_on_many_meshes() {
    let mut seed: u64 = 0x2545_f491_4f6c_dd1d;
    let mut next = move |bound: u64| {
        seed ^= seed << 13;
        seed ^= seed >> 7;
        seed ^= seed << 17;
        seed % bound
    };
    for round in 0..200 {
        let vertex_count = 1 + next(12) as usize;
        let triangle_count = next(10) as usize;
        let vertices: Vec<Vertex> =
            (0..vertex_count).map(|_| v(next(3) as i32, next(2) as i32, next(2) as i32)).collect();
        let indices: Vec<u32> =
            (0..3 * triangle_count).map(|_| next(vertex_count as u64) as u32).collect();
        let mesh = Mesh::new(indices, vertices);
        let compacted = mesh.compact();
        assert_eq!(compacted.validate(), Ok(()), "round {}", round);
        assert_eq!(compacted.indices.len(), mesh.indices.len());
        let mut firsts: Vec<Vertex> = Vec::new();
        for k in 0..mesh.indices.len() {
            let p = position(&mesh, k);
            assert_eq!(position(&compacted, k), p);
            let place = match firsts.iter().position(|q| *q == p) {
                Some(place) => place,
                None => {
                    firsts.push(p);
                    firsts.len() - 1
                }
            };
            assert_eq!(compacted.indices[k] as usize, place);
        }
        assert_eq!(compacted.vertices, firsts);
    }
}

#[test]
fn the_error_ceiling_is_five_extents() {
    assert_eq!(ems_terrain::mesh::ERROR_CEILING, 500);
}

#[test]
fn faces_are_renamed_to_the_first_vertex_at_each_place() {
    let places = vec![0usize, 1, 0, 2, 1, 3];
    let faces = vec![[0usize, 1, 2], [2, 1, 3]];
    assert_eq!(faces_by_vertex(&places, &faces), Some(vec![[0, 1, 3], [3, 1, 5]]));
    assert_eq!(faces_by_vertex(&places, &Vec::new()), Some(Vec::new()));
    let same = vec![0usize, 1, 2];
    assert_eq!(faces_by_vertex(&same, &vec![[2, 0, 1]]), Some(vec![[2, 0, 1]]));
}

#[test]
fn a_face_at_a_place_without_vertex_is_not_renamed() {
    let places = vec![0usize, 1, 0, 2];
    assert_eq!(faces_by_vertex(&places, &vec![[0, 1, 3]]), None);
    assert_eq!(faces_by_vertex(&places, &vec![[0, 1, 2], [0, 9, 1]]), None);
    assert_eq!(faces_by_vertex(&vec![7usize], &vec![[7, 7, 7]]), None);
    assert_eq!(faces_by_vertex(&Vec::new(), &vec![[0, 0, 0]]), None);
}

#[test]
fn a_triangulation_of_points_that_coincide() {
    let vertices = vec![v(0, 0, 1), v(400, 0, 2), v(0, 0, 8), v(0, 300, 3), v(400, 300, 4)];
    let mut triangulation: spade::DelaunayTriangulation<spade::Point2<f64>> =
        spade::DelaunayTriangulation::new();
    let places: Vec<usize> = vertices
        .iter()
        .map(|p| triangulation.insert(spade::Point2::new(p.x as f64, p.y as f64)).unwrap().index())
        .collect();
    assert_eq!(places, vec![0, 1, 0, 2, 3]);
    let faces: Vec<[usize; 3]> =
        triangulation.inner_faces().map(|f| f.vertices().map(|h| h.index())).collect();
    let renamed = faces_by_vertex(&places, &faces).unwrap();
    let mesh = delaunay_triangulation(vertices.clone(), &renamed).unwrap();
    assert_eq!(mesh.indices.len(), 6);
    for k in 0..mesh.indices.len() {
        assert_ne!(mesh.indices[k], 2);
    }
    let compacted = mesh.compact();
    assert_eq!(compacted.vertices.len(), 4);
}

#[test]
fn the_index_buffer_of_a_grid() {
    assert_eq!(grid_indices(2, 2), vec![0, 2, 1, 1, 2, 3]);
    assert_eq!(grid_indices(3, 2), vec![0, 3, 1, 1, 3, 4, 1, 4, 2, 2, 4, 5]);
    assert!(grid_indices(1, 9).is_empty());
    let flat: Vec<u32> = triangulate_grid(5, 4).into_iter().flatten().collect();
    assert_eq!(grid_indices(5, 4), flat);
}

#[test]
fn samples_become_a_grid_mesh() {
    let grid = construct_grid(0, 1000, 0, 1000, 500).unwrap();
    let samples: Vec<Punkt> = grid
        .points
        .iter()
        .enumerate()
        .map(|(i, p)| Punkt { z: Some(i as i32 * 10), ..*p })
        .collect();
    let mesh = Mesh::build(&samples, grid.columns, grid.rows).unwrap();
    assert_eq!(mesh.vertices.len(), 9);
    assert_eq!(mesh.indices.len() / 3, 8);
    assert_eq!(mesh.vertices[0], v(0, 1000, 0));
    assert_eq!(mesh.vertices[4], v(500, 500, 40));
    assert_eq!(mesh.vertices[8], v(1000, 0, 80));
    assert_eq!(mesh.indices, grid_indices(3, 3));
    assert_eq!(mesh.validate(), Ok(()));
    for (triangle, face) in grid.generate_triangle_indices().iter().zip(mesh.indices.chunks(3)) {
        let mut counted_from_one = vec![triangle.v1 - 1, triangle.v2 - 1, triangle.v3 - 1];
        let mut counted_from_zero: Vec<usize> = face.iter().map(|i| *i as usize).collect();
        counted_from_one.sort();
        counted_from_zero.sort();
        assert_eq!(counted_from_one, counted_from_zero);
    }
}

#[test]
fn samples_that_do_not_fill_the_grid_are_refused() {
    let sample = Punkt { x: Some(0), y: Some(0), z: Some(0) };
    assert_eq!(
        Mesh::build(&vec![sample; 5], 2, 3).unwrap_err(),
        TerrainError::Fetch(FetchError::Decode {
            reason: DecodeReason::SampleCount { expected: 6, found: 5 }
        })
    );
    assert_eq!(
        Mesh::build(&Vec::new(), 1 << 16, 1 << 16).unwrap_err(),
        TerrainError::Geometry(GeometryError::TooLarge)
    );
    assert_eq!(
        Mesh::build(&Vec::new(), usize::MAX, usize::MAX).unwrap_err(),
        TerrainError::Geometry(GeometryError::TooLarge)
    );
    let empty = Mesh::build(&Vec::new(), 0, 7).unwrap();
    assert!(empty.vertices.is_empty() && empty.indices.is_empty());
}

#[test]
fn a_sample_without_elevation_is_refused() {
    let whole = Punkt { x: Some(1), y: Some(2), z: Some(3) };
    let samples =
        vec![whole, whole, Punkt { z: None, ..whole }, Punkt { x: None, ..whole }];
    assert_eq!(
        Mesh::build(&samples, 2, 2).unwrap_err(),
        TerrainError::Fetch(FetchError::Decode { reason: DecodeReason::MissingSample { index: 2 } })
    );
}
