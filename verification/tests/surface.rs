use ems_terrain::mesh::Mesh;
use ems_terrain::processing::surface::{apply_gaussian_blur, blur_elevations, Kernel, PostProcessParams};
use ems_terrain::processing::{CompressionParams, FilterParams};
use ems_terrain::vertex::Vertex;

fn box_kernel(radius: usize) -> Kernel {
    let side = 2 * radius + 1;
    Kernel::new(radius, vec![1; side * side]).unwrap()
}

#[test]
fn a_kernel_fills_its_square() {
    assert!(Kernel::new(0, vec![1]).is_some());
    assert!(Kernel::new(1, vec![1; 9]).is_some());
    assert!(Kernel::new(2, vec![3; 25]).is_some());
    assert!(Kernel::new(1, vec![1; 8]).is_none());
    assert!(Kernel::new(1, vec![1; 10]).is_none());
    assert!(Kernel::new(0, Vec::new()).is_none());
    assert_eq!(Kernel::new(2, vec![3; 25]).unwrap().radius(), 2);
}

#[test]
fn a_kernel_needs_a_positive_sum_that_fits() {
    assert!(Kernel::new(1, vec![0; 9]).is_none());
    assert!(Kernel::new(1, vec![0, 0, 0, 0, 1, 0, 0, 0, 0]).is_some());
    assert!(Kernel::new(1, vec![u32::MAX; 9]).is_some());
    assert!(Kernel::new(usize::MAX, vec![1; 9]).is_none());
}

#[test]
fn a_flat_field_stays_flat() {
    let z = vec![1234; 7 * 5];
    for radius in 0..4 {
        let kernel = Kernel::new(radius, (1..=((2 * radius + 1) * (2 * radius + 1)) as u32).collect())
            .unwrap();
        for passes in 0..4 {
            assert_eq!(blur_elevations(&z, 7, 5, &kernel, passes), z);
        }
    }
    let low = vec![i32::MIN; 9];
    assert_eq!(blur_elevations(&low, 3, 3, &box_kernel(1), 2), low);
    let high = vec![i32::MAX; 9];
    assert_eq!(blur_elevations(&high, 3, 3, &box_kernel(1), 2), high);
}

#[test]
fn the_middle_becomes_the_mean_and_the_border_stays() {
    let z = vec![0, 0, 0, 0, 900, 0, 0, 0, 0];
    let out = blur_elevations(&z, 3, 3, &box_kernel(1), 1);
    assert_eq!(out, vec![0, 0, 0, 0, 100, 0, 0, 0, 0]);
}

#[test]
fn the_mean_is_rounded_to_the_nearest_hundredth() {
    let kernel = box_kernel(1);
    assert_eq!(blur_elevations(&vec![0, 0, 0, 0, 4, 0, 0, 0, 0], 3, 3, &kernel, 1)[4], 0);
    assert_eq!(blur_elevations(&vec![0, 0, 0, 0, 5, 0, 0, 0, 0], 3, 3, &kernel, 1)[4], 1);
    assert_eq!(blur_elevations(&vec![0, 0, 0, 0, -4, 0, 0, 0, 0], 3, 3, &kernel, 1)[4], 0);
    assert_eq!(blur_elevations(&vec![0, 0, 0, 0, -5, 0, 0, 0, 0], 3, 3, &kernel, 1)[4], -1);
    assert_eq!(blur_elevations(&vec![0, 0, 0, 0, -14, 0, 0, 0, 0], 3, 3, &kernel, 1)[4], -2);
    let halves = Kernel::new(1, vec![0, 0, 0, 1, 1, 0, 0, 0, 0]).unwrap();
    assert_eq!(blur_elevations(&vec![0, 0, 0, 1, 2, 0, 0, 0, 0], 3, 3, &halves, 1)[4], 2);
    assert_eq!(blur_elevations(&vec![0, 0, 0, -1, -2, 0, 0, 0, 0], 3, 3, &halves, 1)[4], -1);
}

#[test]
fn weights_count_by_their_share() {
    let kernel = Kernel::new(1, vec![0, 0, 0, 1, 2, 1, 0, 0, 0]).unwrap();
    let z = vec![7, 7, 7, 100, 200, 400, 9, 9, 9];
    let out = blur_elevations(&z, 3, 3, &kernel, 1);
    assert_eq!(out, vec![7, 7, 7, 100, 225, 400, 9, 9, 9]);
}

#[test]
fn every_cell_reads_the_pass_before() {
    let kernel = box_kernel(1);
    let z: Vec<i32> = vec![
        0, 0, 0, 0, //
        0, 900, 0, 0, //
        0, 0, 0, 0, //
    ];
    let once = blur_elevations(&z, 4, 3, &kernel, 1);
    assert_eq!(once, vec![0, 0, 0, 0, 0, 100, 100, 0, 0, 0, 0, 0]);
    let twice = blur_elevations(&z, 4, 3, &kernel, 2);
    assert_eq!(twice, vec![0, 0, 0, 0, 0, 22, 22, 0, 0, 0, 0, 0]);
    assert_eq!(blur_elevations(&once, 4, 3, &kernel, 1), twice);
    assert_eq!(blur_elevations(&z, 4, 3, &kernel, 0), z);
}

#[test]
fn a_grid_smaller_than_the_kernel_is_left_alone() {
    let z: Vec<i32> = (0..12).collect();
    assert_eq!(blur_elevations(&z, 4, 3, &box_kernel(2), 3), z);
    assert_eq!(blur_elevations(&z, 12, 1, &box_kernel(1), 3), z);
    assert_eq!(blur_elevations(&Vec::new(), 0, 0, &box_kernel(1), 3), Vec::<i32>::new());
}

#[test]
fn a_kernel_of_one_weight_changes_nothing() {
    let z: Vec<i32> = (0..20).map(|i| i * i - 50).collect();
    assert_eq!(blur_elevations(&z, 5, 4, &Kernel::new(0, vec![17]).unwrap(), 2), z);
}

#[test]
fn blur_moves_elevations_only() {
    let vertices: Vec<Vertex> =
        (0..9).map(|i| Vertex::new(i % 3 * 100, i / 3 * 100, if i == 4 { 900 } else { 0 })).collect();
    let mesh = Mesh::new(vec![0, 3, 1, 1, 3, 4], vertices.clone());
    let smoothed = apply_gaussian_blur(&mesh, 3, 3, &box_kernel(1), 1);
    assert_eq!(smoothed.indices, mesh.indices);
    assert_eq!(smoothed.vertices.len(), 9);
    for i in 0..9 {
        assert_eq!(smoothed.vertices[i].x, vertices[i].x);
        assert_eq!(smoothed.vertices[i].y, vertices[i].y);
        assert_eq!(smoothed.vertices[i].z, if i == 4 { 100 } else { 0 });
    }
    assert_eq!(mesh.vertices, vertices);
}

#[test]
fn the_radius_in_pixels_rounds_up() {
    let params = PostProcessParams::default();
    assert_eq!(params.radius_in_px(100), 1);
    assert_eq!(params.radius_in_px(30), 4);
    assert_eq!(params.radius_in_px(500), 1);
    assert_eq!(PostProcessParams { radius: 0, ..params }.radius_in_px(100), 0);
    let filter = FilterParams::default();
    assert_eq!(filter.radius_in_px(100), 1);
    assert_eq!(filter.radius_in_px(99), 2);
}

#[test]
fn the_default_parameters() {
    assert_eq!(
        PostProcessParams::default(),
        PostProcessParams { compression_factor: 50, radius: 100, sigma: 50, passes: 2 }
    );
    assert_eq!(FilterParams::default(), FilterParams { radius: 100, sigma: 50, passes: 2 });
    assert_eq!(CompressionParams::default(), CompressionParams { compression_factor: 50 });
}

#[test]
fn the_kernel_of_the_parameters_reaches_the_radius() {
    let params = PostProcessParams::default();
    assert_eq!(params.kernel(100, vec![1; 9]).unwrap().radius(), 1);
    assert_eq!(params.kernel(50, vec![1; 25]).unwrap().radius(), 2);
    assert!(params.kernel(50, vec![1; 9]).is_none());
    assert!(params.kernel(100, vec![0; 9]).is_none());
    let point = PostProcessParams { radius: 0, ..params };
    assert_eq!(point.kernel(100, vec![5]).unwrap().radius(), 0);
}
