use ems_terrain::bbox::BBox;
use ems_terrain::fixed::ceil_div_u32;

#[test]
fn pixel_counts_round_up() {
    let bbox = BBox { x1: 0, y1: 0, x2: 1000, y2: 700 };
    assert_eq!(bbox.width(), 1000);
    assert_eq!(bbox.height(), 700);
    assert_eq!(bbox.num_pixels_x(500), 2);
    assert_eq!(bbox.num_pixels_x(300), 4);
    assert_eq!(bbox.num_pixels_y(300), 3);
    assert_eq!(bbox.num_pixels_y(700), 1);
    assert_eq!(bbox.num_pixels_y(701), 1);
}

#[test]
fn pixel_counts_cover_the_box_and_no_more() {
    let bbox = BBox { x1: -250, y1: 10, x2: 1234, y2: 4321 };
    for resolution in [1u32, 7, 33, 100, 999, 5000] {
        let nx = bbox.num_pixels_x(resolution) as u64;
        let ny = bbox.num_pixels_y(resolution) as u64;
        assert!(nx * resolution as u64 >= bbox.width() as u64);
        assert!((nx - 1) * (resolution as u64) < bbox.width() as u64);
        assert!(ny * resolution as u64 >= bbox.height() as u64);
        assert!((ny - 1) * (resolution as u64) < bbox.height() as u64);
    }
}

#[test]
fn an_empty_box_holds_no_pixel() {
    let bbox = BBox { x1: 5, y1: 5, x2: 5, y2: 5 };
    assert_eq!(bbox.num_pixels_x(100), 0);
    assert_eq!(bbox.num_pixels_y(100), 0);
}

#[test]
fn the_default_box_at_one_metre() {
    let bbox = BBox::default();
    assert!(bbox.is_valid());
    assert_eq!(bbox, BBox { x1: 11_278_200, y1: 121_701_200, x2: 11_297_100, y2: 121_716_600 });
    assert_eq!(bbox.num_pixels_x(100), 189);
    assert_eq!(bbox.num_pixels_y(100), 154);
}

#[test]
fn corners_out_of_order_make_no_box() {
    assert_eq!(BBox::new(0, 0, 10, 10), Some(BBox { x1: 0, y1: 0, x2: 10, y2: 10 }));
    assert_eq!(BBox::new(10, 0, 0, 10), None);
    assert_eq!(BBox::new(0, 10, 10, 0), None);
    assert!(!BBox { x1: 1, y1: 0, x2: 0, y2: 0 }.is_valid());
}

#[test]
fn the_widest_box_fits() {
    let bbox = BBox { x1: i32::MIN, y1: i32::MIN, x2: i32::MAX, y2: i32::MAX };
    assert_eq!(bbox.width(), u32::MAX);
    assert_eq!(bbox.num_pixels_x(1), u32::MAX as usize);
    assert_eq!(bbox.num_pixels_x(u32::MAX), 1);
}

#[test]
fn ceiling_division() {
    assert_eq!(ceil_div_u32(0, 3), 0);
    assert_eq!(ceil_div_u32(1, 3), 1);
    assert_eq!(ceil_div_u32(3, 3), 1);
    assert_eq!(ceil_div_u32(4, 3), 2);
    assert_eq!(ceil_div_u32(u32::MAX, 1), u32::MAX);
    assert_eq!(ceil_div_u32(u32::MAX, 2), 0x8000_0000);
}
