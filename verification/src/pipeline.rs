//! From a request to its document.

use crate::bbox::BBox;
use crate::export::ifc::{prologue_text, IfcWriter, FOOTER, PROPERTIES};
use crate::export::{metadata_or_default, ProjectMetadata};
use crate::mesh::grid::grid_triangle_count;
use crate::providers::grid::{point_list_text, point_triangle, triangle_list_text, Grid};
use crate::providers::Punkt;
use vstd::prelude::*;

verus! {

/// The box of `width` by `height` around the centre `(xc, yc)`, if its
/// corners can be held. An odd extent gives its odd hundredth to the
/// upper side.
pub fn box_around(xc: i32, yc: i32, width: u32, height: u32) -> (bbox: Option<BBox>)
    ensures
        ({
            let x1 = xc - width / 2;
            let y1 = yc - height / 2;
            if i32::MIN <= x1 && x1 + width <= i32::MAX && i32::MIN <= y1 && y1 + height
                <= i32::MAX {
                bbox == Some(
                    BBox {
                        x1: x1 as i32,
                        y1: y1 as i32,
                        x2: (x1 + width) as i32,
                        y2: (y1 + height) as i32,
                    },
                )
            } else {
                bbox is None
            }
        }),
        bbox matches Some(b) ==> b.valid() && b.spec_width() == width && b.spec_height() == height,
{
    let x1: i64 = xc as i64 - (width / 2) as i64;
    let y1: i64 = yc as i64 - (height / 2) as i64;
    let x2: i64 = x1 + width as i64;
    let y2: i64 = y1 + height as i64;
    if x1 < i32::MIN as i64 || x2 > i32::MAX as i64 || y1 < i32::MIN as i64 || y2 > i32::MAX as i64 {
        None
    } else {
        Some(BBox { x1: x1 as i32, y1: y1 as i32, x2: x2 as i32, y2: y2 as i32 })
    }
}

/// The triangles of a grid of points, as its document lists them.
pub open spec fn grid_triangles(grid: Grid) -> Seq<crate::providers::grid::TriangleCoord> {
    Seq::new(
        grid_triangle_count(grid.columns as int, grid.rows as int) as nat,
        |k: int| point_triangle(grid.columns as int, k),
    )
}

/// Writes the document of a point grid and the elevations fetched for it:
/// the envelope, stamped with the time of the call, the properties, the
/// grid's triangles, the points as they were answered, and the closing.
pub fn generate(grid: &Grid, punkter: &Vec<Punkt>, project_metadata: Option<ProjectMetadata>) -> (file:
    Vec<u8>)
    requires
        grid.wf(),
    ensures
        exists|now: Seq<char>|
            file@ == vstd::utf8::encode_utf8(
                #[trigger] prologue_text(metadata_or_default(project_metadata), now) + PROPERTIES@
                    + triangle_list_text(grid_triangles(*grid)) + point_list_text(punkter@)
                    + FOOTER@,
            ),
{
    let mut writer = IfcWriter::new(project_metadata);
    writer.add_properties();
    let triangles = grid.generate_triangle_indices();
    assert(triangles@ =~= grid_triangles(*grid));
    writer.add_points(&triangles, punkter);
    writer.finish()
}

} // verus!
