//! The raster service: what to ask it for, and where to read its answer.

use crate::bbox::BBox;
use crate::error::GeometryError;
use crate::fixed::{ceil_div, lemma_ceil_div_covers};
use crate::providers::Punkt;
use crate::text::{decimal, push_decimal, push_shortest, shortest};
use vstd::prelude::*;
use vstd::string::*;

verus! {

/// Pixels of margin that a request adds on every side of the box, so that
/// smoothing finds neighbours at the box's edge.
pub const PADDING_PIXELS: u32 = 5;

/// The address of the raster service up to the reference system's code.
pub const COVERAGE_OPEN: &'static str =
    "http://wcs.geonorge.no/skwms1/wcs.hoyde-dtm_somlos?SERVICE=WCS&VERSION=1.0.0&REQUEST=GetCoverage&COVERAGE=las_dtm&CRS=EPSG:";

/// Before the four corners of the box.
pub const COVERAGE_BBOX: &'static str = "&BBOX=";

/// Before the number of pixels in a row.
pub const COVERAGE_WIDTH: &'static str = "&WIDTH=";

/// Before the number of rows.
pub const COVERAGE_HEIGHT: &'static str = "&HEIGHT=";

/// The format of the answer.
pub const COVERAGE_CLOSE: &'static str = "&FORMAT=GeoTIFF";

/// The raster service at one resolution and in one reference system.
#[derive(Clone, Copy, Debug, PartialEq, Eq, Structural)]
pub struct TerrainProvider {
    /// Size of a pixel, in hundredths of a metre.
    pub resolution: u32,
    /// Code of the coordinate reference system.
    pub crs: usize,
}

/// The address that asks for the raster of `bbox` with its margin, at as
/// many pixels as the box itself holds.
pub open spec fn coverage_text(provider: TerrainProvider, bbox: BBox) -> Seq<char> {
    let padding = PADDING_PIXELS * provider.resolution;
    COVERAGE_OPEN@ + decimal(provider.crs as nat) + COVERAGE_BBOX@ + shortest(bbox.x1 - padding)
        + ","@ + shortest(bbox.y1 - padding) + ","@ + shortest(bbox.x2 + padding) + ","@
        + shortest(bbox.y2 + padding) + COVERAGE_WIDTH@ + decimal(
        ceil_div(bbox.spec_width(), provider.resolution as int) as nat,
    ) + COVERAGE_HEIGHT@ + decimal(
        ceil_div(bbox.spec_height(), provider.resolution as int) as nat,
    ) + COVERAGE_CLOSE@
}

/// Where the raster is read for pixel `i` of the box, row by row: the
/// box's extent is spread evenly over its pixels.
pub open spec fn sample_point(bbox: BBox, columns: int, rows: int, i: int) -> Punkt {
    Punkt {
        x: Some((bbox.x1 + (bbox.spec_width() * (i % columns)) / columns) as i32),
        y: Some((bbox.y1 + (bbox.spec_height() * (i / columns)) / rows) as i32),
        z: None,
    }
}

impl TerrainProvider {
    #[must_use]
    pub fn new(resolution: u32, crs: usize) -> (provider: TerrainProvider)
        ensures
            provider == (TerrainProvider { resolution, crs }),
    {
        TerrainProvider { resolution, crs }
    }

    /// Writes the address of the request for `bbox`.
    pub fn request(&self, bbox: &BBox) -> (url: String)
        requires
            bbox.valid(),
            self.resolution > 0,
        ensures
            url@ == coverage_text(*self, *bbox),
    {
        let padding: i64 = (PADDING_PIXELS as i64) * (self.resolution as i64);
        let num_pixels_x = bbox.num_pixels_x(self.resolution);
        let num_pixels_y = bbox.num_pixels_y(self.resolution);
        let mut url = String::new();
        url.append(COVERAGE_OPEN);
        push_decimal(&mut url, self.crs as u64);
        url.append(COVERAGE_BBOX);
        push_shortest(&mut url, bbox.x1 as i64 - padding);
        url.append(",");
        push_shortest(&mut url, bbox.y1 as i64 - padding);
        url.append(",");
        push_shortest(&mut url, bbox.x2 as i64 + padding);
        url.append(",");
        push_shortest(&mut url, bbox.y2 as i64 + padding);
        url.append(COVERAGE_WIDTH);
        push_decimal(&mut url, num_pixels_x as u64);
        url.append(COVERAGE_HEIGHT);
        push_decimal(&mut url, num_pixels_y as u64);
        url.append(COVERAGE_CLOSE);
        assert(url@ =~= coverage_text(*self, *bbox));
        url
    }

    /// Lists where the answer is to be read: one point for each pixel of
    /// `bbox`, row by row.
    ///
    /// Fails where the box holds more pixels than 32-bit indices can name.
    pub fn sample_points(&self, bbox: &BBox) -> (r: Result<Vec<Punkt>, GeometryError>)
        requires
            bbox.valid(),
            self.resolution > 0,
        ensures
            ({
                let columns = ceil_div(bbox.spec_width(), self.resolution as int);
                let rows = ceil_div(bbox.spec_height(), self.resolution as int);
                if columns * rows > u32::MAX {
                    r == Err::<Vec<Punkt>, GeometryError>(GeometryError::TooLarge)
                } else {
                    &&& r matches Ok(points)
                    &&& points@.len() == columns * rows
                    &&& forall|i: int|
                        0 <= i < columns * rows ==> #[trigger] points@[i] == sample_point(
                            *bbox,
                            columns,
                            rows,
                            i,
                        )
                }
            }),
    {
        let columns: u64 = bbox.num_pixels_x(self.resolution) as u64;
        let rows: u64 = bbox.num_pixels_y(self.resolution) as u64;
        let width: u64 = bbox.width() as u64;
        let height: u64 = bbox.height() as u64;
        proof {
            lemma_ceil_div_covers(bbox.spec_width(), self.resolution as int);
            lemma_ceil_div_covers(bbox.spec_height(), self.resolution as int);
            assert(columns * rows <= 0xffff_ffff * 0xffff_ffff) by (nonlinear_arith)
                requires
                    0 <= columns <= 0xffff_ffff,
                    0 <= rows <= 0xffff_ffff,
            ;
        }
        if columns * rows > u32::MAX as u64 {
            return Err(GeometryError::TooLarge);
        }
        let count: usize = (columns * rows) as usize;
        let mut points: Vec<Punkt> = Vec::new();
        let mut i: usize = 0;
        while i < count
            invariant
                bbox.valid(),
                width == bbox.spec_width(),
                height == bbox.spec_height(),
                columns <= u32::MAX,
                rows <= u32::MAX,
                count == columns * rows,
                i <= count,
                points@.len() == i,
                forall|j: int|
                    0 <= j < i ==> #[trigger] points@[j] == sample_point(
                        *bbox,
                        columns as int,
                        rows as int,
                        j,
                    ),
            decreases count - i,
        {
            assert(columns > 0 && rows > 0) by (nonlinear_arith)
                requires
                    i < columns * rows,
                    columns >= 0,
                    rows >= 0,
            ;
            let column: u64 = (i as u64) % columns;
            let row: u64 = (i as u64) / columns;
            proof {
                let c = columns as int;
                let ii = i as int;
                assert(ii == c * (ii / c) + ii % c && 0 <= ii % c < c) by (nonlinear_arith)
                    requires
                        c > 0,
                ;
                assert(0 <= row < rows) by (nonlinear_arith)
                    requires
                        ii == c * row + column,
                        0 <= column < c,
                        0 <= ii < c * rows,
                ;
                assert(0 <= width * column <= width * columns && width * columns <= 0xffff_ffff
                    * 0xffff_ffff) by (nonlinear_arith)
                    requires
                        0 <= column < columns <= 0xffff_ffff,
                        0 <= width <= 0xffff_ffff,
                ;
                assert(0 <= height * row <= height * rows && height * rows <= 0xffff_ffff
                    * 0xffff_ffff) by (nonlinear_arith)
                    requires
                        0 <= row < rows <= 0xffff_ffff,
                        0 <= height <= 0xffff_ffff,
                ;
                let wc = (width * column) as int;
                assert(0 <= wc / c <= width) by (nonlinear_arith)
                    requires
                        0 <= wc <= width * c,
                        c > 0,
                        wc == c * (wc / c) + wc % c,
                        0 <= wc % c < c,
                ;
                let r = rows as int;
                let hr = (height * row) as int;
                assert(hr == r * (hr / r) + hr % r && 0 <= hr % r < r) by (nonlinear_arith)
                    requires
                        r > 0,
                ;
                assert(0 <= hr / r <= height) by (nonlinear_arith)
                    requires
                        0 <= hr <= height * r,
                        r > 0,
                        hr == r * (hr / r) + hr % r,
                        0 <= hr % r < r,
                ;
            }
            let x: i64 = bbox.x1 as i64 + ((width * column) / columns) as i64;
            let y: i64 = bbox.y1 as i64 + ((height * row) / rows) as i64;
            points.push(Punkt { x: Some(x as i32), y: Some(y as i32), z: None });
            i = i + 1;
        }
        Ok(points)
    }
}

} // verus!
