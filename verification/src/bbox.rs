//! Bounding boxes and the pixel grids that they hold.

use crate::fixed::{ceil_div, ceil_div_u32, lemma_ceil_div_covers};
use vstd::prelude::*;

verus! {

/// An axis-aligned box in projected coordinates, in hundredths:
/// from `(x1, y1)` to `(x2, y2)`.
#[derive(Clone, Copy, Debug, PartialEq, Eq, Structural)]
pub struct BBox {
    pub x1: i32,
    pub y1: i32,
    pub x2: i32,
    pub y2: i32,
}

impl BBox {
    /// The corners are in order.
    pub open spec fn valid(&self) -> bool {
        self.x1 <= self.x2 && self.y1 <= self.y2
    }

    pub open spec fn spec_width(&self) -> int {
        self.x2 - self.x1
    }

    pub open spec fn spec_height(&self) -> int {
        self.y2 - self.y1
    }

    /// The box with these corners, if they are in order.
    pub fn new(x1: i32, y1: i32, x2: i32, y2: i32) -> (bbox: Option<BBox>)
        ensures
            bbox is Some <==> x1 <= x2 && y1 <= y2,
            bbox is Some ==> bbox == Some(BBox { x1, y1, x2, y2 }),
    {
        if x1 <= x2 && y1 <= y2 {
            Some(BBox { x1, y1, x2, y2 })
        } else {
            None
        }
    }

    pub fn is_valid(&self) -> (ok: bool)
        ensures
            ok == self.valid(),
    {
        self.x1 <= self.x2 && self.y1 <= self.y2
    }

    #[must_use]
    pub fn width(&self) -> (w: u32)
        requires
            self.valid(),
        ensures
            w == self.spec_width(),
    {
        (self.x2 as i64 - self.x1 as i64) as u32
    }

    #[must_use]
    pub fn height(&self) -> (h: u32)
        requires
            self.valid(),
        ensures
            h == self.spec_height(),
    {
        (self.y2 as i64 - self.y1 as i64) as u32
    }

    /// Number of pixels of size `resolution` that cover the width: the
    /// width divided by the resolution, rounded up.
    #[must_use]
    pub fn num_pixels_x(&self, resolution: u32) -> (n: usize)
        requires
            self.valid(),
            resolution > 0,
        ensures
            n == ceil_div(self.spec_width(), resolution as int),
            n * resolution >= self.spec_width(),
            (n - 1) * resolution < self.spec_width(),
    {
        proof {
            lemma_ceil_div_covers(self.spec_width(), resolution as int);
        }
        ceil_div_u32(self.width(), resolution) as usize
    }

    /// Number of pixels of size `resolution` that cover the height: the
    /// height divided by the resolution, rounded up.
    #[must_use]
    pub fn num_pixels_y(&self, resolution: u32) -> (n: usize)
        requires
            self.valid(),
            resolution > 0,
        ensures
            n == ceil_div(self.spec_height(), resolution as int),
            n * resolution >= self.spec_height(),
            (n - 1) * resolution < self.spec_height(),
    {
        proof {
            lemma_ceil_div_covers(self.spec_height(), resolution as int);
        }
        ceil_div_u32(self.height(), resolution) as usize
    }
}

impl Default for BBox {
    fn default() -> (bbox: BBox)
        ensures
            bbox == (BBox { x1: 11_278_200, y1: 121_701_200, x2: 11_297_100, y2: 121_716_600 }),
            bbox.valid(),
    {
        BBox { x1: 11_278_200, y1: 121_701_200, x2: 11_297_100, y2: 121_716_600 }
    }
}

} // verus!
