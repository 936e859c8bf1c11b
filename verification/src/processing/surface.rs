//! Smoothing of the elevation channel.

use crate::fixed::{ceil_div, ceil_div_u32, round_div};
use crate::mesh::Mesh;
use crate::vertex::Vertex;
use vstd::arithmetic::div_mod::{
    lemma_fundamental_div_mod_converse,
    lemma_hoist_over_denominator,
};
use vstd::prelude::*;

verus! {

/// Everything that is done to a mesh after its construction.
#[derive(Clone, Copy, Debug, PartialEq, Eq, Structural)]
pub struct PostProcessParams {
    /// Hundredths of the index count to keep: `0..=100`, where `100` asks
    /// for no reduction.
    pub compression_factor: u32,
    /// Reach of the filter, in hundredths of a metre.
    pub radius: u32,
    /// Strength of the filter, in hundredths.
    pub sigma: u32,
    /// Number of passes.
    pub passes: usize,
}

impl Default for PostProcessParams {
    fn default() -> (params: PostProcessParams)
        ensures
            params == (PostProcessParams {
                compression_factor: 50,
                radius: 100,
                sigma: 50,
                passes: 2,
            }),
    {
        PostProcessParams { compression_factor: 50, radius: 100, sigma: 50, passes: 2 }
    }
}

impl PostProcessParams {
    /// Reach of the filter in pixels of size `resolution`: the radius
    /// divided by the resolution, rounded up.
    pub fn radius_in_px(&self, resolution: u32) -> (r: usize)
        requires
            resolution > 0,
        ensures
            r == ceil_div(self.radius as int, resolution as int),
    {
        ceil_div_u32(self.radius, resolution) as usize
    }
}

/// Sum of the first `n` weights.
pub open spec fn weight_sum(weights: Seq<u32>, n: int) -> int
    decreases n,
{
    if n <= 0 {
        0
    } else {
        weight_sum(weights, n - 1) + weights[n - 1]
    }
}

/// A square convolution kernel as contracts see it: `2 * radius + 1` rows
/// of as many weights.
pub struct KernelView {
    pub radius: nat,
    pub weights: Seq<u32>,
}

impl KernelView {
    /// Number of rows, and of columns.
    pub open spec fn side(self) -> int {
        2 * (self.radius as int) + 1
    }

    /// Sum of all weights: what the kernel is normalised by.
    pub open spec fn total(self) -> int {
        weight_sum(self.weights, self.weights.len() as int)
    }

    /// The weights fill the square, and their sum is positive and fits 64 bits.
    pub open spec fn valid(self) -> bool {
        &&& self.weights.len() == self.side() * self.side()
        &&& 0 < self.total() <= u64::MAX
    }
}

/// The grid place that kernel entry `i` reads when the kernel lies centred on
/// column `x` of row `y`.
pub open spec fn tap(width: int, radius: int, x: int, y: int, i: int) -> int {
    let side = 2 * radius + 1;
    (y + i / side - radius) * width + (x + i % side - radius)
}

/// Sum of the first `n` products of a weight and the elevation it reads.
pub open spec fn weighted_sum(
    z: Seq<i32>,
    weights: Seq<u32>,
    width: int,
    radius: int,
    x: int,
    y: int,
    n: int,
) -> int
    decreases n,
{
    if n <= 0 {
        0
    } else {
        weighted_sum(z, weights, width, radius, x, y, n - 1) + weights[n - 1] * z[tap(
            width,
            radius,
            x,
            y,
            n - 1,
        )]
    }
}

/// Whether the whole kernel lies inside the grid when centred on `(x, y)`.
pub open spec fn is_interior(width: int, height: int, radius: int, x: int, y: int) -> bool {
    radius <= x < width - radius && radius <= y < height - radius
}

/// Elevation of cell `i` after one pass: the weighted mean of the cells
/// under the kernel, rounded to the nearest hundredth, where the kernel
/// fits; the old elevation where the cell is nearer than `radius` to an edge.
pub open spec fn blur_cell(z: Seq<i32>, width: int, height: int, kernel: KernelView, i: int) -> int {
    if width > 0 && is_interior(width, height, kernel.radius as int, i % width, i / width) {
        round_div(
            weighted_sum(
                z,
                kernel.weights,
                width,
                kernel.radius as int,
                i % width,
                i / width,
                kernel.weights.len() as int,
            ),
            kernel.total(),
        )
    } else {
        z[i] as int
    }
}

/// The elevations after one pass over the whole grid. Every cell is
/// computed from the elevations before the pass.
pub open spec fn blur_pass(z: Seq<i32>, width: int, height: int, kernel: KernelView) -> Seq<i32> {
    Seq::new(z.len(), |i: int| blur_cell(z, width, height, kernel, i) as i32)
}

/// The elevations after `passes` passes, each reading what the one before
/// it wrote.
pub open spec fn blurred(
    z: Seq<i32>,
    width: int,
    height: int,
    kernel: KernelView,
    passes: nat,
) -> Seq<i32>
    decreases passes,
{
    if passes == 0 {
        z
    } else {
        blur_pass(blurred(z, width, height, kernel, (passes - 1) as nat), width, height, kernel)
    }
}

/// A weighted sum over equal elevations is that elevation times the weights' sum.
proof fn lemma_weighted_sum_flat(
    z: Seq<i32>,
    weights: Seq<u32>,
    width: int,
    radius: int,
    x: int,
    y: int,
    n: int,
    level: i32,
)
    requires
        0 <= n,
        forall|i: int| 0 <= i < n ==> z[#[trigger] tap(width, radius, x, y, i)] == level,
    ensures
        weighted_sum(z, weights, width, radius, x, y, n) == level * weight_sum(weights, n),
    decreases n,
{
    if n > 0 {
        lemma_weighted_sum_flat(z, weights, width, radius, x, y, n - 1, level);
        assert(z[tap(width, radius, x, y, n - 1)] == level);
        assert(level * (weight_sum(weights, n - 1) + weights[n - 1]) == level * weight_sum(
            weights,
            n - 1,
        ) + weights[n - 1] * level) by (nonlinear_arith);
    } else {
        assert(level * 0 == 0) by (nonlinear_arith);
    }
}

/// The mean of `total` equal shares is the share.
pub proof fn lemma_round_div_flat(level: int, total: int)
    requires
        total > 0,
    ensures
        round_div(level * total, total) == level,
{
    assert(2 * (level * total) + total == level * (2 * total) + total) by (nonlinear_arith);
    lemma_fundamental_div_mod_converse(2 * (level * total) + total, 2 * total, level, total);
}

/// Every kernel entry of an interior cell reads a cell of the grid.
pub proof fn lemma_tap_in_grid(width: int, height: int, radius: int, x: int, y: int, i: int)
    requires
        radius >= 0,
        is_interior(width, height, radius, x, y),
        0 <= i < (2 * radius + 1) * (2 * radius + 1),
    ensures
        0 <= i / (2 * radius + 1) <= 2 * radius,
        0 <= i % (2 * radius + 1) <= 2 * radius,
        0 <= tap(width, radius, x, y, i) < width * height,
{
    let side = 2 * radius + 1;
    let ky = i / side;
    let kx = i % side;
    assert(i == side * ky + kx && 0 <= kx < side) by (nonlinear_arith)
        requires
            side > 0,
            ky == i / side,
            kx == i % side,
    ;
    assert(0 <= ky < side) by (nonlinear_arith)
        requires
            i == side * ky + kx,
            0 <= kx < side,
            0 <= i < side * side,
    ;
    let row = y + ky - radius;
    let column = x + kx - radius;
    assert(0 <= row < height && 0 <= column < width);
    assert(0 <= row * width + column < width * height) by (nonlinear_arith)
        requires
            0 <= row < height,
            0 <= column < width,
    ;
}

/// A cell nearer than the kernel's radius to an edge keeps its elevation,
/// however many passes run.
pub proof fn lemma_blur_keeps_border(
    z: Seq<i32>,
    width: int,
    height: int,
    kernel: KernelView,
    passes: nat,
    i: int,
)
    requires
        0 <= i < z.len(),
        !(width > 0 && is_interior(width, height, kernel.radius as int, i % width, i / width)),
    ensures
        blurred(z, width, height, kernel, passes).len() == z.len(),
        blurred(z, width, height, kernel, passes)[i] == z[i],
    decreases passes,
{
    if passes > 0 {
        lemma_blur_keeps_border(z, width, height, kernel, (passes - 1) as nat, i);
    }
}

/// Smoothing leaves a flat field as it is, for every kernel and any number
/// of passes.
pub proof fn lemma_blur_flat(
    z: Seq<i32>,
    width: int,
    height: int,
    kernel: KernelView,
    passes: nat,
    level: i32,
)
    requires
        kernel.valid(),
        width >= 0,
        height >= 0,
        z.len() == width * height,
        forall|i: int| 0 <= i < z.len() ==> z[i] == level,
    ensures
        blurred(z, width, height, kernel, passes) == z,
    decreases passes,
{
    if passes > 0 {
        lemma_blur_flat(z, width, height, kernel, (passes - 1) as nat, level);
        let radius = kernel.radius as int;
        let n = kernel.weights.len() as int;
        assert forall|i: int| 0 <= i < z.len() implies blur_cell(z, width, height, kernel, i)
            == z[i] by {
            if width > 0 && is_interior(width, height, radius, i % width, i / width) {
                let x = i % width;
                let y = i / width;
                assert forall|j: int| 0 <= j < n implies z[#[trigger] tap(width, radius, x, y, j)]
                    == level by {
                    lemma_tap_in_grid(width, height, radius, x, y, j);
                }
                lemma_weighted_sum_flat(z, kernel.weights, width, radius, x, y, n, level);
                lemma_round_div_flat(level as int, kernel.total());
            }
        }
        assert(blur_pass(z, width, height, kernel) =~= z);
    }
}

/// The sum of weights grows with their number.
proof fn lemma_weight_sum_grows(weights: Seq<u32>, m: int, n: int)
    requires
        0 <= m <= n,
    ensures
        0 <= weight_sum(weights, m) <= weight_sum(weights, n),
        weight_sum(weights, n) <= n * u32::MAX,
    decreases n,
{
    if n > 0 {
        if m < n {
            lemma_weight_sum_grows(weights, m, n - 1);
        } else {
            lemma_weight_sum_grows(weights, n - 1, n - 1);
        }
        assert(n * u32::MAX == (n - 1) * u32::MAX + u32::MAX) by (nonlinear_arith);
    }
}

/// A square convolution kernel of integer weights. A pass divides by the
/// sum of the weights, so the weights need not add up to anything in
/// particular: only their proportions count.
#[derive(Debug)]
pub struct Kernel {
    radius: usize,
    weights: Vec<u32>,
    total: u64,
}

impl View for Kernel {
    type V = KernelView;

    closed spec fn view(&self) -> KernelView {
        KernelView { radius: self.radius as nat, weights: self.weights@ }
    }
}

impl Kernel {
    /// The kernel is valid, and its stored sum is the sum of its weights.
    pub closed spec fn wf(&self) -> bool {
        self@.valid() && self.total == self@.total()
    }

    /// The kernel of `2 * radius + 1` rows of as many weights, row by row, if
    /// `weights` holds that many and their sum is positive and fits 64 bits.
    pub fn new(radius: usize, weights: Vec<u32>) -> (kernel: Option<Kernel>)
        ensures
            kernel is Some <==> (KernelView { radius: radius as nat, weights: weights@ }).valid(),
            kernel matches Some(k) ==> k.wf() && k@ == (KernelView {
                radius: radius as nat,
                weights: weights@,
            }),
    {
        let ghost view = KernelView { radius: radius as nat, weights: weights@ };
        if radius > u32::MAX as usize {
            proof {
                let s = view.side();
                assert(s * s > 0xffff_ffff_ffff_ffff) by (nonlinear_arith)
                    requires
                        s > 0x1_0000_0000,
                ;
            }
            return None;
        }
        let side: u128 = 2 * (radius as u128) + 1;
        proof {
            assert(side * side <= 0x2_0000_0000 * 0x2_0000_0000) by (nonlinear_arith)
                requires
                    0 <= side <= 0x2_0000_0000,
            ;
        }
        if side * side != weights.len() as u128 {
            return None;
        }
        let mut sum: u128 = 0;
        let mut i: usize = 0;
        while i < weights.len()
            invariant
                i <= weights@.len(),
                sum == weight_sum(weights@, i as int),
                sum <= i * u32::MAX,
            decreases weights.len() - i,
        {
            proof {
                assert((i + 1) * u32::MAX == i * u32::MAX + u32::MAX) by (nonlinear_arith);
                assert(i * u32::MAX <= 0xffff_ffff_ffff_ffff * 0xffff_ffff) by (nonlinear_arith)
                    requires
                        0 <= i <= 0xffff_ffff_ffff_ffff,
                ;
            }
            sum = sum + weights[i] as u128;
            i = i + 1;
        }
        if sum == 0 || sum > u64::MAX as u128 {
            return None;
        }
        Some(Kernel { radius, weights, total: sum as u64 })
    }

    /// Cells from the kernel's centre to its edge.
    pub fn radius(&self) -> (r: usize)
        ensures
            r == self@.radius,
    {
        self.radius
    }

    /// The elevations after one pass.
    fn pass(&self, z: &Vec<i32>, width: usize, height: usize) -> (out: Vec<i32>)
        requires
            self.wf(),
            z@.len() == width * height,
        ensures
            out@ == blur_pass(z@, width as int, height as int, self@),
    {
        let radius: usize = self.radius;
        let count: usize = self.weights.len();
        let total: u128 = self.total as u128;
        proof {
            let s = self@.side();
            assert(s <= s * s) by (nonlinear_arith)
                requires
                    s >= 1,
            ;
        }
        let side: usize = 2 * radius + 1;
        let mut out: Vec<i32> = Vec::new();
        let mut i: usize = 0;
        while i < z.len()
            invariant
                self.wf(),
                z@.len() == width * height,
                radius == self.radius,
                count == self.weights@.len(),
                total == self.total,
                side == 2 * radius + 1,
                side * side == count,
                i <= z@.len(),
                out@.len() == i,
                forall|j: int|
                    0 <= j < i ==> #[trigger] out@[j] == blur_cell(
                        z@,
                        width as int,
                        height as int,
                        self@,
                        j,
                    ),
            decreases z.len() - i,
        {
            assert(width > 0) by (nonlinear_arith)
                requires
                    i < width * height,
                    width >= 0,
            ;
            let x: usize = i % width;
            let y: usize = i / width;
            proof {
                let w = width as int;
                let ii = i as int;
                assert(ii == w * (ii / w) + ii % w && 0 <= ii % w < w) by (nonlinear_arith)
                    requires
                        w > 0,
                ;
                assert(y < height) by (nonlinear_arith)
                    requires
                        ii == w * y + x,
                        0 <= x < w,
                        ii < w * height,
                ;
            }
            let value: i32 = if x >= radius && width - x > radius && y >= radius && height - y
                > radius {
                let mut acc: u128 = 0;
                let mut j: usize = 0;
                while j < count
                    invariant
                        self.wf(),
                        z@.len() == width * height,
                        radius == self.radius,
                        count == self.weights@.len(),
                        side == 2 * radius + 1,
                        side * side == count,
                        is_interior(width as int, height as int, radius as int, x as int, y as int),
                        j <= count,
                        acc == weighted_sum(
                            z@,
                            self.weights@,
                            width as int,
                            radius as int,
                            x as int,
                            y as int,
                            j as int,
                        ) + 0x8000_0000 * weight_sum(self.weights@, j as int),
                        acc <= 0xffff_ffff * weight_sum(self.weights@, j as int),
                    decreases count - j,
                {
                    proof {
                        lemma_tap_in_grid(
                            width as int,
                            height as int,
                            radius as int,
                            x as int,
                            y as int,
                            j as int,
                        );
                        lemma_weight_sum_grows(self.weights@, j + 1, count as int);
                    }
                    let ky: usize = j / side;
                    let kx: usize = j % side;
                    let row: usize = y - radius + ky;
                    let column: usize = x - radius + kx;
                    proof {
                        assert(row == y + (j as int) / (2 * radius + 1) - radius);
                        assert(column == x + (j as int) % (2 * radius + 1) - radius);
                        assert(row * width + column == tap(
                            width as int,
                            radius as int,
                            x as int,
                            y as int,
                            j as int,
                        ));
                        assert(0 <= row * width) by (nonlinear_arith)
                            requires
                                0 <= row,
                                0 <= width,
                        ;
                        assert(z.len() == z@.len());
                        assert(row * width + column < z.len());
                    }
                    let place: usize = row * width + column;
                    let shifted: u128 = (z[place] as i64 + 0x8000_0000) as u128;
                    let weight: u128 = self.weights[j] as u128;
                    proof {
                        let sample = z@[place as int] as int;
                        assert(weight * shifted == weight * sample + 0x8000_0000 * weight
                            && 0 <= weight * shifted <= 0xffff_ffff * weight) by (nonlinear_arith)
                            requires
                                shifted == sample + 0x8000_0000,
                                0 <= shifted <= 0xffff_ffff,
                                0 <= weight,
                        ;
                        assert(0xffff_ffff * weight_sum(self.weights@, j + 1) <= 0xffff_ffff
                            * 0xffff_ffff_ffff_ffff) by (nonlinear_arith)
                            requires
                                weight_sum(self.weights@, j + 1) <= 0xffff_ffff_ffff_ffff,
                        ;
                    }
                    acc = acc + weight * shifted;
                    j = j + 1;
                }
                let ghost plain = weighted_sum(
                    z@,
                    self.weights@,
                    width as int,
                    radius as int,
                    x as int,
                    y as int,
                    count as int,
                );
                proof {
                    assert(0xffff_ffff * total <= 0xffff_ffff * 0xffff_ffff_ffff_ffff)
                        by (nonlinear_arith)
                        requires
                            total <= 0xffff_ffff_ffff_ffff,
                    ;
                }
                let doubled: u128 = 2 * acc + total;
                let quotient: u128 = doubled / (2 * total);
                proof {
                    let d = 2 * total as int;
                    lemma_hoist_over_denominator(2 * plain + total, 0x8000_0000, d as nat);
                    assert(2 * plain + total + 0x8000_0000 * d == doubled);
                    assert(quotient == round_div(plain, total as int) + 0x8000_0000);
                    let dd = doubled as int;
                    assert(dd == d * (dd / d) + dd % d && 0 <= dd % d < d) by (nonlinear_arith)
                        requires
                            d > 0,
                    ;
                    assert(dd / d < 0x1_0000_0000) by (nonlinear_arith)
                        requires
                            dd == d * (dd / d) + dd % d,
                            0 <= dd % d,
                            dd < 0x1_0000_0000 * d,
                            d > 0,
                    ;
                }
                (quotient as i64 - 0x8000_0000) as i32
            } else {
                z[i]
            };
            out.push(value);
            i = i + 1;
        }
        assert(out@ =~= blur_pass(z@, width as int, height as int, self@));
        out
    }
}

/// Runs `passes` smoothing passes over the elevations of a grid of
/// `width` by `height` cells, row by row.
pub fn blur_elevations(z: &Vec<i32>, width: usize, height: usize, kernel: &Kernel, passes: usize) -> (out:
    Vec<i32>)
    requires
        kernel.wf(),
        z@.len() == width * height,
    ensures
        out@ == blurred(z@, width as int, height as int, kernel@, passes as nat),
{
    let mut out: Vec<i32> = z.clone();
    let mut done: usize = 0;
    while done < passes
        invariant
            kernel.wf(),
            z@.len() == width * height,
            done <= passes,
            out@ == blurred(z@, width as int, height as int, kernel@, done as nat),
        decreases passes - done,
    {
        proof {
            lemma_blurred_len(z@, width as int, height as int, kernel@, done as nat);
        }
        out = kernel.pass(&out, width, height);
        done = done + 1;
    }
    out
}

/// The elevations of a vertex buffer.
pub open spec fn elevations(vertices: Seq<Vertex>) -> Seq<i32> {
    Seq::new(vertices.len(), |i: int| vertices[i].z)
}

/// Smooths the elevations of a mesh whose vertices are a grid of `width`
/// by `height`, row by row, with `passes` passes of `kernel`.
///
/// The new mesh has the same triangles, and each vertex keeps its `x` and
/// `y`. A vertex nearer than the kernel's radius to an edge keeps its
/// elevation in every pass.
pub fn apply_gaussian_blur(
    mesh: &Mesh,
    width: usize,
    height: usize,
    kernel: &Kernel,
    passes: usize,
) -> (smoothed: Mesh)
    requires
        kernel.wf(),
        mesh.vertices@.len() == width * height,
    ensures
        smoothed.indices@ == mesh.indices@,
        smoothed.vertices@.len() == mesh.vertices@.len(),
        forall|i: int|
            0 <= i < mesh.vertices@.len() ==> #[trigger] smoothed.vertices@[i] == (Vertex {
                z: blurred(
                    elevations(mesh.vertices@),
                    width as int,
                    height as int,
                    kernel@,
                    passes as nat,
                )[i],
                ..mesh.vertices@[i]
            }),
        mesh.wf() ==> smoothed.wf(),
{
    let mut z: Vec<i32> = Vec::new();
    let mut i: usize = 0;
    while i < mesh.vertices.len()
        invariant
            i <= mesh.vertices@.len(),
            z@ == elevations(mesh.vertices@).take(i as int),
        decreases mesh.vertices.len() - i,
    {
        z.push(mesh.vertices[i].z);
        i = i + 1;
        assert(z@ =~= elevations(mesh.vertices@).take(i as int));
    }
    assert(z@ =~= elevations(mesh.vertices@));
    let smooth = blur_elevations(&z, width, height, kernel, passes);
    proof {
        lemma_blurred_len(z@, width as int, height as int, kernel@, passes as nat);
    }
    let mut vertices: Vec<Vertex> = Vec::new();
    let mut k: usize = 0;
    while k < mesh.vertices.len()
        invariant
            k <= mesh.vertices@.len(),
            smooth@.len() == mesh.vertices@.len(),
            vertices@.len() == k,
            forall|j: int|
                0 <= j < k ==> #[trigger] vertices@[j] == (Vertex {
                    z: smooth@[j],
                    ..mesh.vertices@[j]
                }),
        decreases mesh.vertices.len() - k,
    {
        let old = mesh.vertices[k];
        vertices.push(Vertex::new(old.x, old.y, smooth[k]));
        k = k + 1;
    }
    Mesh { indices: mesh.indices.clone(), vertices }
}

/// Smoothing keeps the number of elevations.
pub proof fn lemma_blurred_len(
    z: Seq<i32>,
    width: int,
    height: int,
    kernel: KernelView,
    passes: nat,
)
    ensures
        blurred(z, width, height, kernel, passes).len() == z.len(),
    decreases passes,
{
    if passes > 0 {
        lemma_blurred_len(z, width, height, kernel, (passes - 1) as nat);
    }
}

impl PostProcessParams {
    /// The kernel of these parameters at `resolution`: `weights` laid out
    /// in a square that reaches `radius_in_px` cells from its centre, so of
    /// `2 * radius_in_px + 1` rows. `None` where `weights` does not fill
    /// that square, or their sum is zero or does not fit 64 bits.
    pub fn kernel(&self, resolution: u32, weights: Vec<u32>) -> (kernel: Option<Kernel>)
        requires
            resolution > 0,
        ensures
            kernel is Some <==> (KernelView {
                radius: ceil_div(self.radius as int, resolution as int) as nat,
                weights: weights@,
            }).valid(),
            kernel matches Some(k) ==> k.wf() && k@ == (KernelView {
                radius: ceil_div(self.radius as int, resolution as int) as nat,
                weights: weights@,
            }),
    {
        proof {
            crate::fixed::lemma_ceil_div_covers(self.radius as int, resolution as int);
        }
        Kernel::new(self.radius_in_px(resolution), weights)
    }
}

} // verus!
