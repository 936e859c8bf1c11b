//! The grid of query points of the point service, and what is written of it.

use crate::error::GeometryError;
use crate::export::ifc::{FACE_SET_CLOSE, FACE_SET_OPEN, POINT_LIST_CLOSE, POINT_LIST_OPEN};
use crate::mesh::grid::{grid_triangle, grid_triangle_count, triangulate_grid};
use crate::providers::Punkt;
use crate::text::{
    decimal,
    hundredths,
    join,
    lemma_join_push,
    push_decimal,
    push_hundredths,
    push_shortest,
    shortest,
};
use vstd::prelude::*;
use vstd::string::*;

verus! {

/// A triangle by the numbers of its corners in a point list, counted from one.
#[derive(Clone, Copy, Debug, PartialEq, Eq, Structural)]
pub struct TriangleCoord {
    pub v1: usize,
    pub v2: usize,
    pub v3: usize,
}

/// The query points of a box: `rows` rows of `columns` points, row by row.
#[derive(Debug)]
pub struct Grid {
    pub rows: usize,
    pub columns: usize,
    pub points: Vec<Punkt>,
}

/// Number of grid points along an extent: one at its start, and one more
/// for every whole step that fits.
pub open spec fn steps(extent: int, resolution: int) -> int {
    extent / resolution + 1
}

/// The query point at row-major place `i` of the grid over the box from
/// `(x_0, y_0)` to `(x_1, y_1)`: the rows run from `y_1` downwards, the
/// points of a row from `x_0` upwards.
pub open spec fn grid_point(x_0: int, y_1: int, resolution: int, columns: int, i: int) -> Punkt {
    Punkt {
        x: Some((x_0 + (i % columns) * resolution) as i32),
        y: Some((y_1 - (i / columns) * resolution) as i32),
        z: None,
    }
}

/// Triangle `k` of a grid of points that is `columns` wide, by corners
/// counted from one. The two halves of a cell turn the same way.
pub open spec fn point_triangle(columns: int, k: int) -> TriangleCoord {
    if k % 2 == 0 {
        TriangleCoord {
            v1: (grid_triangle(columns, k, 0) + 1) as usize,
            v2: (grid_triangle(columns, k, 1) + 1) as usize,
            v3: (grid_triangle(columns, k, 2) + 1) as usize,
        }
    } else {
        TriangleCoord {
            v1: (grid_triangle(columns, k, 1) + 1) as usize,
            v2: (grid_triangle(columns, k, 2) + 1) as usize,
            v3: (grid_triangle(columns, k, 0) + 1) as usize,
        }
    }
}

/// Lays out the query points over the box from `(x_0, y_0)` to `(x_1, y_1)`
/// at every `resolution`, row by row.
///
/// Fails where the grid would have more points than 32-bit indices can name.
pub fn construct_grid(x_0: i32, x_1: i32, y_0: i32, y_1: i32, resolution: u32) -> (r: Result<
    Grid,
    GeometryError,
>)
    requires
        x_0 <= x_1,
        y_0 <= y_1,
        resolution > 0,
    ensures
        ({
            let columns = steps(x_1 - x_0, resolution as int);
            let rows = steps(y_1 - y_0, resolution as int);
            if columns * rows > u32::MAX {
                r == Err::<Grid, GeometryError>(GeometryError::TooLarge)
            } else {
                &&& r matches Ok(grid)
                &&& grid.wf()
                &&& grid.columns == columns
                &&& grid.rows == rows
                &&& grid.points@.len() == columns * rows
                &&& forall|i: int|
                    0 <= i < columns * rows ==> #[trigger] grid.points@[i] == grid_point(
                        x_0 as int,
                        y_1 as int,
                        resolution as int,
                        columns,
                        i,
                    )
            }
        }),
{
    let width: u64 = (x_1 as i64 - x_0 as i64) as u64;
    let height: u64 = (y_1 as i64 - y_0 as i64) as u64;
    let columns: u64 = width / (resolution as u64) + 1;
    let rows: u64 = height / (resolution as u64) + 1;
    proof {
        let res = resolution as int;
        let w = width as int;
        let h = height as int;
        assert(w == res * (w / res) + w % res && 0 <= w % res < res && 0 <= w / res <= w)
            by (nonlinear_arith)
            requires
                res > 0,
                w >= 0,
        ;
        assert(h == res * (h / res) + h % res && 0 <= h % res < res && 0 <= h / res <= h)
            by (nonlinear_arith)
            requires
                res > 0,
                h >= 0,
        ;
        assert(columns * rows <= 0x1_0000_0000 * 0x1_0000_0000) by (nonlinear_arith)
            requires
                0 <= columns <= 0x1_0000_0000,
                0 <= rows <= 0x1_0000_0000,
        ;
        assert((columns - 1) * resolution <= width) by (nonlinear_arith)
            requires
                columns - 1 == w / res,
                w == res * (w / res) + w % res,
                0 <= w % res,
                resolution == res,
                width == w,
        ;
        assert((rows - 1) * resolution <= height) by (nonlinear_arith)
            requires
                rows - 1 == h / res,
                h == res * (h / res) + h % res,
                0 <= h % res,
                resolution == res,
                height == h,
        ;
    }
    let cells: u128 = (columns as u128) * (rows as u128);
    if cells > u32::MAX as u128 {
        return Err(GeometryError::TooLarge);
    }
    proof {
        assert(columns <= cells && rows <= cells) by (nonlinear_arith)
            requires
                cells == columns * rows,
                columns >= 1,
                rows >= 1,
        ;
    }
    let count: usize = cells as usize;
    let mut points: Vec<Punkt> = Vec::new();
    let mut i: usize = 0;
    while i < count
        invariant
            x_0 <= x_1,
            y_0 <= y_1,
            resolution > 0,
            width == x_1 - x_0,
            height == y_1 - y_0,
            columns == steps(width as int, resolution as int),
            rows == steps(height as int, resolution as int),
            (columns - 1) * resolution <= width,
            (rows - 1) * resolution <= height,
            count == columns * rows,
            i <= count,
            points@.len() == i,
            forall|j: int|
                0 <= j < i ==> #[trigger] points@[j] == grid_point(
                    x_0 as int,
                    y_1 as int,
                    resolution as int,
                    columns as int,
                    j,
                ),
        decreases count - i,
    {
        let column: u64 = (i as u64) % columns;
        let row: u64 = (i as u64) / columns;
        proof {
            let c = columns as int;
            let ii = i as int;
            assert(ii == c * (ii / c) + ii % c && 0 <= ii % c < c) by (nonlinear_arith)
                requires
                    c > 0,
            ;
            assert(0 <= row < rows) by (nonlinear_arith)
                requires
                    ii == c * row + column,
                    0 <= column < c,
                    0 <= ii < c * rows,
            ;
            assert(0 <= column * resolution <= (columns - 1) * resolution) by (nonlinear_arith)
                requires
                    0 <= column <= columns - 1,
                    resolution > 0,
            ;
            assert(0 <= row * resolution <= (rows - 1) * resolution) by (nonlinear_arith)
                requires
                    0 <= row <= rows - 1,
                    resolution > 0,
            ;
        }
        let x: i64 = x_0 as i64 + (column * (resolution as u64)) as i64;
        let y: i64 = y_1 as i64 - (row * (resolution as u64)) as i64;
        points.push(Punkt { x: Some(x as i32), y: Some(y as i32), z: None });
        i = i + 1;
    }
    proof {
        assert(rows * columns == columns * rows) by (nonlinear_arith);
    }
    Ok(Grid { rows: rows as usize, columns: columns as usize, points })
}

impl Grid {
    /// The grid holds its rows of points, and 32-bit indices can name them.
    pub open spec fn wf(&self) -> bool {
        &&& self.points@.len() == self.rows * self.columns
        &&& self.rows * self.columns <= u32::MAX
    }

    /// Number of points.
    pub fn size(&self) -> (n: usize)
        requires
            self.wf(),
        ensures
            n == self.rows * self.columns,
    {
        self.points.len()
    }

    /// Place of the point at `column` of `row` in the row-major point list.
    pub fn get_index(&self, row: usize, column: usize) -> (i: usize)
        requires
            self.wf(),
            row < self.rows,
            column < self.columns,
        ensures
            i == row * self.columns + column,
            i < self.points@.len(),
    {
        proof {
            assert(0 <= row * self.columns && row * self.columns + column < self.rows
                * self.columns) by (nonlinear_arith)
                requires
                    0 <= row < self.rows,
                    0 <= column < self.columns,
            ;
        }
        row * self.columns + column
    }

    /// The triangles of the grid, two for each cell, by corners counted
    /// from one as the point list of a document numbers them.
    pub fn generate_triangle_indices(&self) -> (triangles: Vec<TriangleCoord>)
        requires
            self.wf(),
        ensures
            triangles@.len() == grid_triangle_count(self.columns as int, self.rows as int),
            forall|k: int|
                0 <= k < triangles@.len() ==> #[trigger] triangles@[k] == point_triangle(
                    self.columns as int,
                    k,
                ),
            forall|k: int|
                0 <= k < triangles@.len() ==> {
                    &&& 1 <= (#[trigger] triangles@[k]).v1 <= self.points@.len()
                    &&& 1 <= triangles@[k].v2 <= self.points@.len()
                    &&& 1 <= triangles@[k].v3 <= self.points@.len()
                },
    {
        proof {
            assert(self.columns * self.rows == self.rows * self.columns) by (nonlinear_arith);
        }
        let faces = triangulate_grid(self.columns, self.rows);
        let mut triangles: Vec<TriangleCoord> = Vec::new();
        let mut k: usize = 0;
        while k < faces.len()
            invariant
                k <= faces@.len(),
                self.columns * self.rows <= u32::MAX,
                self.points@.len() == self.columns * self.rows,
                triangles@.len() == k,
                forall|j: int, corner: int|
                    0 <= j < faces@.len() && 0 <= corner < 3 ==> (#[trigger] faces@[j]@[corner])
                        == grid_triangle(self.columns as int, j, corner),
                forall|j: int, corner: int|
                    0 <= j < faces@.len() && 0 <= corner < 3 ==> (#[trigger] faces@[j]@[corner])
                        < self.columns * self.rows,
                forall|j: int|
                    0 <= j < k ==> #[trigger] triangles@[j] == point_triangle(
                        self.columns as int,
                        j,
                    ),
                forall|j: int|
                    0 <= j < k ==> {
                        &&& 1 <= (#[trigger] triangles@[j]).v1 <= self.points@.len()
                        &&& 1 <= triangles@[j].v2 <= self.points@.len()
                        &&& 1 <= triangles@[j].v3 <= self.points@.len()
                    },
            decreases faces.len() - k,
        {
            let face = faces[k];
            assert(face@[0] == grid_triangle(self.columns as int, k as int, 0));
            assert(face@[1] == grid_triangle(self.columns as int, k as int, 1));
            assert(face@[2] == grid_triangle(self.columns as int, k as int, 2));
            let a: usize = face[0] as usize + 1;
            let b: usize = face[1] as usize + 1;
            let c: usize = face[2] as usize + 1;
            let triangle = if k % 2 == 0 {
                TriangleCoord { v1: a, v2: b, v3: c }
            } else {
                TriangleCoord { v1: b, v2: c, v3: a }
            };
            triangles.push(triangle);
            k = k + 1;
        }
        triangles
    }
}

/// A coordinate as the documents write it: what is missing reads zero.
pub open spec fn or_zero(value: Option<i32>) -> int {
    match value {
        Some(v) => v as int,
        None => 0,
    }
}

/// One point: its three coordinates with two decimals, in brackets.
pub open spec fn point_text(p: Punkt) -> Seq<char> {
    "("@ + hundredths(or_zero(p.x)) + ","@ + hundredths(or_zero(p.y)) + ","@ + hundredths(
        or_zero(p.z),
    ) + ")"@
}

/// The text of every point, in their order.
pub open spec fn point_texts(points: Seq<Punkt>) -> Seq<Seq<char>> {
    Seq::new(points.len(), |i: int| point_text(points[i]))
}

/// The point-list entity of the points.
pub open spec fn point_list_text(points: Seq<Punkt>) -> Seq<char> {
    POINT_LIST_OPEN@ + join(point_texts(points), ","@) + POINT_LIST_CLOSE@
}

/// One triangle: the numbers of its corners, in brackets.
pub open spec fn triangle_text(t: TriangleCoord) -> Seq<char> {
    "("@ + decimal(t.v1 as nat) + ","@ + decimal(t.v2 as nat) + ","@ + decimal(t.v3 as nat) + ")"@
}

/// The text of every triangle, in their order.
pub open spec fn triangle_texts(triangles: Seq<TriangleCoord>) -> Seq<Seq<char>> {
    Seq::new(triangles.len(), |i: int| triangle_text(triangles[i]))
}

/// The face-set entity of the triangles.
pub open spec fn triangle_list_text(triangles: Seq<TriangleCoord>) -> Seq<char> {
    FACE_SET_OPEN@ + join(triangle_texts(triangles), ","@) + FACE_SET_CLOSE@
}

fn or_zero_of(value: Option<i32>) -> (v: i64)
    ensures
        v == or_zero(value),
{
    match value {
        Some(v) => v as i64,
        None => 0,
    }
}

fn push_point(text: &mut String, p: Punkt)
    ensures
        final(text)@ == old(text)@ + point_text(p),
{
    text.append("(");
    push_hundredths(text, or_zero_of(p.x));
    text.append(",");
    push_hundredths(text, or_zero_of(p.y));
    text.append(",");
    push_hundredths(text, or_zero_of(p.z));
    text.append(")");
    assert(text@ =~= old(text)@ + point_text(p));
}

fn push_triangle(text: &mut String, t: TriangleCoord)
    ensures
        final(text)@ == old(text)@ + triangle_text(t),
{
    text.append("(");
    push_decimal(text, t.v1 as u64);
    text.append(",");
    push_decimal(text, t.v2 as u64);
    text.append(",");
    push_decimal(text, t.v3 as u64);
    text.append(")");
    assert(text@ =~= old(text)@ + triangle_text(t));
}

/// Writes the point-list entity of the points, a missing coordinate as zero.
pub fn write_point_list(points: &Vec<Punkt>) -> (text: String)
    ensures
        text@ == point_list_text(points@),
{
    let mut text = String::new();
    text.append(POINT_LIST_OPEN);
    let ghost texts = point_texts(points@);
    let mut i: usize = 0;
    while i < points.len()
        invariant
            i <= points@.len(),
            texts == point_texts(points@),
            text@ == POINT_LIST_OPEN@ + join(texts.take(i as int), ","@),
        decreases points.len() - i,
    {
        if i > 0 {
            text.append(",");
        }
        push_point(&mut text, points[i]);
        proof {
            lemma_join_push(texts.take(i as int), texts[i as int], ","@);
            assert(texts.take(i + 1) =~= texts.take(i as int).push(texts[i as int]));
            assert(text@ =~= POINT_LIST_OPEN@ + join(texts.take(i + 1), ","@));
        }
        i = i + 1;
    }
    assert(texts.take(i as int) =~= texts);
    text.append(POINT_LIST_CLOSE);
    text
}

/// Writes the face-set entity of the triangles, each corner as it is numbered.
pub fn write_vertex_list(vertices: &Vec<TriangleCoord>) -> (text: String)
    ensures
        text@ == triangle_list_text(vertices@),
{
    let mut text = String::new();
    text.append(FACE_SET_OPEN);
    let ghost texts = triangle_texts(vertices@);
    let mut i: usize = 0;
    while i < vertices.len()
        invariant
            i <= vertices@.len(),
            texts == triangle_texts(vertices@),
            text@ == FACE_SET_OPEN@ + join(texts.take(i as int), ","@),
        decreases vertices.len() - i,
    {
        if i > 0 {
            text.append(",");
        }
        push_triangle(&mut text, vertices[i]);
        proof {
            lemma_join_push(texts.take(i as int), texts[i as int], ","@);
            assert(texts.take(i + 1) =~= texts.take(i as int).push(texts[i as int]));
            assert(text@ =~= FACE_SET_OPEN@ + join(texts.take(i + 1), ","@));
        }
        i = i + 1;
    }
    assert(texts.take(i as int) =~= texts);
    text.append(FACE_SET_CLOSE);
    text
}

/// The address of the point service up to the reference system's code.
pub const QUERY_OPEN: &'static str = "https://ws.geonorge.no/hoydedata/v1/punkt?koordsys=";

/// Before the list of points.
pub const QUERY_POINTS: &'static str = "&punkter=";

/// The end of the list of points, and the format of the answer.
pub const QUERY_CLOSE: &'static str = "%5D&geojson=false";

/// An opening bracket, as a query writes it.
pub const BRACKET_OPEN: &'static str = "%5B";

/// A closing bracket, as a query writes it.
pub const BRACKET_CLOSE: &'static str = "%5D";

/// A comma, as a query writes it.
pub const COMMA: &'static str = "%2C";

/// Whether a point can be asked for: it has its `x` and its `y`.
pub open spec fn is_query_point(p: Punkt) -> bool {
    p.x is Some && p.y is Some
}

/// One point of a query: `[x,y]`, each number as short as it goes.
pub open spec fn query_point_text(p: Punkt) -> Seq<char> {
    BRACKET_OPEN@ + shortest(or_zero(p.x)) + COMMA@ + shortest(or_zero(p.y)) + BRACKET_CLOSE@
}

/// The text of every point of a query, in their order.
pub open spec fn query_point_texts(points: Seq<Punkt>) -> Seq<Seq<char>> {
    Seq::new(points.len(), |i: int| query_point_text(points[i]))
}

/// The address that asks the point service for the elevations of `points`
/// in the reference system `koord_sys`: the points as a list of pairs. The
/// list of no points is written without its opening bracket.
pub open spec fn query_text(koord_sys: nat, points: Seq<Punkt>) -> Seq<char> {
    QUERY_OPEN@ + decimal(koord_sys) + QUERY_POINTS@ + (if points.len() == 0 {
        Seq::<char>::empty()
    } else {
        BRACKET_OPEN@ + join(query_point_texts(points), COMMA@)
    }) + QUERY_CLOSE@
}

fn push_query_point(text: &mut String, p: Punkt)
    ensures
        final(text)@ == old(text)@ + query_point_text(p),
{
    text.append(BRACKET_OPEN);
    push_shortest(text, or_zero_of(p.x));
    text.append(COMMA);
    push_shortest(text, or_zero_of(p.y));
    text.append(BRACKET_CLOSE);
    assert(text@ =~= old(text)@ + query_point_text(p));
}

/// Writes the address that asks the point service for one batch.
pub fn construct_query(koord_sys: usize, points: &Vec<Punkt>) -> (query: String)
    requires
        forall|i: int| 0 <= i < points@.len() ==> is_query_point(#[trigger] points@[i]),
    ensures
        query@ == query_text(koord_sys as nat, points@),
{
    let mut query = String::new();
    query.append(QUERY_OPEN);
    push_decimal(&mut query, koord_sys as u64);
    query.append(QUERY_POINTS);
    let ghost head = query@;
    let ghost texts = query_point_texts(points@);
    let mut i: usize = 0;
    while i < points.len()
        invariant
            i <= points@.len(),
            texts == query_point_texts(points@),
            query@ == head + if i == 0 {
                Seq::<char>::empty()
            } else {
                BRACKET_OPEN@ + join(texts.take(i as int), COMMA@)
            },
        decreases points.len() - i,
    {
        if i == 0 {
            query.append(BRACKET_OPEN);
        } else {
            query.append(COMMA);
        }
        push_query_point(&mut query, points[i]);
        proof {
            lemma_join_push(texts.take(i as int), texts[i as int], COMMA@);
            assert(texts.take(i + 1) =~= texts.take(i as int).push(texts[i as int]));
            assert(query@ =~= head + (BRACKET_OPEN@ + join(texts.take(i + 1), COMMA@)));
        }
        i = i + 1;
    }
    assert(texts.take(i as int) =~= texts);
    query.append(QUERY_CLOSE);
    assert(query@ =~= query_text(koord_sys as nat, points@));
    query
}

} // verus!
