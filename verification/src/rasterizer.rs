//! Scanline coverage of a triangle: for every pixel row the covered interval
//! of columns and the barycentric weights at its two ends.
use crate::scalar::{Real, ONE_RAW};
use crate::vector::Vec2;
use vstd::prelude::*;

verus! {

/// Coordinates closer than this many raw units count as shared, and a shared
/// coordinate is moved by as much before an edge is built from it.
pub const EPSILON_RAW: i64 = 4;

/// What a rasterizer reports for one pixel row: the interval of columns
/// from `left` (inclusive) to `right` (exclusive), then the weights of the
/// three corners at `left`, then those at `right`.
pub type Row = ((i32, i32), (Real, Real, Real), (Real, Real, Real));

/// Turns a shape given by its vertices into one row descriptor per pixel row
/// of a canvas.
pub trait Rasterizer {
    type Vertices;

    type RowOut;

    /// The row descriptors of the shape, from the top row of the canvas down.
    open spec fn rows_spec(&self, canvas_size: (usize, usize), vertices: &Self::Vertices) -> Seq<
        Self::RowOut,
    > {
        arbitrary()
    }

    /// Appends the row descriptors of the shape to `out`.
    fn rasterize(
        &self,
        canvas_size: (usize, usize),
        vertices: &Self::Vertices,
        out: &mut Vec<Self::RowOut>,
    )
        ensures
            final(out)@ == old(out)@ + self.rows_spec(canvas_size, vertices),
    ;
}

/// The straight line through two points, as the column `x` it reaches on a
/// given row `y`: `x = x0 + (y - y0) * dx / dy`.
#[derive(Clone, Copy, Debug, PartialEq, Eq, Structural)]
pub struct Line {
    pub x0: Real,
    pub y0: Real,
    pub dx: Real,
    pub dy: Real,
}

/// A coordinate of the first point of an edge, moved by epsilon where the
/// second point shares it.
pub open spec fn nudge_spec(a: Real, b: Real) -> Real {
    if -EPSILON_RAW < a.raw - b.raw < EPSILON_RAW {
        a.add(Real { raw: EPSILON_RAW })
    } else {
        a
    }
}

/// Moves `a` by epsilon where it is within epsilon of `b`.
pub fn nudge(a: Real, b: Real) -> (r: Real)
    ensures
        r == nudge_spec(a, b),
{
    let diff: i128 = a.raw as i128 - b.raw as i128;
    if -(EPSILON_RAW as i128) < diff && diff < EPSILON_RAW as i128 {
        a.add(Real { raw: EPSILON_RAW })
    } else {
        a
    }
}

impl Line {
    /// The line through `p0` and `p1`. Where the two points share a
    /// coordinate, that coordinate of `p0` is first moved by epsilon, so that
    /// neither difference is zero.
    pub open spec fn new_spec(p0: Vec2, p1: Vec2) -> Line {
        let x0 = nudge_spec(p0.x, p1.x);
        let y0 = nudge_spec(p0.y, p1.y);
        Line { x0, y0, dx: p1.x.sub(x0), dy: p1.y.sub(y0) }
    }

    /// The column at which the line crosses row `y`. Product and quotient
    /// are taken together, so the result is rounded once.
    pub open spec fn x_spec(&self, y: Real) -> Real {
        self.x0.add(y.sub(self.y0).mul_div(self.dx, self.dy))
    }

    #[verifier::when_used_as_spec(new_spec)]
    pub fn new(p0: Vec2, p1: Vec2) -> (r: Line)
        ensures
            r == Line::new_spec(p0, p1),
    {
        let x0: Real = nudge(p0.x, p1.x);
        let y0: Real = nudge(p0.y, p1.y);
        Line { x0, y0, dx: p1.x.sub(x0), dy: p1.y.sub(y0) }
    }

    #[verifier::when_used_as_spec(x_spec)]
    pub fn x(&self, y: Real) -> (r: Real)
        ensures
            r == self.x_spec(y),
    {
        self.x0.add(y.sub(self.y0).mul_div(self.dx, self.dy))
    }
}

/// How far row `y` lies on the way from `a` down to `b`, as a fraction:
/// zero on the row of `a`, one on the row of `b`.
pub open spec fn unlerp_spec(a: Vec2, b: Vec2, y: Real) -> Real {
    y.sub(a.y).div(b.y.sub(a.y))
}

#[verifier::when_used_as_spec(unlerp_spec)]
pub fn unlerp(a: Vec2, b: Vec2, y: Real) -> (r: Real)
    ensures
        r == unlerp_spec(a, b, y),
{
    y.sub(a.y).div(b.y.sub(a.y))
}

/// A corner of a triangle together with its place among the vertices given.
#[derive(Clone, Copy, Debug, PartialEq, Eq, Structural)]
pub struct Corner {
    pub pos: Vec2,
    pub index: usize,
}

/// The row descriptor of a row that the triangle does not reach.
pub open spec fn empty_row() -> Row {
    ((-1i32, -1i32), (Real::zero(), Real::zero(), Real::zero()), (
        Real::zero(),
        Real::zero(),
        Real::zero(),
    ))
}

/// The weights in which the corner given as the `index`-th vertex has weight
/// one and the other two have none.
pub open spec fn unit_weights(index: usize) -> (Real, Real, Real) {
    (
        if index == 0 {
            Real::one()
        } else {
            Real::zero()
        },
        if index == 1 {
            Real::one()
        } else {
            Real::zero()
        },
        if index == 2 {
            Real::one()
        } else {
            Real::zero()
        },
    )
}

/// What is computed once per triangle: its corners ordered from top to
/// bottom, its three edges, and on which side of the long edge the middle
/// corner lies.
#[derive(Clone, Copy, Debug, PartialEq, Eq, Structural)]
pub struct TriangleSetup {
    pub top: Corner,
    pub mid: Corner,
    pub bottom: Corner,
    /// The edge from the top corner to the bottom corner.
    pub full: Line,
    /// The edge from the top corner to the middle corner.
    pub upper: Line,
    /// The edge from the middle corner to the bottom corner.
    pub lower: Line,
    pub mid_on_left: bool,
}

/// The two corners ordered by row; corners on one row keep their order.
pub open spec fn ordered_spec(a: Corner, b: Corner) -> (Corner, Corner) {
    if a.pos.y.raw > b.pos.y.raw {
        (b, a)
    } else {
        (a, b)
    }
}

/// Orders two corners by row.
pub fn ordered(a: Corner, b: Corner) -> (r: (Corner, Corner))
    ensures
        r == ordered_spec(a, b),
{
    if a.pos.y.raw > b.pos.y.raw {
        (b, a)
    } else {
        (a, b)
    }
}

impl TriangleSetup {
    /// The setup of the triangle with vertices `v0`, `v1`, `v2`.
    pub open spec fn new_spec(v0: Vec2, v1: Vec2, v2: Vec2) -> TriangleSetup {
        let first = ordered_spec(Corner { pos: v0, index: 0 }, Corner { pos: v1, index: 1 });
        let second = ordered_spec(first.1, Corner { pos: v2, index: 2 });
        let third = ordered_spec(first.0, second.0);
        let top = third.0;
        let mid = third.1;
        let bottom = second.1;
        let full = Line::new_spec(top.pos, bottom.pos);
        TriangleSetup {
            top,
            mid,
            bottom,
            full,
            upper: Line::new_spec(top.pos, mid.pos),
            lower: Line::new_spec(mid.pos, bottom.pos),
            mid_on_left: full.x_spec(mid.pos.y).raw > mid.pos.x.raw,
        }
    }

    /// The corners are the three vertices, each once, from top to bottom.
    pub open spec fn wf(self) -> bool {
        &&& self.top.index < 3
        &&& self.mid.index < 3
        &&& self.bottom.index < 3
        &&& self.top.index != self.mid.index
        &&& self.top.index != self.bottom.index
        &&& self.mid.index != self.bottom.index
        &&& self.top.pos.y.raw <= self.mid.pos.y.raw <= self.bottom.pos.y.raw
    }

    /// Whether the triangle reaches row `y`.
    pub open spec fn reaches(self, y: Real) -> bool {
        self.top.pos.y.raw <= y.raw <= self.bottom.pos.y.raw
    }

    /// Whether row `y` lies at or below the middle corner, where the lower
    /// short edge bounds the triangle.
    pub open spec fn in_lower_half(self, y: Real) -> bool {
        y.raw >= self.mid.pos.y.raw
    }

    /// Weights given for the top, middle and bottom corner, put in the order
    /// of the vertices.
    pub open spec fn by_index(self, top: Real, mid: Real, bottom: Real) -> (Real, Real, Real) {
        (
            if self.top.index == 0 {
                top
            } else if self.mid.index == 0 {
                mid
            } else {
                bottom
            },
            if self.top.index == 1 {
                top
            } else if self.mid.index == 1 {
                mid
            } else {
                bottom
            },
            if self.top.index == 2 {
                top
            } else if self.mid.index == 2 {
                mid
            } else {
                bottom
            },
        )
    }

    /// The weights of the three corners where row `y` meets the long edge.
    pub open spec fn full_weights(self, y: Real) -> (Real, Real, Real) {
        let t = unlerp_spec(self.top.pos, self.bottom.pos, y);
        self.by_index(Real::one().sub(t), Real::zero(), t)
    }

    /// The weights of the three corners where row `y` meets the short edge
    /// of its half.
    pub open spec fn partial_weights(self, y: Real) -> (Real, Real, Real) {
        if self.in_lower_half(y) {
            let t = unlerp_spec(self.mid.pos, self.bottom.pos, y);
            self.by_index(Real::zero(), Real::one().sub(t), t)
        } else {
            let t = unlerp_spec(self.top.pos, self.mid.pos, y);
            self.by_index(Real::one().sub(t), t, Real::zero())
        }
    }

    /// The column where row `y` meets the long edge.
    pub open spec fn full_x(self, y: Real) -> Real {
        self.full.x_spec(y)
    }

    /// The column where row `y` meets the short edge of its half.
    pub open spec fn partial_x(self, y: Real) -> Real {
        if self.in_lower_half(y) {
            self.lower.x_spec(y)
        } else {
            self.upper.x_spec(y)
        }
    }

    /// The row descriptor of row `y`.
    pub open spec fn row_spec(self, y: Real) -> Row {
        if !self.reaches(y) {
            empty_row()
        } else if self.mid_on_left {
            (
                (self.partial_x(y).to_pixel(), self.full_x(y).to_pixel()),
                self.partial_weights(y),
                self.full_weights(y),
            )
        } else {
            (
                (self.full_x(y).to_pixel(), self.partial_x(y).to_pixel()),
                self.full_weights(y),
                self.partial_weights(y),
            )
        }
    }

    /// Orders the corners and builds the edges.
    pub fn new(vertices: &[Vec2; 3]) -> (r: TriangleSetup)
        ensures
            r == TriangleSetup::new_spec(vertices[0], vertices[1], vertices[2]),
            r.wf(),
    {
        let first: (Corner, Corner) = ordered(
            Corner { pos: vertices[0], index: 0 },
            Corner { pos: vertices[1], index: 1 },
        );
        let second: (Corner, Corner) = ordered(first.1, Corner { pos: vertices[2], index: 2 });
        let third: (Corner, Corner) = ordered(first.0, second.0);
        let top: Corner = third.0;
        let mid: Corner = third.1;
        let bottom: Corner = second.1;
        let full: Line = Line::new(top.pos, bottom.pos);
        TriangleSetup {
            top,
            mid,
            bottom,
            full,
            upper: Line::new(top.pos, mid.pos),
            lower: Line::new(mid.pos, bottom.pos),
            mid_on_left: full.x(mid.pos.y).raw > mid.pos.x.raw,
        }
    }

    /// Puts weights given for the top, middle and bottom corner in the order
    /// of the vertices.
    fn place(&self, top: Real, mid: Real, bottom: Real) -> (r: (Real, Real, Real))
        ensures
            r == self.by_index(top, mid, bottom),
    {
        (
            if self.top.index == 0 {
                top
            } else if self.mid.index == 0 {
                mid
            } else {
                bottom
            },
            if self.top.index == 1 {
                top
            } else if self.mid.index == 1 {
                mid
            } else {
                bottom
            },
            if self.top.index == 2 {
                top
            } else if self.mid.index == 2 {
                mid
            } else {
                bottom
            },
        )
    }

    /// Computes the row descriptor of row `y`.
    pub fn row(&self, y: Real) -> (r: Row)
        ensures
            r == self.row_spec(y),
    {
        if y.raw < self.top.pos.y.raw || y.raw > self.bottom.pos.y.raw {
            return (
                (-1, -1),
                (Real::zero(), Real::zero(), Real::zero()),
                (Real::zero(), Real::zero(), Real::zero()),
            );
        }
        let in_lower: bool = y.raw >= self.mid.pos.y.raw;
        let full_x: Real = self.full.x(y);
        let partial_x: Real = if in_lower {
            self.lower.x(y)
        } else {
            self.upper.x(y)
        };
        let t_full: Real = unlerp(self.top.pos, self.bottom.pos, y);
        let full_weights: (Real, Real, Real) = self.place(
            Real::one().sub(t_full),
            Real::zero(),
            t_full,
        );
        let partial_weights: (Real, Real, Real) = if in_lower {
            let t: Real = unlerp(self.mid.pos, self.bottom.pos, y);
            self.place(Real::zero(), Real::one().sub(t), t)
        } else {
            let t: Real = unlerp(self.top.pos, self.mid.pos, y);
            self.place(Real::one().sub(t), t, Real::zero())
        };
        if self.mid_on_left {
            ((partial_x.to_pixel(), full_x.to_pixel()), partial_weights, full_weights)
        } else {
            ((full_x.to_pixel(), partial_x.to_pixel()), full_weights, partial_weights)
        }
    }
}

/// The rasterizer of triangles given by three points in pixel coordinates.
pub struct TriangleRasterizer;

impl Rasterizer for TriangleRasterizer {
    type Vertices = [Vec2; 3];

    type RowOut = Row;

    /// One descriptor for each of the `canvas_size.1` rows; row `y` is the
    /// scanline through the points with second coordinate `y`.
    open spec fn rows_spec(&self, canvas_size: (usize, usize), vertices: &[Vec2; 3]) -> Seq<Row> {
        Seq::new(
            canvas_size.1 as nat,
            |y: int|
                TriangleSetup::new_spec(vertices[0], vertices[1], vertices[2]).row_spec(
                    Real::from_int_spec(y),
                ),
        )
    }

    fn rasterize(&self, canvas_size: (usize, usize), vertices: &[Vec2; 3], out: &mut Vec<Row>) {
        let setup: TriangleSetup = TriangleSetup::new(vertices);
        let rows: usize = canvas_size.1;
        let mut y: usize = 0;
        while y < rows
            invariant
                y <= rows,
                rows == canvas_size.1,
                setup == TriangleSetup::new_spec(vertices[0], vertices[1], vertices[2]),
                out@ == old(out)@ + self.rows_spec(canvas_size, vertices).take(y as int),
            decreases rows - y,
        {
            let row: Row = setup.row(Real::from_usize(y));
            out.push(row);
            y += 1;
        }
    }
}

} // verus!

verus! {

/// The sum of the three weights, as a raw value.
pub open spec fn weight_sum(w: (Real, Real, Real)) -> int {
    w.0.raw + w.1.raw + w.2.raw
}

/// Every weight lies between zero and one.
pub open spec fn weights_in_unit(w: (Real, Real, Real)) -> bool {
    &&& 0 <= w.0.raw <= ONE_RAW
    &&& 0 <= w.1.raw <= ONE_RAW
    &&& 0 <= w.2.raw <= ONE_RAW
}

/// Between the rows of `a` and `b` the fraction of the way lies between zero
/// and one; it is zero on the row of `a`, and one on the row of `b` where
/// that is another row.
pub proof fn lemma_unlerp_in_unit(a: Vec2, b: Vec2, y: Real)
    requires
        a.y.raw <= y.raw <= b.y.raw,
    ensures
        0 <= unlerp_spec(a, b, y).raw <= ONE_RAW,
        y == a.y ==> unlerp_spec(a, b, y) == Real::zero(),
        y == b.y && a.y.raw < b.y.raw ==> unlerp_spec(a, b, y) == Real::one(),
{
    let n = y.sub(a.y).raw as int;
    let d = b.y.sub(a.y).raw as int;
    if d > 0 {
        assert(0 <= n * 0x1_0000_0000 <= d * 0x1_0000_0000) by (nonlinear_arith)
            requires
                0 <= n <= d,
        ;
        vstd::arithmetic::div_mod::lemma_div_is_ordered(0, n * 0x1_0000_0000, d);
        vstd::arithmetic::div_mod::lemma_div_is_ordered(n * 0x1_0000_0000, d * 0x1_0000_0000, d);
        vstd::arithmetic::div_mod::lemma_div_multiples_vanish(0x1_0000_0000, d);
        assert(d * 0x1_0000_0000 == 0x1_0000_0000 * d) by (nonlinear_arith);
        assert(0int / d == 0) by (nonlinear_arith)
            requires
                d > 0,
        ;
    }
}

/// On every row that the triangle reaches, the weights at either end of the
/// row lie between zero and one and sum to exactly one.
pub proof fn lemma_row_weights_sum(setup: TriangleSetup, y: Real)
    requires
        setup.wf(),
        setup.reaches(y),
    ensures
        weights_in_unit(setup.full_weights(y)),
        weights_in_unit(setup.partial_weights(y)),
        weight_sum(setup.full_weights(y)) == ONE_RAW,
        weight_sum(setup.partial_weights(y)) == ONE_RAW,
{
    lemma_unlerp_in_unit(setup.top.pos, setup.bottom.pos, y);
    if setup.in_lower_half(y) {
        lemma_unlerp_in_unit(setup.mid.pos, setup.bottom.pos, y);
    } else {
        lemma_unlerp_in_unit(setup.top.pos, setup.mid.pos, y);
    }
}

/// On the row of a corner, the end of the row that lies on an edge through
/// that corner gives the corner weight one and the other corners none.
pub proof fn lemma_corner_weights(setup: TriangleSetup)
    requires
        setup.wf(),
    ensures
        setup.full_weights(setup.top.pos.y) == unit_weights(setup.top.index),
        setup.partial_weights(setup.mid.pos.y) == unit_weights(setup.mid.index),
        setup.top.pos.y.raw < setup.bottom.pos.y.raw ==> setup.full_weights(setup.bottom.pos.y)
            == unit_weights(setup.bottom.index),
        setup.top.pos.y.raw < setup.mid.pos.y.raw ==> setup.partial_weights(setup.top.pos.y)
            == unit_weights(setup.top.index),
        setup.mid.pos.y.raw < setup.bottom.pos.y.raw ==> setup.partial_weights(
            setup.bottom.pos.y,
        ) == unit_weights(setup.bottom.index),
{
    lemma_unlerp_in_unit(setup.top.pos, setup.bottom.pos, setup.top.pos.y);
    lemma_unlerp_in_unit(setup.top.pos, setup.bottom.pos, setup.bottom.pos.y);
    lemma_unlerp_in_unit(setup.mid.pos, setup.bottom.pos, setup.mid.pos.y);
    lemma_unlerp_in_unit(setup.mid.pos, setup.bottom.pos, setup.bottom.pos.y);
    lemma_unlerp_in_unit(setup.top.pos, setup.mid.pos, setup.top.pos.y);
}

/// A row that the triangle does not reach is reported empty, and every
/// other row carries at each end weights that sum to exactly one.
pub proof fn lemma_row_is_barycentric(setup: TriangleSetup, y: Real)
    requires
        setup.wf(),
    ensures
        !setup.reaches(y) ==> setup.row_spec(y) == empty_row(),
        setup.reaches(y) ==> weights_in_unit(setup.row_spec(y).1) && weights_in_unit(
            setup.row_spec(y).2,
        ),
        setup.reaches(y) ==> weight_sum(setup.row_spec(y).1) == ONE_RAW && weight_sum(
            setup.row_spec(y).2,
        ) == ONE_RAW,
{
    if setup.reaches(y) {
        lemma_row_weights_sum(setup, y);
    }
}

} // verus!

verus! {

impl TriangleSetup {
    /// The three edges are the lines through the corners they join.
    pub open spec fn consistent(self) -> bool {
        &&& self.wf()
        &&& self.full == Line::new_spec(self.top.pos, self.bottom.pos)
        &&& self.upper == Line::new_spec(self.top.pos, self.mid.pos)
        &&& self.lower == Line::new_spec(self.mid.pos, self.bottom.pos)
    }

    /// Whether the long edge runs from `u` down to `v`.
    pub open spec fn has_long_edge(self, u: Vec2, v: Vec2) -> bool {
        self.top.pos == u && self.bottom.pos == v
    }

    /// Whether one of the two short edges runs from `u` down to `v`.
    pub open spec fn has_short_edge(self, u: Vec2, v: Vec2) -> bool {
        ||| self.top.pos == u && self.mid.pos == v
        ||| self.mid.pos == u && self.bottom.pos == v
    }

    /// Whether the triangle has an edge that runs from `u` down to `v`.
    pub open spec fn has_edge(self, u: Vec2, v: Vec2) -> bool {
        self.has_long_edge(u, v) || self.has_short_edge(u, v)
    }

    /// Whether the edge from `u` down to `v` is the right side of the
    /// triangle, as its orientation test finds it: the long edge where the
    /// middle corner lies on the left, a short edge where it does not.
    pub open spec fn edge_on_right(self, u: Vec2, v: Vec2) -> bool {
        ||| self.has_long_edge(u, v) && self.mid_on_left
        ||| self.has_short_edge(u, v) && !self.mid_on_left
    }

    /// Whether the edge from `u` down to `v` is the left side of the
    /// triangle, as its orientation test finds it.
    pub open spec fn edge_on_left(self, u: Vec2, v: Vec2) -> bool {
        ||| self.has_long_edge(u, v) && !self.mid_on_left
        ||| self.has_short_edge(u, v) && self.mid_on_left
    }
}

/// The column in which the edge from `u` down to `v` bounds row `y`.
pub open spec fn edge_column(u: Vec2, v: Vec2, y: Real) -> i32 {
    Line::new_spec(u, v).x_spec(y).to_pixel()
}

/// Whether column `x` lies in the row: at or after its left end and before
/// its right end.
pub open spec fn row_covers(row: Row, x: int) -> bool {
    row.0.0 <= x < row.0.1
}

/// The setup of any three points is consistent.
pub proof fn lemma_setup_consistent(v0: Vec2, v1: Vec2, v2: Vec2)
    ensures
        TriangleSetup::new_spec(v0, v1, v2).consistent(),
{
}

/// An edge bounds a row in the same column in every triangle it belongs to:
/// on each row from the upper end of the edge down to, not including, its
/// lower end, the triangle reaches the row, and the end of the row on the
/// side of the edge is the column of the edge.
pub proof fn lemma_edge_bounds_row(setup: TriangleSetup, u: Vec2, v: Vec2, y: Real)
    requires
        setup.consistent(),
        setup.has_edge(u, v),
        u.y.raw <= y.raw < v.y.raw,
    ensures
        setup.reaches(y),
        setup.edge_on_right(u, v) ==> setup.row_spec(y).0.1 == edge_column(u, v, y),
        setup.edge_on_left(u, v) ==> setup.row_spec(y).0.0 == edge_column(u, v, y),
{
}

/// Two triangles on the two sides of a shared edge leave no gap and no
/// overlap along it. On every row from the upper end of the edge down to,
/// not including, its lower end, the row of the triangle on the left ends
/// in the column in which the row of the triangle on the right begins: no
/// column lies in both rows, and every column from the left end of the
/// first to the right end of the second lies in exactly one of them.
pub proof fn lemma_shared_edge_covers_once(
    left: TriangleSetup,
    right: TriangleSetup,
    u: Vec2,
    v: Vec2,
    y: Real,
    x: int,
)
    requires
        left.consistent(),
        right.consistent(),
        left.edge_on_right(u, v),
        right.edge_on_left(u, v),
        u.y.raw <= y.raw < v.y.raw,
    ensures
        left.row_spec(y).0.1 == right.row_spec(y).0.0,
        !(row_covers(left.row_spec(y), x) && row_covers(right.row_spec(y), x)),
        left.row_spec(y).0.0 <= x < right.row_spec(y).0.1 ==> (row_covers(left.row_spec(y), x)
            || row_covers(right.row_spec(y), x)),
{
    lemma_edge_bounds_row(left, u, v, y);
    lemma_edge_bounds_row(right, u, v, y);
}

} // verus!

verus! {

/// The largest magnitude, in raw units, of the coordinates for which the
/// laws on triangles with whole pixel coordinates are stated: 2^29 pixels.
pub const GRID_LIMIT_RAW: i64 = 0x2000_0000_0000_0000;

/// Whether both coordinates of the point are whole pixels within the grid limit.
pub open spec fn on_grid(p: Vec2) -> bool {
    &&& p.x.raw % ONE_RAW == 0
    &&& p.y.raw % ONE_RAW == 0
    &&& -GRID_LIMIT_RAW <= p.x.raw <= GRID_LIMIT_RAW
    &&& -GRID_LIMIT_RAW <= p.y.raw <= GRID_LIMIT_RAW
}

/// Twice the signed area of the triangle `u`, `v`, `c`, in raw units. With
/// `u` above `v` it is positive where `c` lies to the left of the line
/// through `u` and `v`, negative where `c` lies to the right, and zero
/// where the three points are on one line.
pub open spec fn cross(u: Vec2, v: Vec2, c: Vec2) -> int {
    (v.x.raw - u.x.raw) * (c.y.raw - u.y.raw) - (v.y.raw - u.y.raw) * (c.x.raw - u.x.raw)
}

/// Whether the three points `p0`, `p1`, `p2` are `u`, `v`, `c` in some order.
pub open spec fn same_corners(p0: Vec2, p1: Vec2, p2: Vec2, u: Vec2, v: Vec2, c: Vec2) -> bool {
    ||| p0 == u && p1 == v && p2 == c
    ||| p0 == u && p1 == c && p2 == v
    ||| p0 == v && p1 == u && p2 == c
    ||| p0 == v && p1 == c && p2 == u
    ||| p0 == c && p1 == u && p2 == v
    ||| p0 == c && p1 == v && p2 == u
}

/// The signed area of whole-pixel points is a whole multiple of the square
/// of one, so where it is not zero it is at least that in magnitude.
proof fn lemma_cross_is_coarse(u: Vec2, v: Vec2, c: Vec2)
    requires
        on_grid(u),
        on_grid(v),
        on_grid(c),
    ensures
        cross(u, v, c) > 0 ==> cross(u, v, c) >= 0x1_0000_0000 * 0x1_0000_0000,
        cross(u, v, c) < 0 ==> cross(u, v, c) <= -(0x1_0000_0000 * 0x1_0000_0000),
{
    let one = 0x1_0000_0000int;
    let ux = u.x.raw as int;
    let uy = u.y.raw as int;
    let vx = v.x.raw as int;
    let vy = v.y.raw as int;
    let cx = c.x.raw as int;
    let cy = c.y.raw as int;
    assert(ux == one * (ux / one) && uy == one * (uy / one));
    assert(vx == one * (vx / one) && vy == one * (vy / one));
    assert(cx == one * (cx / one) && cy == one * (cy / one));
    let a1 = vx / one - ux / one;
    let b1 = cy / one - uy / one;
    let e1 = vy / one - uy / one;
    let f1 = cx / one - ux / one;
    let k = a1 * b1 - e1 * f1;
    assert((vx - ux) * (cy - uy) - (vy - uy) * (cx - ux) == one * one * k) by (nonlinear_arith)
        requires
            vx - ux == one * a1,
            cy - uy == one * b1,
            vy - uy == one * e1,
            cx - ux == one * f1,
            k == a1 * b1 - e1 * f1,
    ;
    assert(k >= 1 ==> one * one * k >= one * one) by (nonlinear_arith)
        requires
            one == 0x1_0000_0000,
    ;
    assert(k <= -1 ==> one * one * k <= -(one * one)) by (nonlinear_arith)
        requires
            one == 0x1_0000_0000,
    ;
    assert(k == 0 ==> one * one * k == 0) by (nonlinear_arith);
}

/// Swapping the second and third point, or moving the third point to the
/// front, changes the sign of the signed area and nothing else.
proof fn lemma_cross_swap(u: Vec2, v: Vec2, c: Vec2)
    ensures
        cross(u, c, v) == -cross(u, v, c),
        cross(c, v, u) == -cross(u, v, c),
{
    let ux = u.x.raw as int;
    let uy = u.y.raw as int;
    let vx = v.x.raw as int;
    let vy = v.y.raw as int;
    let cx = c.x.raw as int;
    let cy = c.y.raw as int;
    assert((cx - ux) * (vy - uy) - (cy - uy) * (vx - ux) == -((vx - ux) * (cy - uy) - (vy - uy) * (
    cx - ux))) by (nonlinear_arith);
    assert((vx - cx) * (uy - cy) - (vy - cy) * (ux - cx) == -((vx - ux) * (cy - uy) - (vy - uy) * (
    cx - ux))) by (nonlinear_arith);
}

/// For whole-pixel corners the orientation test is exact: the line from
/// `t` down to `b` passes to the right of `m` on the row of `m` where `m`
/// lies to its left, and does not where `m` lies to its right.
proof fn lemma_orientation(t: Vec2, m: Vec2, b: Vec2)
    requires
        on_grid(t),
        on_grid(m),
        on_grid(b),
        t.y.raw < b.y.raw,
        t.y.raw <= m.y.raw <= b.y.raw,
    ensures
        cross(t, b, m) > 0 ==> Line::new_spec(t, b).x_spec(m.y).raw > m.x.raw,
        cross(t, b, m) < 0 ==> Line::new_spec(t, b).x_spec(m.y).raw <= m.x.raw,
{
    let one = 0x1_0000_0000int;
    let tx = t.x.raw as int;
    let ty = t.y.raw as int;
    let mx = m.x.raw as int;
    let my = m.y.raw as int;
    let bx = b.x.raw as int;
    let by = b.y.raw as int;
    let line = Line::new_spec(t, b);
    let dy = by - ty;
    let n = my - ty;
    let k = mx - tx;
    assert(tx == one * (tx / one) && ty == one * (ty / one));
    assert(mx == one * (mx / one) && my == one * (my / one));
    assert(bx == one * (bx / one) && by == one * (by / one));
    assert(dy >= one);
    assert(line.y0 == t.y);
    assert(line.dy.raw == dy);
    assert(m.y.sub(line.y0).raw == n);
    lemma_cross_is_coarse(t, b, m);
    let c = cross(t, b, m);
    assert(c == (bx - tx) * n - dy * k);
    if tx == bx {
        assert(line.x0.raw == tx + 4);
        assert(line.dx.raw == -4);
        let p = n * (-4);
        let q = p / dy;
        assert(-4 * dy <= p <= 0) by (nonlinear_arith)
            requires
                p == n * (-4),
                0 <= n <= dy,
        ;
        vstd::arithmetic::div_mod::lemma_fundamental_div_mod(p, dy);
        vstd::arithmetic::div_mod::lemma_mod_bound(p, dy);
        assert(-4 <= q <= 0) by (nonlinear_arith)
            requires
                p == dy * q + p % dy,
                0 <= p % dy < dy,
                -4 * dy <= p <= 0,
                dy > 0,
        ;
        assert(m.y.sub(line.y0).raw * line.dx.raw == p);
        assert(line.x_spec(m.y).raw == tx + 4 + q);
        assert(c == -(dy * k)) by (nonlinear_arith)
            requires
                c == (bx - tx) * n - dy * k,
                bx - tx == 0,
        ;
        assert(k == one * (mx / one - tx / one));
        assert(dy * k > 0 ==> k >= one) by (nonlinear_arith)
            requires
                dy > 0,
                k == one * (mx / one - tx / one),
                one == 0x1_0000_0000,
        ;
        assert(dy * k < 0 ==> k <= -one) by (nonlinear_arith)
            requires
                dy > 0,
                k == one * (mx / one - tx / one),
                one == 0x1_0000_0000,
        ;
    } else {
        assert(tx - bx >= one || tx - bx <= -one);
        let dx = bx - tx;
        assert(line.x0 == t.x);
        assert(line.dx.raw == dx);
        let p = n * dx;
        let q = p / dy;
        vstd::arithmetic::div_mod::lemma_fundamental_div_mod(p, dy);
        vstd::arithmetic::div_mod::lemma_mod_bound(p, dy);
        assert(-0x4000_0000_0000_0000 <= q <= 0x4000_0000_0000_0000) by (nonlinear_arith)
            requires
                p == n * dx,
                p == dy * q + p % dy,
                0 <= p % dy < dy,
                0 <= n <= dy,
                dy > 0,
                -0x4000_0000_0000_0000 <= dx <= 0x4000_0000_0000_0000,
        ;
        assert(m.y.sub(line.y0).raw * line.dx.raw == p);
        assert(line.x_spec(m.y).raw == tx + q);
        assert(c == p - dy * k) by (nonlinear_arith)
            requires
                c == dx * n - dy * k,
                p == n * dx,
        ;
        assert(dy <= 0x4000_0000_0000_0000);
        if c > 0 {
            assert(q > k) by (nonlinear_arith)
                requires
                    c == p - dy * k,
                    c >= 0x1_0000_0000 * 0x1_0000_0000,
                    p == dy * q + p % dy,
                    0 <= p % dy < dy,
                    0 < dy <= 0x4000_0000_0000_0000,
            ;
        }
        if c < 0 {
            assert(q < k) by (nonlinear_arith)
                requires
                    c == p - dy * k,
                    c < 0,
                    p == dy * q + p % dy,
                    0 <= p % dy < dy,
                    0 < dy,
            ;
        }
    }
}

/// A triangle with whole-pixel corners has the edge between two of them on
/// its right where the third corner lies to the left of that edge, and on
/// its left where the third corner lies to the right.
pub proof fn lemma_edge_side(p0: Vec2, p1: Vec2, p2: Vec2, u: Vec2, v: Vec2, c: Vec2)
    requires
        same_corners(p0, p1, p2, u, v, c),
        on_grid(u),
        on_grid(v),
        on_grid(c),
        u.y.raw < v.y.raw,
    ensures
        TriangleSetup::new_spec(p0, p1, p2).has_edge(u, v),
        cross(u, v, c) > 0 ==> TriangleSetup::new_spec(p0, p1, p2).edge_on_right(u, v),
        cross(u, v, c) < 0 ==> TriangleSetup::new_spec(p0, p1, p2).edge_on_left(u, v),
{
    let setup = TriangleSetup::new_spec(p0, p1, p2);
    let t = setup.top.pos;
    let m = setup.mid.pos;
    let b = setup.bottom.pos;
    assert(same_corners(t, m, b, u, v, c));
    lemma_orientation(t, m, b);
    lemma_cross_swap(u, v, c);
    assert(setup.mid_on_left == (setup.full.x_spec(m.y).raw > m.x.raw));
}

/// Two triangles with whole-pixel corners that lie on the two sides of a
/// shared edge cover every pixel along it exactly once. On every row from
/// the upper end of the edge down to, not including, its lower end, the row
/// of the triangle on the left ends in the column in which the row of the
/// triangle on the right begins: no column lies in both rows, and every
/// column from the left end of the first to the right end of the second
/// lies in one of them.
pub proof fn lemma_shared_edge_of_grid_triangles(
    left: (Vec2, Vec2, Vec2),
    right: (Vec2, Vec2, Vec2),
    u: Vec2,
    v: Vec2,
    c: Vec2,
    d: Vec2,
    y: Real,
    x: int,
)
    requires
        same_corners(left.0, left.1, left.2, u, v, c),
        same_corners(right.0, right.1, right.2, u, v, d),
        on_grid(u),
        on_grid(v),
        on_grid(c),
        on_grid(d),
        cross(u, v, c) > 0,
        cross(u, v, d) < 0,
        u.y.raw <= y.raw < v.y.raw,
    ensures
        ({
            let one = TriangleSetup::new_spec(left.0, left.1, left.2).row_spec(y);
            let other = TriangleSetup::new_spec(right.0, right.1, right.2).row_spec(y);
            &&& one.0.1 == edge_column(u, v, y)
            &&& other.0.0 == edge_column(u, v, y)
            &&& !(row_covers(one, x) && row_covers(other, x))
            &&& one.0.0 <= x < other.0.1 ==> row_covers(one, x) || row_covers(other, x)
        }),
{
    let one = TriangleSetup::new_spec(left.0, left.1, left.2);
    let other = TriangleSetup::new_spec(right.0, right.1, right.2);
    lemma_edge_side(left.0, left.1, left.2, u, v, c);
    lemma_edge_side(right.0, right.1, right.2, u, v, d);
    lemma_setup_consistent(left.0, left.1, left.2);
    lemma_setup_consistent(right.0, right.1, right.2);
    lemma_edge_bounds_row(one, u, v, y);
    lemma_edge_bounds_row(other, u, v, y);
    lemma_shared_edge_covers_once(one, other, u, v, y, x);
}

} // verus!
