//! Tinted coverage ranges: a triangle with corners in the unit square is cut
//! into one range of columns per pixel row, and each end of a range carries a
//! tint that fades along the edge it lies on.
use crate::scalar::Real;
use vstd::prelude::*;

verus! {

/// Slopes and column differences smaller than this many raw units, about
/// 1e-7, are treated as none.
pub const SLOPE_EPSILON_RAW: i64 = 429;

/// One row of coverage: the first column, the column after the last, the
/// tint at the left end and the tint at the right end.
pub type RasterRange = (i32, i32, (u8, u8, u8), (u8, u8, u8));

/// A point of the unit square: both coordinates run from zero to one.
#[derive(Clone, Copy, Debug, PartialEq, Eq, Structural)]
pub struct Vector2 {
    pub x: Real,
    pub y: Real,
}

/// A line `y = m * x + b`.
#[derive(Clone, Copy, Debug, PartialEq, Eq, Structural)]
pub struct Line {
    pub m: Real,
    pub b: Real,
}

/// Whether two raw values differ by less than the slope epsilon.
pub open spec fn close_spec(a: Real, b: Real) -> bool {
    -SLOPE_EPSILON_RAW < a.raw - b.raw < SLOPE_EPSILON_RAW
}

/// Tells whether two numbers differ by less than the slope epsilon.
pub fn close(a: Real, b: Real) -> (r: bool)
    ensures
        r == close_spec(a, b),
{
    let diff: i128 = a.raw as i128 - b.raw as i128;
    -(SLOPE_EPSILON_RAW as i128) < diff && diff < SLOPE_EPSILON_RAW as i128
}

impl Line {
    /// The line through `p0` and `p1`. Where the two points are in one
    /// column, `p0` is first moved to the right by the slope epsilon.
    pub open spec fn new_spec(p0: Vector2, p1: Vector2) -> Line {
        let x0 = if close_spec(p0.x, p1.x) {
            p0.x.add(Real { raw: SLOPE_EPSILON_RAW })
        } else {
            p0.x
        };
        let m = p0.y.sub(p1.y).div(x0.sub(p1.x));
        Line { m, b: p0.y.sub(m.mul(x0)) }
    }

    /// The column at which the line crosses row `y`; zero for a line that
    /// is level.
    pub open spec fn x_spec(&self, y: Real) -> Real {
        if close_spec(self.m, Real::zero()) {
            Real::zero()
        } else {
            y.sub(self.b).div(self.m)
        }
    }

    #[verifier::when_used_as_spec(new_spec)]
    pub fn new(p0: Vector2, p1: Vector2) -> (r: Line)
        ensures
            r == Line::new_spec(p0, p1),
    {
        let x0: Real = if close(p0.x, p1.x) {
            p0.x.add(Real { raw: SLOPE_EPSILON_RAW })
        } else {
            p0.x
        };
        let m: Real = p0.y.sub(p1.y).div(x0.sub(p1.x));
        Line { m, b: p0.y.sub(m.mul(x0)) }
    }

    #[verifier::when_used_as_spec(x_spec)]
    pub fn x(&self, y: Real) -> (r: Real)
        ensures
            r == self.x_spec(y),
    {
        if close(self.m, Real::zero()) {
            Real::zero()
        } else {
            y.sub(self.b).div(self.m)
        }
    }
}

/// A triangle given by its corners.
#[derive(Clone, Copy, Debug, PartialEq, Eq, Structural)]
pub struct Triangle {
    pub p0: Vector2,
    pub p1: Vector2,
    pub p2: Vector2,
}

/// The two points ordered by row; points on one row keep their order.
pub open spec fn by_row_spec(a: Vector2, b: Vector2) -> (Vector2, Vector2) {
    if a.y.raw > b.y.raw {
        (b, a)
    } else {
        (a, b)
    }
}

/// Orders two points by row.
pub fn by_row(a: Vector2, b: Vector2) -> (r: (Vector2, Vector2))
    ensures
        r == by_row_spec(a, b),
{
    if a.y.raw > b.y.raw {
        (b, a)
    } else {
        (a, b)
    }
}

/// The tint on row `y` of an edge that runs from row `from` to row `to`: 255
/// on the row `from`, fading to 0 on the row `to`.
pub open spec fn tint_spec(y: Real, from: Real, to: Real) -> u8 {
    Real::from_int_spec(255).mul_div(to.sub(y), to.sub(from)).to_u8()
}

/// Computes the tint on row `y` of an edge from row `from` to row `to`.
pub fn tint(y: Real, from: Real, to: Real) -> (r: u8)
    ensures
        r == tint_spec(y, from, to),
{
    Real::from_int(255).mul_div(to.sub(y), to.sub(from)).to_u8()
}

/// The pixel column of a position `x` of the unit square on a canvas of
/// `width` columns; the fraction is dropped.
pub open spec fn to_column_spec(x: Real, width: usize) -> i32 {
    x.mul(Real::from_int_spec(width as int)).trunc_spec() as i32
}

/// Computes the pixel column of a position of the unit square.
pub fn to_column(x: Real, width: usize) -> (r: i32)
    ensures
        r == to_column_spec(x, width),
{
    x.mul(Real::from_usize(width)).trunc() as i32
}

/// A count as a signed number, limited to the largest one.
pub open spec fn count_spec(n: usize) -> i64 {
    if n > i64::MAX {
        i64::MAX
    } else {
        n as i64
    }
}

/// Converts a count to a signed number.
pub fn count(n: usize) -> (r: i64)
    ensures
        r == count_spec(n),
{
    if n as u64 > i64::MAX as u64 {
        i64::MAX
    } else {
        n as i64
    }
}

impl Triangle {
    /// The corners from top to bottom.
    pub open spec fn sorted(self) -> (Vector2, Vector2, Vector2) {
        let first = by_row_spec(self.p0, self.p1);
        let second = by_row_spec(first.1, self.p2);
        let third = by_row_spec(first.0, second.0);
        (third.0, third.1, second.1)
    }

    /// Whether the middle corner lies to the left of the long edge.
    pub open spec fn middle_on_left(self) -> bool {
        let s = self.sorted();
        Line::new_spec(s.0, s.2).x_spec(s.1.y).raw > s.1.x.raw
    }

    /// The range of the row at height `y` of the unit square, on a canvas
    /// of `width` columns. A row above the top corner or below the bottom
    /// corner is empty. The tints are taken along the edges between the
    /// corners in the order given.
    pub open spec fn range_spec(self, y: Real, width: usize) -> RasterRange {
        let s = self.sorted();
        if y.raw < s.0.y.raw || y.raw > s.2.y.raw {
            (0i32, 0i32, (0u8, 0u8, 0u8), (0u8, 0u8, 0u8))
        } else {
            let below = y.raw > s.1.y.raw;
            let full_side = Line::new_spec(s.0, s.2).x_spec(y);
            let partial_side = if below {
                Line::new_spec(s.1, s.2).x_spec(y)
            } else {
                Line::new_spec(s.0, s.1).x_spec(y)
            };
            let full_tint = tint_spec(y, self.p0.y, self.p2.y);
            let partial_tint = if below {
                tint_spec(y, self.p1.y, self.p2.y)
            } else {
                tint_spec(y, self.p0.y, self.p1.y)
            };
            let left = if self.middle_on_left() {
                (partial_side, partial_tint)
            } else {
                (full_side, full_tint)
            };
            let right = if self.middle_on_left() {
                (full_side, full_tint)
            } else {
                (partial_side, partial_tint)
            };
            (
                to_column_spec(left.0, width),
                to_column_spec(right.0, width),
                (left.1, (255 - left.1) as u8, left.1),
                (right.1, (255 - right.1) as u8, right.1),
            )
        }
    }

    /// The ranges of all rows of a canvas, from the top row down. Row `i` of
    /// `canvas_size.1` rows lies at height `i / canvas_size.1`.
    pub open spec fn ranges_spec(self, canvas_size: (usize, usize)) -> Seq<RasterRange> {
        Seq::new(
            canvas_size.1 as nat,
            |i: int|
                self.range_spec(
                    Real::ratio_spec(count_spec(i as usize), count_spec(canvas_size.1)),
                    canvas_size.0,
                ),
        )
    }

    /// Computes the range of the row at height `y`.
    pub fn range(&self, y: Real, width: usize) -> (r: RasterRange)
        ensures
            r == self.range_spec(y, width),
    {
        let first: (Vector2, Vector2) = by_row(self.p0, self.p1);
        let second: (Vector2, Vector2) = by_row(first.1, self.p2);
        let third: (Vector2, Vector2) = by_row(first.0, second.0);
        let p0: Vector2 = third.0;
        let p1: Vector2 = third.1;
        let p2: Vector2 = second.1;
        if y.raw < p0.y.raw || y.raw > p2.y.raw {
            return (0, 0, (0, 0, 0), (0, 0, 0));
        }
        let long: Line = Line::new(p0, p2);
        let p1_is_on_left: bool = long.x(p1.y).raw > p1.x.raw;
        let below: bool = y.raw > p1.y.raw;
        let full_side: Real = long.x(y);
        let partial_side: Real = if below {
            Line::new(p1, p2).x(y)
        } else {
            Line::new(p0, p1).x(y)
        };
        let full_tint: u8 = tint(y, self.p0.y, self.p2.y);
        let partial_tint: u8 = if below {
            tint(y, self.p1.y, self.p2.y)
        } else {
            tint(y, self.p0.y, self.p1.y)
        };
        let (left, color_left) = if p1_is_on_left {
            (partial_side, partial_tint)
        } else {
            (full_side, full_tint)
        };
        let (right, color_right) = if p1_is_on_left {
            (full_side, full_tint)
        } else {
            (partial_side, partial_tint)
        };
        (
            to_column(left, width),
            to_column(right, width),
            (color_left, 255 - color_left, color_left),
            (color_right, 255 - color_right, color_right),
        )
    }

    /// Computes the ranges of all rows of a canvas of `canvas_size.0` columns
    /// and `canvas_size.1` rows.
    pub fn generate_raster_ranges(&self, canvas_size: (usize, usize)) -> (r: Vec<RasterRange>)
        ensures
            r@ == self.ranges_spec(canvas_size),
    {
        let rows: usize = canvas_size.1;
        let mut out: Vec<RasterRange> = Vec::new();
        let mut y_int: usize = 0;
        while y_int < rows
            invariant
                y_int <= rows,
                rows == canvas_size.1,
                out@ == self.ranges_spec(canvas_size).take(y_int as int),
            decreases rows - y_int,
        {
            let y: Real = Real::ratio(count(y_int), count(rows));
            out.push(self.range(y, canvas_size.0));
            y_int += 1;
        }
        out
    }
}

} // verus!

verus! {

/// A whole number reduced to a byte by dropping all but its lowest eight bits.
pub open spec fn low_byte_spec(v: int) -> u8 {
    (v % 256) as u8
}

/// Reduces a whole number to its lowest eight bits.
pub fn low_byte(v: i64) -> (r: u8)
    requires
        v > i64::MIN,
    ensures
        r == low_byte_spec(v as int),
{
    if v >= 0 {
        (v % 256) as u8
    } else {
        let m: i64 = (-v) % 256;
        proof {
            vstd::arithmetic::div_mod::lemma_fundamental_div_mod(-v, 256);
            let k = (-v) / 256;
            if m == 0 {
                vstd::arithmetic::div_mod::lemma_fundamental_div_mod_converse(v as int, 256, -k, 0);
            } else {
                vstd::arithmetic::div_mod::lemma_fundamental_div_mod_converse(
                    v as int,
                    256,
                    -k - 1,
                    256 - m,
                );
            }
        }
        if m == 0 {
            0
        } else {
            (256 - m) as u8
        }
    }
}

/// One channel of the colour at column `x` of a range from `left` to
/// `right`: the tint of the left end weighted by the distance to the right
/// end, less the tint of the right end weighted by the distance to the left
/// end, over the length of the range; the fraction is dropped and the
/// result reduced to a byte.
pub open spec fn blend_spec(near: u8, far: u8, left: i32, right: i32, x: i32) -> u8 {
    let n = near * (right - x) - far * (x - left);
    let d = right - left;
    low_byte_spec(
        if n >= 0 {
            n / d
        } else {
            -((-n) / d)
        },
    )
}

/// Computes one channel of the colour at column `x` of a range.
pub fn blend(near: u8, far: u8, left: i32, right: i32, x: i32) -> (r: u8)
    requires
        left <= x < right,
    ensures
        r == blend_spec(near, far, left, right, x),
{
    let right_dist: i64 = right as i64 - x as i64;
    let left_dist: i64 = x as i64 - left as i64;
    let full: i64 = right as i64 - left as i64;
    assert(0 <= near * right_dist <= 255 * 0x1_0000_0000 && 0 <= far * left_dist <= 255
        * 0x1_0000_0000) by (nonlinear_arith)
        requires
            0 <= near <= 255,
            0 <= far <= 255,
            0 <= right_dist <= 0x1_0000_0000,
            0 <= left_dist <= 0x1_0000_0000,
    ;
    let n: i64 = (near as i64) * right_dist - (far as i64) * left_dist;
    if n >= 0 {
        proof {
            vstd::arithmetic::div_mod::lemma_div_pos_is_pos(n as int, full as int);
        }
        low_byte(n / full)
    } else {
        proof {
            vstd::arithmetic::div_mod::lemma_div_pos_is_pos(-n, full as int);
            vstd::arithmetic::div_mod::lemma_div_is_ordered_by_denominator(-n, 1, full as int);
            vstd::arithmetic::div_mod::lemma_div_basics_3(-n);
        }
        low_byte(-((-n) / full))
    }
}

/// The colour at column `x` of a row with the given range: the blend of the
/// tints of its two ends inside the range, and black outside.
pub open spec fn range_colour_spec(range: RasterRange, x: i32) -> (u8, u8, u8) {
    if range.0 <= x < range.1 {
        (
            blend_spec(range.2.0, range.3.0, range.0, range.1, x),
            blend_spec(range.2.1, range.3.1, range.0, range.1, x),
            blend_spec(range.2.2, range.3.2, range.0, range.1, x),
        )
    } else {
        (0u8, 0u8, 0u8)
    }
}

/// Computes the colour at column `x` of a row with the given range.
pub fn range_colour(range: &RasterRange, x: i32) -> (r: (u8, u8, u8))
    ensures
        r == range_colour_spec(*range, x),
{
    if x >= range.0 && x < range.1 {
        (
            blend(range.2.0, range.3.0, range.0, range.1, x),
            blend(range.2.1, range.3.1, range.0, range.1, x),
            blend(range.2.2, range.3.2, range.0, range.1, x),
        )
    } else {
        (0, 0, 0)
    }
}

} // verus!

verus! {

/// One step of a coordinate that moves through the unit interval and turns
/// around at its ends: the position after `delta` seconds at half the
/// speed `direction`, and the direction after them. A position that left
/// the interval is put back on the end it crossed, and the direction is
/// reversed.
pub open spec fn bounce_spec(position: Real, direction: Real, delta: Real) -> (Real, Real) {
    let moved = position.add(Real::half().mul(direction).mul(delta));
    if moved.raw > Real::one().raw || moved.raw < 0 {
        (moved.max(Real::zero()).min(Real::one()), direction.neg())
    } else {
        (moved, direction)
    }
}

#[verifier::when_used_as_spec(bounce_spec)]
pub fn bounce(position: Real, direction: Real, delta: Real) -> (r: (Real, Real))
    ensures
        r == bounce_spec(position, direction, delta),
{
    let moved: Real = position.add(Real::half().mul(direction).mul(delta));
    if moved.raw > Real::one().raw || moved.raw < 0 {
        (moved.max(Real::zero()).min(Real::one()), direction.neg())
    } else {
        (moved, direction)
    }
}

} // verus!
