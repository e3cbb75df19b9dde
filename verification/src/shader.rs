//! The shading pipeline: a shading program supplies a vertex stage and a
//! fragment stage, and `draw` runs them over indexed triangles into a
//! framebuffer.
use crate::buffer::{Buffer, BufferView, PixelWrite};
use crate::rasterizer::{Rasterizer, Row, TriangleRasterizer, TriangleSetup};
use crate::scalar::{Real, ONE_RAW};
use crate::utils::{Interpolate, NumLike, Remap};
use crate::vector::{Vec2, Vec3, Vec4};
use vstd::prelude::*;

verus! {

/// An edge walked from its upper end down, one pixel row per step: the
/// column reached and the fraction of the way covered.
#[derive(Clone, Copy, Debug, PartialEq, Eq, Structural)]
pub struct Edge {
    pub curr_x: Real,
    pub x_step: Real,
    pub curr_ratio: Real,
    pub ratio_step: Real,
    pub first: bool,
}

impl Edge {
    /// The walk from `min_y_vert` down to `max_y_vert`, before its first step.
    pub open spec fn new_spec(min_y_vert: Vec2, max_y_vert: Vec2) -> Edge {
        let y_dist = max_y_vert.y.sub(min_y_vert.y);
        let x_dist = max_y_vert.x.sub(min_y_vert.x);
        Edge {
            curr_x: min_y_vert.x,
            x_step: x_dist.div(y_dist),
            curr_ratio: Real::zero(),
            ratio_step: Real::one().div(y_dist),
            first: true,
        }
    }

    /// The walk after one more step. The first step stays on the upper end.
    pub open spec fn next_spec(self) -> Edge {
        if self.first {
            Edge { first: false, ..self }
        } else {
            Edge {
                curr_x: self.curr_x.add(self.x_step),
                curr_ratio: self.curr_ratio.add(self.ratio_step),
                ..self
            }
        }
    }

    #[verifier::when_used_as_spec(new_spec)]
    pub fn new(min_y_vert: Vec2, max_y_vert: Vec2) -> (r: Edge)
        ensures
            r == Edge::new_spec(min_y_vert, max_y_vert),
    {
        let y_dist: Real = max_y_vert.y.sub(min_y_vert.y);
        let x_dist: Real = max_y_vert.x.sub(min_y_vert.x);
        Edge {
            curr_x: min_y_vert.x,
            x_step: x_dist.div(y_dist),
            curr_ratio: Real::zero(),
            ratio_step: Real::one().div(y_dist),
            first: true,
        }
    }

    /// Takes one step and returns the column and the fraction reached.
    pub fn next(&mut self) -> (r: (Real, Real))
        ensures
            *final(self) == old(self).next_spec(),
            r == (final(self).curr_x, final(self).curr_ratio),
    {
        if self.first {
            self.first = false;
        } else {
            self.curr_x = self.curr_x.add(self.x_step);
            self.curr_ratio = self.curr_ratio.add(self.ratio_step);
        }
        (self.curr_x, self.curr_ratio)
    }
}

/// The point a fraction `t` of the way from `start` to `stop`:
/// `(1 - t) * start + t * stop`.
pub open spec fn lerp_spec(start: Vec3, stop: Vec3, t: Real) -> Vec3 {
    start.scale_spec(Real::one().sub(t)).plus_spec(stop.scale_spec(t))
}

#[verifier::when_used_as_spec(lerp_spec)]
pub fn lerp(start: Vec3, stop: Vec3, t: Real) -> (r: Vec3)
    ensures
        r == lerp_spec(start, stop, t),
{
    start.scale(Real::one().sub(t)).plus(stop.scale(t))
}

/// The position in pixel space of a clip-space position, for a buffer of
/// `w` by `h` pixels. The first coordinate is mapped from -1..1 to
/// -0.5..w+0.5, the second from 1..-1 to -0.5..h+0.5 (so that +1 is the
/// top), and both are rounded to the nearest whole pixel; the third is
/// carried through.
pub open spec fn screen_to_buffer_space_spec(p: Vec4, w: usize, h: usize) -> Vec3 {
    Vec3 {
        x: Real::from_int_spec(
            p.x.remap_spec(
                Real::one().neg(),
                Real::one(),
                Real::half().neg(),
                Real::from_int_spec(w as int).add(Real::half()),
            ).round_spec(),
        ),
        y: Real::from_int_spec(
            p.y.remap_spec(
                Real::one(),
                Real::one().neg(),
                Real::half().neg(),
                Real::from_int_spec(h as int).add(Real::half()),
            ).round_spec(),
        ),
        z: p.z,
    }
}

#[verifier::when_used_as_spec(screen_to_buffer_space_spec)]
pub fn screen_to_buffer_space(p: Vec4, w: usize, h: usize) -> (r: Vec3)
    ensures
        r == screen_to_buffer_space_spec(p, w, h),
{
    let x: Real = p.x.remap(
        Real::one().neg(),
        Real::one(),
        Real::half().neg(),
        Real::from_usize(w).add(Real::half()),
    );
    let y: Real = p.y.remap(
        Real::one(),
        Real::one().neg(),
        Real::half().neg(),
        Real::from_usize(h).add(Real::half()),
    );
    Vec3 { x: Real::from_int(x.round()), y: Real::from_int(y.round()), z: p.z }
}

/// The weights of the three corners at column `x` of a row: the weights at
/// the two ends of the row, blended by how far `x` lies from the left end.
pub open spec fn pixel_weights_spec(row: Row, x: i64) -> Vec3 {
    let t = Real::ratio_spec((x - row.0.0) as i64, (row.0.1 - row.0.0) as i64);
    lerp_spec(
        Vec3 { x: row.1.0, y: row.1.1, z: row.1.2 },
        Vec3 { x: row.2.0, y: row.2.1, z: row.2.2 },
        t,
    )
}

/// Computes the weights of the three corners at column `x` of a row.
pub fn pixel_weights(row: &Row, x: i64) -> (r: Vec3)
    requires
        row.0.0 <= x < row.0.1,
    ensures
        r == pixel_weights_spec(*row, x),
{
    let t: Real = Real::ratio(x - row.0.0 as i64, row.0.1 as i64 - row.0.0 as i64);
    lerp(
        Vec3 { x: row.1.0, y: row.1.1, z: row.1.2 },
        Vec3 { x: row.2.0, y: row.2.1, z: row.2.2 },
        t,
    )
}

} // verus!

verus! {

/// What the vertex stage made of the three corners of one triangle.
pub struct Staged<V> {
    /// The clip-space positions of the corners.
    pub positions: (Vec4, Vec4, Vec4),
    /// The values to interpolate across the triangle.
    pub varyings: (V, V, V),
}

/// A shading program: a vertex stage that places a vertex and gives it a
/// value to interpolate, and a fragment stage that colours a pixel from the
/// interpolated value.
pub trait Shader: Sized {
    /// The attributes of one vertex.
    type Vertex;

    /// What the vertex stage hands to the fragment stage.
    type VertexShaderOut: Interpolate;

    /// The result of the vertex stage, which depends on the program and the
    /// vertex alone.
    open spec fn vertex_spec(&self, vertex: &Self::Vertex) -> (Vec4, Self::VertexShaderOut) {
        arbitrary()
    }

    /// The result of the fragment stage, which depends on the program and
    /// the interpolated value alone.
    open spec fn fragment_spec(&self, varyings: &Self::VertexShaderOut) -> Vec4 {
        arbitrary()
    }

    /// The vertex stage. The first two coordinates of the position are in
    /// normalized device coordinates; the third is the depth of the vertex.
    fn vertex(&self, vertex: &Self::Vertex) -> (r: (Vec4, Self::VertexShaderOut))
        ensures
            r == self.vertex_spec(vertex),
    ;

    /// The fragment stage. The result is a colour with red, green, blue and
    /// alpha in this order.
    fn fragment(&self, varyings: &Self::VertexShaderOut) -> (r: Vec4)
        ensures
            r == self.fragment_spec(varyings),
    ;
}

/// The result of the vertex stage for the three corners of a triangle.
pub open spec fn stage_spec<S: Shader>(shader: &S, v0: S::Vertex, v1: S::Vertex, v2: S::Vertex)
    -> Staged<S::VertexShaderOut> {
    let r0 = shader.vertex_spec(&v0);
    let r1 = shader.vertex_spec(&v1);
    let r2 = shader.vertex_spec(&v2);
    Staged { positions: (r0.0, r1.0, r2.0), varyings: (r0.1, r1.1, r2.1) }
}

/// The rows setup of a staged triangle on a buffer of `width` by `height` pixels.
pub open spec fn setup_spec<V>(staged: Staged<V>, width: nat, height: nat) -> TriangleSetup {
    TriangleSetup::new_spec(
        screen_to_buffer_space_spec(staged.positions.0, width as usize, height as usize).xy(),
        screen_to_buffer_space_spec(staged.positions.1, width as usize, height as usize).xy(),
        screen_to_buffer_space_spec(staged.positions.2, width as usize, height as usize).xy(),
    )
}

/// The value written for a pixel at which the corners have the given
/// weights: the red, green and blue of the fragment stage run on the
/// interpolated varyings, then the interpolated depth of the corners.
pub open spec fn fragment_value<S: Shader>(
    shader: &S,
    staged: Staged<S::VertexShaderOut>,
    weights: Vec3,
) -> Seq<Real> {
    let varying = S::VertexShaderOut::interpolate_spec(
        staged.varyings.0,
        staged.varyings.1,
        staged.varyings.2,
        weights,
    );
    let colour = shader.fragment_spec(&varying);
    let depth = Real::interpolate_spec(
        staged.positions.0.z,
        staged.positions.1.z,
        staged.positions.2.z,
        weights,
    );
    seq![colour.x, colour.y, colour.z, depth]
}

/// The first column of a row that lies in the buffer.
pub open spec fn first_column(row: Row) -> int {
    if row.0.0 < 0 {
        0
    } else {
        row.0.0 as int
    }
}

/// The column after the last one of a row that lies in a buffer of `width` columns.
pub open spec fn end_column(row: Row, width: nat) -> int {
    if row.0.1 < width {
        row.0.1 as int
    } else {
        width as int
    }
}

/// The writes of one row of a triangle, from left to right: one for each
/// column from the left end of the row up to, not including, its right end,
/// as far as the column lies in the buffer.
pub open spec fn row_writes<S: Shader>(
    shader: &S,
    staged: Staged<S::VertexShaderOut>,
    row: Row,
    y: int,
    width: nat,
) -> Seq<PixelWrite> {
    let lo = first_column(row);
    let hi = end_column(row, width);
    Seq::new(
        if hi > lo {
            (hi - lo) as nat
        } else {
            0
        },
        |k: int|
            PixelWrite {
                x: lo + k,
                y,
                value: fragment_value(shader, staged, pixel_weights_spec(row, (lo + k) as i64)),
            },
    )
}

/// The writes of the first `rows` rows of a triangle, from the top row down.
pub open spec fn triangle_writes<S: Shader>(
    shader: &S,
    staged: Staged<S::VertexShaderOut>,
    width: nat,
    height: nat,
    rows: nat,
) -> Seq<PixelWrite>
    decreases rows,
{
    if rows == 0 {
        Seq::empty()
    } else {
        triangle_writes(shader, staged, width, height, (rows - 1) as nat) + row_writes(
            shader,
            staged,
            setup_spec(staged, width, height).row_spec(Real::from_int_spec(rows - 1)),
            rows - 1,
            width,
        )
    }
}

/// The writes of the first `triangles` triangles of an indexed list, in order.
pub open spec fn draw_writes<S: Shader>(
    shader: &S,
    width: nat,
    height: nat,
    vertices: Seq<S::Vertex>,
    indices: Seq<usize>,
    triangles: nat,
) -> Seq<PixelWrite>
    decreases triangles,
{
    if triangles == 0 {
        Seq::empty()
    } else {
        let k = triangles - 1;
        draw_writes(shader, width, height, vertices, indices, k as nat) + triangle_writes(
            shader,
            stage_spec(
                shader,
                vertices[indices[3 * k] as int],
                vertices[indices[3 * k + 1] as int],
                vertices[indices[3 * k + 2] as int],
            ),
            width,
            height,
            height,
        )
    }
}

/// Draws one row of a staged triangle.
pub fn draw_row<S: Shader>(
    shader: &S,
    buffer: &mut Buffer,
    staged: &Staged<S::VertexShaderOut>,
    row: &Row,
    y: usize,
)
    requires
        old(buffer)@.depth == 4,
        y < old(buffer)@.height,
    ensures
        final(buffer)@ == old(buffer)@.apply(
            row_writes(shader, *staged, *row, y as int, old(buffer)@.width),
        ),
        final(buffer)@.wf(),
{
    let width: usize = buffer.width();
    let limit: i64 = if width > i32::MAX as usize {
        i32::MAX as i64
    } else {
        width as i64
    };
    let lo: i64 = if row.0.0 < 0 {
        0
    } else {
        row.0.0 as i64
    };
    let hi: i64 = if (row.0.1 as i64) < limit {
        row.0.1 as i64
    } else {
        limit
    };
    let ghost start = buffer@;
    let ghost writes = row_writes(shader, *staged, *row, y as int, start.width);
    assert(lo == first_column(*row));
    assert(hi == end_column(*row, start.width));
    let mut x: i64 = lo;
    assert(writes.take(0) =~= Seq::<PixelWrite>::empty());
    while x < hi
        invariant
            lo <= x,
            lo < hi ==> x <= hi,
            0 <= lo,
            hi <= start.width,
            hi <= row.0.1,
            row.0.0 <= lo,
            lo == first_column(*row),
            hi == end_column(*row, start.width),
            y < start.height,
            start.depth == 4,
            start == old(buffer)@,
            writes == row_writes(shader, *staged, *row, y as int, start.width),
            buffer@.wf(),
            buffer@.width == start.width,
            buffer@.height == start.height,
            buffer@.depth == start.depth,
            x < hi ==> buffer@ == start.apply(writes.take(x - lo)),
            x >= hi ==> buffer@ == start.apply(writes),
        decreases hi - x,
    {
        let weights: Vec3 = pixel_weights(row, x);
        let varying: S::VertexShaderOut = S::VertexShaderOut::interpolate(
            &staged.varyings.0,
            &staged.varyings.1,
            &staged.varyings.2,
            &weights,
        );
        let colour: Vec4 = shader.fragment(&varying);
        let depth: Real = Real::interpolate(
            &staged.positions.0.z,
            &staged.positions.1.z,
            &staged.positions.2.z,
            &weights,
        );
        let value: [Real; 4] = [colour.x, colour.y, colour.z, depth];
        let ghost before = buffer@;
        let outcome = buffer.set_pixel(x as usize, y, value.as_slice());
        assert(outcome == Ok::<(), crate::buffer::BufferError>(()));
        proof {
            let k = x - lo;
            assert(value@ =~= fragment_value(shader, *staged, weights));
            assert(writes[k].x == x && writes[k].y == y as int);
            assert(writes[k].value == value@);
            assert(writes.take(k + 1) =~= writes.take(k).push(writes[k]));
            crate::buffer::lemma_apply_push(start, writes.take(k), writes[k]);
            crate::buffer::lemma_set_pixel_shape(before, x as int, y as int, value@);
            if x + 1 >= hi {
                assert(writes.take(k + 1) =~= writes);
            }
        }
        x += 1;
    }
    proof {
        if lo >= hi {
            assert(writes =~= Seq::<PixelWrite>::empty());
        }
    }
}

/// Draws one triangle: runs the vertex stage on its three corners, finds the
/// rows it covers, and draws them from the top row down.
pub fn draw_triangle<S: Shader>(
    shader: &S,
    buffer: &mut Buffer,
    v0: &S::Vertex,
    v1: &S::Vertex,
    v2: &S::Vertex,
)
    requires
        old(buffer)@.depth == 4,
    ensures
        final(buffer)@ == old(buffer)@.apply(
            triangle_writes(
                shader,
                stage_spec(shader, *v0, *v1, *v2),
                old(buffer)@.width,
                old(buffer)@.height,
                old(buffer)@.height,
            ),
        ),
        final(buffer)@.wf(),
{
    let width: usize = buffer.width();
    let height: usize = buffer.height();
    let (p0, a0) = shader.vertex(v0);
    let (p1, a1) = shader.vertex(v1);
    let (p2, a2) = shader.vertex(v2);
    let staged: Staged<S::VertexShaderOut> = Staged {
        positions: (p0, p1, p2),
        varyings: (a0, a1, a2),
    };
    let corners: [Vec2; 3] = [
        screen_to_buffer_space(p0, width, height).xy(),
        screen_to_buffer_space(p1, width, height).xy(),
        screen_to_buffer_space(p2, width, height).xy(),
    ];
    let mut rows: Vec<Row> = Vec::new();
    TriangleRasterizer.rasterize((width, height), &corners, &mut rows);
    let ghost start = buffer@;
    let ghost setup = setup_spec(staged, start.width, start.height);
    assert(rows@ =~= TriangleRasterizer.rows_spec((width, height), &corners));
    assert(staged == stage_spec(shader, *v0, *v1, *v2));
    let mut y: usize = 0;
    while y < height
        invariant
            y <= height,
            height == start.height,
            start == old(buffer)@,
            start.depth == 4,
            staged == stage_spec(shader, *v0, *v1, *v2),
            setup == setup_spec(staged, start.width, start.height),
            rows@.len() == height,
            forall|i: int|
                0 <= i < height ==> #[trigger] rows@[i] == setup.row_spec(Real::from_int_spec(i)),
            buffer@.wf(),
            buffer@.width == start.width,
            buffer@.height == start.height,
            buffer@.depth == start.depth,
            buffer@ == start.apply(
                triangle_writes(shader, staged, start.width, start.height, y as nat),
            ),
        decreases height - y,
    {
        let ghost before = buffer@;
        draw_row(shader, buffer, &staged, &rows[y], y);
        proof {
            let done = triangle_writes(shader, staged, start.width, start.height, y as nat);
            let more = row_writes(shader, staged, rows@[y as int], y as int, start.width);
            crate::buffer::lemma_apply_concat(start, done, more);
            crate::buffer::lemma_apply_shape(before, more);
        }
        y += 1;
    }
}

} // verus!

verus! {

/// Drawing with a shading program. Every shading program can draw.
pub trait Draw: Shader {
    /// Draws the triangles whose corners are the vertices that each three
    /// consecutive indices name. Every covered pixel gets the colour of the
    /// fragment stage and the interpolated depth of the corners, subject to
    /// the buffer's depth test.
    fn draw(&self, buffer: &mut Buffer, vertices: &[Self::Vertex], indices: &[usize])
        requires
            old(buffer)@.depth == 4,
            indices@.len() % 3 == 0,
            forall|i: int| 0 <= i < indices@.len() ==> indices@[i] < vertices@.len(),
        ensures
            final(buffer)@ == old(buffer)@.apply(
                draw_writes(
                    self,
                    old(buffer)@.width,
                    old(buffer)@.height,
                    vertices@,
                    indices@,
                    indices@.len() / 3,
                ),
            ),
            final(buffer)@.wf(),
    ;
}

impl<S: Shader> Draw for S {
    fn draw(&self, buffer: &mut Buffer, vertices: &[S::Vertex], indices: &[usize]) {
        let triangles: usize = indices.len() / 3;
        let ghost start = buffer@;
        proof {
            buffer.lemma_wf();
        }
        assert(indices.len() == indices@.len());
        let mut t: usize = 0;
        while t < triangles
            invariant
                t <= triangles,
                triangles == indices@.len() / 3,
                3 * triangles == indices@.len(),
                indices@.len() <= usize::MAX,
                forall|i: int| 0 <= i < indices@.len() ==> indices@[i] < vertices@.len(),
                start == old(buffer)@,
                start.depth == 4,
                buffer@.wf(),
                buffer@ == start.apply(
                    draw_writes(self, start.width, start.height, vertices@, indices@, t as nat),
                ),
            decreases triangles - t,
        {
            let i0: usize = indices[3 * t];
            let i1: usize = indices[3 * t + 1];
            let i2: usize = indices[3 * t + 2];
            proof {
                crate::buffer::lemma_apply_shape(
                    start,
                    draw_writes(self, start.width, start.height, vertices@, indices@, t as nat),
                );
                crate::buffer::lemma_apply_concat(
                    start,
                    draw_writes(self, start.width, start.height, vertices@, indices@, t as nat),
                    triangle_writes(
                        self,
                        stage_spec(
                            self,
                            vertices@[i0 as int],
                            vertices@[i1 as int],
                            vertices@[i2 as int],
                        ),
                        start.width,
                        start.height,
                        start.height,
                    ),
                );
            }
            draw_triangle(self, buffer, &vertices[i0], &vertices[i1], &vertices[i2]);
            t += 1;
        }
    }
}

} // verus!

verus! {

/// The most, in raw units, by which the three weights at a pixel can fall
/// short of one: each of the six products that make them up is rounded down
/// by less than one unit. Five units are about 1.2e-9.
pub const WEIGHT_SLACK_RAW: i64 = 5;

/// The product of two numbers between zero and one lies between zero and
/// one, and is rounded down by less than one raw unit.
pub proof fn lemma_unit_product(a: Real, b: Real)
    requires
        0 <= a.raw <= ONE_RAW,
        0 <= b.raw <= ONE_RAW,
    ensures
        0 <= a.mul(b).raw <= ONE_RAW,
        a.raw * b.raw - ONE_RAW < a.mul(b).raw * ONE_RAW <= a.raw * b.raw,
{
    let p = a.raw * b.raw;
    assert(0 <= p <= 0x1_0000_0000 * 0x1_0000_0000) by (nonlinear_arith)
        requires
            p == a.raw * b.raw,
            0 <= a.raw <= 0x1_0000_0000,
            0 <= b.raw <= 0x1_0000_0000,
    ;
    vstd::arithmetic::div_mod::lemma_fundamental_div_mod(p, 0x1_0000_0000);
    vstd::arithmetic::div_mod::lemma_mod_bound(p, 0x1_0000_0000);
    vstd::arithmetic::div_mod::lemma_div_is_ordered(0, p, 0x1_0000_0000);
    vstd::arithmetic::div_mod::lemma_div_is_ordered(
        p,
        0x1_0000_0000int * 0x1_0000_0000int,
        0x1_0000_0000,
    );
    vstd::arithmetic::div_mod::lemma_div_multiples_vanish(0x1_0000_0000, 0x1_0000_0000);
}

/// The fraction of a row covered up to one of its columns lies between zero
/// and one, and is zero at the left end.
pub proof fn lemma_column_fraction(row: Row, x: i64)
    requires
        row.0.0 <= x < row.0.1,
    ensures
        0 <= Real::ratio_spec((x - row.0.0) as i64, (row.0.1 - row.0.0) as i64).raw < ONE_RAW,
        x == row.0.0 ==> Real::ratio_spec((x - row.0.0) as i64, (row.0.1 - row.0.0) as i64)
            == Real::zero(),
{
    let n = x - row.0.0;
    let d = row.0.1 - row.0.0;
    assert(0 <= n * 0x1_0000_0000 < d * 0x1_0000_0000) by (nonlinear_arith)
        requires
            0 <= n < d,
    ;
    vstd::arithmetic::div_mod::lemma_div_is_ordered(0, n * 0x1_0000_0000, d);
    vstd::arithmetic::div_mod::lemma_fundamental_div_mod(n * 0x1_0000_0000, d);
    vstd::arithmetic::div_mod::lemma_mod_bound(n * 0x1_0000_0000, d);
    let q = (n * 0x1_0000_0000) / d;
    assert(q < 0x1_0000_0000) by (nonlinear_arith)
        requires
            d * q <= n * 0x1_0000_0000,
            n * 0x1_0000_0000 < d * 0x1_0000_0000,
            d > 0,
    ;
    assert(0int / d == 0) by (nonlinear_arith)
        requires
            d > 0,
    ;
}

/// At every column of a row whose two ends carry weights between zero and
/// one that sum to one, the three weights lie between zero and one and sum
/// to one within the slack, which is less than a millionth; at the left end
/// they are the weights of that end.
pub proof fn lemma_pixel_weights(row: Row, x: i64)
    requires
        crate::rasterizer::weights_in_unit(row.1),
        crate::rasterizer::weights_in_unit(row.2),
        crate::rasterizer::weight_sum(row.1) == ONE_RAW,
        crate::rasterizer::weight_sum(row.2) == ONE_RAW,
        row.0.0 <= x < row.0.1,
    ensures
        0 <= pixel_weights_spec(row, x).x.raw <= ONE_RAW,
        0 <= pixel_weights_spec(row, x).y.raw <= ONE_RAW,
        0 <= pixel_weights_spec(row, x).z.raw <= ONE_RAW,
        ONE_RAW - WEIGHT_SLACK_RAW <= pixel_weights_spec(row, x).x.raw + pixel_weights_spec(
            row,
            x,
        ).y.raw + pixel_weights_spec(row, x).z.raw <= ONE_RAW,
        1_000_000 * (ONE_RAW - (pixel_weights_spec(row, x).x.raw + pixel_weights_spec(
            row,
            x,
        ).y.raw + pixel_weights_spec(row, x).z.raw)) < ONE_RAW,
        x == row.0.0 ==> pixel_weights_spec(row, x) == (Vec3 {
            x: row.1.0,
            y: row.1.1,
            z: row.1.2,
        }),
{
    let t = Real::ratio_spec((x - row.0.0) as i64, (row.0.1 - row.0.0) as i64);
    let s = Real::one().sub(t);
    lemma_column_fraction(row, x);
    assert(s.raw == ONE_RAW - t.raw);
    lemma_unit_product(row.1.0, s);
    lemma_unit_product(row.1.1, s);
    lemma_unit_product(row.1.2, s);
    lemma_unit_product(row.2.0, t);
    lemma_unit_product(row.2.1, t);
    lemma_unit_product(row.2.2, t);
    let l0 = row.1.0.raw as int;
    let l1 = row.1.1.raw as int;
    let l2 = row.1.2.raw as int;
    let r0 = row.2.0.raw as int;
    let r1 = row.2.1.raw as int;
    let r2 = row.2.2.raw as int;
    let sv = s.raw as int;
    let tv = t.raw as int;
    assert(l0 * sv + l1 * sv + l2 * sv + r0 * tv + r1 * tv + r2 * tv == 0x1_0000_0000
        * 0x1_0000_0000) by (nonlinear_arith)
        requires
            l0 + l1 + l2 == 0x1_0000_0000,
            r0 + r1 + r2 == 0x1_0000_0000,
            sv + tv == 0x1_0000_0000,
    ;
    if x == row.0.0 {
        crate::utils::lemma_mul_identities(row.1.0);
        crate::utils::lemma_mul_identities(row.1.1);
        crate::utils::lemma_mul_identities(row.1.2);
        crate::utils::lemma_mul_identities(row.2.0);
        crate::utils::lemma_mul_identities(row.2.1);
        crate::utils::lemma_mul_identities(row.2.2);
    }
}

} // verus!

verus! {

/// Where every write of two sequences is admitted, so is every write of
/// the one followed by the other.
pub proof fn lemma_admits_concat(b: BufferView, first: Seq<PixelWrite>, second: Seq<PixelWrite>)
    requires
        b.admits_all(first),
        b.admits_all(second),
    ensures
        b.admits_all(first + second),
{
    assert forall|i: int| 0 <= i < (first + second).len() implies b.admits(
        #[trigger] (first + second)[i],
    ) by {
        if i < first.len() {
            assert((first + second)[i] == first[i]);
        } else {
            assert((first + second)[i] == second[i - first.len()]);
        }
    }
}

/// Every write of a row names a pixel of the buffer and has four channels.
pub proof fn lemma_row_writes_admitted<S: Shader>(
    b: BufferView,
    shader: &S,
    staged: Staged<S::VertexShaderOut>,
    row: Row,
    y: int,
)
    requires
        b.depth == 4,
        0 <= y < b.height,
    ensures
        b.admits_all(row_writes(shader, staged, row, y, b.width)),
{
}

/// Every write of a triangle names a pixel of the buffer and has four channels.
pub proof fn lemma_triangle_writes_admitted<S: Shader>(
    b: BufferView,
    shader: &S,
    staged: Staged<S::VertexShaderOut>,
    rows: nat,
)
    requires
        b.depth == 4,
        rows <= b.height,
    ensures
        b.admits_all(triangle_writes(shader, staged, b.width, b.height, rows)),
    decreases rows,
{
    if rows > 0 {
        lemma_triangle_writes_admitted(b, shader, staged, (rows - 1) as nat);
        lemma_row_writes_admitted(
            b,
            shader,
            staged,
            setup_spec(staged, b.width, b.height).row_spec(Real::from_int_spec(rows - 1)),
            rows - 1,
        );
        lemma_admits_concat(
            b,
            triangle_writes(shader, staged, b.width, b.height, (rows - 1) as nat),
            row_writes(
                shader,
                staged,
                setup_spec(staged, b.width, b.height).row_spec(Real::from_int_spec(rows - 1)),
                rows - 1,
                b.width,
            ),
        );
    }
}

/// Every write of a draw names a pixel of the buffer and has four channels.
pub proof fn lemma_draw_writes_admitted<S: Shader>(
    b: BufferView,
    shader: &S,
    vertices: Seq<S::Vertex>,
    indices: Seq<usize>,
    triangles: nat,
)
    requires
        b.depth == 4,
    ensures
        b.admits_all(draw_writes(shader, b.width, b.height, vertices, indices, triangles)),
    decreases triangles,
{
    if triangles > 0 {
        let k = triangles - 1;
        let staged = stage_spec(
            shader,
            vertices[indices[3 * k] as int],
            vertices[indices[3 * k + 1] as int],
            vertices[indices[3 * k + 2] as int],
        );
        lemma_draw_writes_admitted(b, shader, vertices, indices, k as nat);
        lemma_triangle_writes_admitted(b, shader, staged, b.height);
        lemma_admits_concat(
            b,
            draw_writes(shader, b.width, b.height, vertices, indices, k as nat),
            triangle_writes(shader, staged, b.width, b.height, b.height),
        );
    }
}

/// Depth resolution does not depend on the order of two draws: where no
/// pixel gets the same depth from both, drawing the one and then the other
/// leaves the buffer that drawing them the other way round leaves.
pub proof fn lemma_draw_order<A: Shader, B: Shader>(
    b: BufferView,
    one: &A,
    one_vertices: Seq<A::Vertex>,
    one_indices: Seq<usize>,
    other: &B,
    other_vertices: Seq<B::Vertex>,
    other_indices: Seq<usize>,
)
    requires
        b.wf(),
        b.depth == 4,
        crate::buffer::independent(
            draw_writes(one, b.width, b.height, one_vertices, one_indices, one_indices.len() / 3),
            draw_writes(
                other,
                b.width,
                b.height,
                other_vertices,
                other_indices,
                other_indices.len() / 3,
            ),
        ),
    ensures
        b.apply(
            draw_writes(one, b.width, b.height, one_vertices, one_indices, one_indices.len() / 3),
        ).apply(
            draw_writes(
                other,
                b.width,
                b.height,
                other_vertices,
                other_indices,
                other_indices.len() / 3,
            ),
        ) == b.apply(
            draw_writes(
                other,
                b.width,
                b.height,
                other_vertices,
                other_indices,
                other_indices.len() / 3,
            ),
        ).apply(
            draw_writes(one, b.width, b.height, one_vertices, one_indices, one_indices.len() / 3),
        ),
{
    lemma_draw_writes_admitted(b, one, one_vertices, one_indices, one_indices.len() / 3);
    lemma_draw_writes_admitted(b, other, other_vertices, other_indices, other_indices.len() / 3);
    crate::buffer::lemma_apply_commutes(
        b,
        draw_writes(one, b.width, b.height, one_vertices, one_indices, one_indices.len() / 3),
        draw_writes(
            other,
            b.width,
            b.height,
            other_vertices,
            other_indices,
            other_indices.len() / 3,
        ),
    );
}

/// The three weights as a vector.
pub open spec fn as_vec3(w: (Real, Real, Real)) -> Vec3 {
    Vec3 { x: w.0, y: w.1, z: w.2 }
}

/// At every pixel that a triangle covers, the weights of its three corners
/// lie between zero and one and sum to one within less than a millionth.
pub proof fn lemma_weights_sum_to_one(setup: TriangleSetup, y: Real, x: i64)
    requires
        setup.wf(),
        crate::rasterizer::row_covers(setup.row_spec(y), x as int),
    ensures
        0 <= pixel_weights_spec(setup.row_spec(y), x).x.raw <= ONE_RAW,
        0 <= pixel_weights_spec(setup.row_spec(y), x).y.raw <= ONE_RAW,
        0 <= pixel_weights_spec(setup.row_spec(y), x).z.raw <= ONE_RAW,
        ONE_RAW - WEIGHT_SLACK_RAW <= pixel_weights_spec(setup.row_spec(y), x).x.raw
            + pixel_weights_spec(setup.row_spec(y), x).y.raw + pixel_weights_spec(
            setup.row_spec(y),
            x,
        ).z.raw <= ONE_RAW,
        1_000_000 * (ONE_RAW - (pixel_weights_spec(setup.row_spec(y), x).x.raw
            + pixel_weights_spec(setup.row_spec(y), x).y.raw + pixel_weights_spec(
            setup.row_spec(y),
            x,
        ).z.raw)) < ONE_RAW,
{
    crate::rasterizer::lemma_row_is_barycentric(setup, y);
    lemma_pixel_weights(setup.row_spec(y), x);
}

/// At the pixel of a corner that begins its row, the corner has weight one
/// and the other two corners have none: so it is for the middle corner
/// where it lies on the left, and for the top corner where it is alone on
/// its row or the long edge is the left side.
pub proof fn lemma_corner_pixel(setup: TriangleSetup, y: Real)
    requires
        setup.wf(),
        setup.row_spec(y).0.0 < setup.row_spec(y).0.1,
    ensures
        y == setup.mid.pos.y && setup.mid_on_left ==> pixel_weights_spec(
            setup.row_spec(y),
            setup.row_spec(y).0.0 as i64,
        ) == as_vec3(crate::rasterizer::unit_weights(setup.mid.index)),
        y == setup.top.pos.y && (!setup.mid_on_left || setup.top.pos.y.raw
            < setup.mid.pos.y.raw) ==> pixel_weights_spec(
            setup.row_spec(y),
            setup.row_spec(y).0.0 as i64,
        ) == as_vec3(crate::rasterizer::unit_weights(setup.top.index)),
{
    crate::rasterizer::lemma_row_is_barycentric(setup, y);
    crate::rasterizer::lemma_corner_weights(setup);
    lemma_pixel_weights(setup.row_spec(y), setup.row_spec(y).0.0 as i64);
}

} // verus!
