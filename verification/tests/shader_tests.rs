use soft_raster::buffer::Buffer;
use soft_raster::rasterizer::Row;
use soft_raster::scalar::{Real, ONE_RAW};
use soft_raster::shader::{
    draw_row, draw_triangle, lerp, pixel_weights, screen_to_buffer_space, Draw, Edge, Shader, Staged,
    WEIGHT_SLACK_RAW,
};
use soft_raster::utils::Interpolate;
use soft_raster::vector::{Vec2, Vec3, Vec4};

fn fx(v: f64) -> Real {
    Real { raw: (v * 4294967296.0).round() as i64 }
}

fn vec3(x: f64, y: f64, z: f64) -> Vec3 {
    Vec3::new(fx(x), fx(y), fx(z))
}

/// A vertex given in pixel coordinates, with a depth and a colour.
#[derive(Clone, Copy)]
struct Dot {
    x: f64,
    y: f64,
    depth: f64,
    colour: [f64; 3],
}

fn dot(x: f64, y: f64, depth: f64, colour: [f64; 3]) -> Dot {
    Dot { x, y, depth, colour }
}

/// Places each vertex on its pixel and hands its colour on.
struct Painter {
    width: usize,
    height: usize,
}

impl Shader for Painter {
    type Vertex = Dot;
    type VertexShaderOut = Vec3;

    fn vertex(&self, v: &Dot) -> (Vec4, Vec3) {
        let x = 2.0 * (v.x + 0.5) / (self.width as f64 + 1.0) - 1.0;
        let y = 1.0 - 2.0 * (v.y + 0.5) / (self.height as f64 + 1.0);
        (
            Vec4::new(fx(x), fx(y), fx(v.depth), fx(1.0)),
            vec3(v.colour[0], v.colour[1], v.colour[2]),
        )
    }

    fn fragment(&self, varyings: &Vec3) -> Vec4 {
        Vec4::new(varyings.x, varyings.y, varyings.z, fx(1.0))
    }
}

const RED: [f64; 3] = [1.0, 0.0, 0.0];
const GREEN: [f64; 3] = [0.0, 1.0, 0.0];
const BLUE: [f64; 3] = [0.0, 0.0, 1.0];

fn cleared(width: usize, height: usize) -> Buffer {
    let mut buffer = Buffer::new(width, height, 4);
    buffer.clear();
    buffer
}

fn shown(buffer: &Buffer) -> Vec<u32> {
    let mut out = vec![0xdead_beef; buffer.width() * buffer.height()];
    assert_eq!(buffer.fill_window_buffer(&mut out, false), Ok(()));
    out
}

fn contents(buffer: &Buffer) -> Vec<Vec<Real>> {
    let mut all = Vec::new();
    for y in 0..buffer.height() {
        for x in 0..buffer.width() {
            all.push(buffer.pixel(x, y));
        }
    }
    all
}

fn flat(points: [(f64, f64); 3], depth: f64, colour: [f64; 3]) -> Vec<Dot> {
    points.iter().map(|p| dot(p.0, p.1, depth, colour)).collect()
}

#[test]
fn screen_mapping_of_the_corners_of_clip_space() {
    let top_left = Vec4::new(fx(-1.0), fx(1.0), fx(0.25), fx(1.0));
    assert_eq!(screen_to_buffer_space(top_left, 2, 2), Vec3::new(fx(0.0), fx(0.0), fx(0.25)));
    let bottom_right = Vec4::new(fx(1.0), fx(-1.0), fx(-3.0), fx(1.0));
    assert_eq!(screen_to_buffer_space(bottom_right, 2, 4), Vec3::new(fx(3.0), fx(5.0), fx(-3.0)));
    let centre = Vec4::new(fx(0.0), fx(0.0), fx(0.0), fx(1.0));
    assert_eq!(screen_to_buffer_space(centre, 2, 2), Vec3::new(fx(1.0), fx(1.0), fx(0.0)));
    assert_eq!(screen_to_buffer_space(centre, 900, 900), Vec3::new(fx(450.0), fx(450.0), fx(0.0)));
}

#[test]
fn screen_mapping_rounds_to_the_nearest_pixel() {
    // width 3: x maps from -1..1 to -0.5..3.5, so 0.1 -> 1.7 and -0.1 -> 1.3
    let a = Vec4::new(fx(0.1), fx(0.0), fx(0.0), fx(1.0));
    assert_eq!(screen_to_buffer_space(a, 3, 3).x, fx(2.0));
    let b = Vec4::new(fx(-0.1), fx(0.0), fx(0.0), fx(1.0));
    assert_eq!(screen_to_buffer_space(b, 3, 3).x, fx(1.0));
    // the second coordinate points up: 0.5 -> 0.5 -> 1 (a tie goes up), 0.75 -> 0
    let c = Vec4::new(fx(0.0), fx(0.5), fx(0.0), fx(1.0));
    assert_eq!(screen_to_buffer_space(c, 3, 3).y, fx(1.0));
    let d = Vec4::new(fx(0.0), fx(0.75), fx(0.0), fx(1.0));
    assert_eq!(screen_to_buffer_space(d, 3, 3).y, fx(0.0));
}

#[test]
fn lerp_blends_two_vectors() {
    let a = vec3(1.0, 0.0, 4.0);
    let b = vec3(0.0, 1.0, 8.0);
    assert_eq!(lerp(a, b, fx(0.0)), a);
    assert_eq!(lerp(a, b, fx(1.0)), b);
    assert_eq!(lerp(a, b, fx(0.25)), vec3(0.75, 0.25, 5.0));
}

#[test]
fn pixel_weights_at_the_left_end_are_the_left_weights() {
    let left = (fx(0.75), fx(0.0), fx(0.25));
    let right = (fx(0.0), fx(0.75), fx(0.25));
    let row: Row = ((2, 6), left, right);
    assert_eq!(pixel_weights(&row, 2), vec3(0.75, 0.0, 0.25));
    assert_eq!(pixel_weights(&row, 4), vec3(0.375, 0.375, 0.25));
    assert_eq!(pixel_weights(&row, 5), vec3(0.1875, 0.5625, 0.25));
}

#[test]
fn pixel_weights_sum_to_one_within_the_slack() {
    assert_eq!(WEIGHT_SLACK_RAW, 5);
    let third = Real::ratio(1, 3);
    let rest = Real::one().sub(third).sub(third);
    let row: Row = ((-3, 11), (third, third, rest), (rest, third, third));
    for x in -3..11 {
        let w = pixel_weights(&row, x);
        let sum = w.x.raw + w.y.raw + w.z.raw;
        assert!(ONE_RAW - WEIGHT_SLACK_RAW <= sum && sum <= ONE_RAW);
        assert!((sum as f64 / ONE_RAW as f64 - 1.0).abs() < 1e-6);
    }
}

#[test]
fn edge_walks_one_row_per_step() {
    let mut edge = Edge::new(Vec2::new(fx(1.0), fx(0.0)), Vec2::new(fx(5.0), fx(2.0)));
    assert_eq!(
        edge,
        Edge { curr_x: fx(1.0), x_step: fx(2.0), curr_ratio: fx(0.0), ratio_step: fx(0.5), first: true }
    );
    assert_eq!(edge.next(), (fx(1.0), fx(0.0)));
    assert!(!edge.first);
    assert_eq!(edge.next(), (fx(3.0), fx(0.5)));
    assert_eq!(edge.next(), (fx(5.0), fx(1.0)));
    assert_eq!(edge.curr_x, fx(5.0));
    assert_eq!(edge.curr_ratio, fx(1.0));
}

#[test]
fn edge_walk_agrees_with_the_row_wise_line_at_whole_steps() {
    let top = Vec2::new(fx(2.0), fx(1.0));
    let bottom = Vec2::new(fx(10.0), fx(5.0));
    let mut edge = Edge::new(top, bottom);
    let line = soft_raster::rasterizer::Line::new(top, bottom);
    for row in 1..=5 {
        let (x, ratio) = edge.next();
        let y = Real::from_int(row);
        assert_eq!(x, line.x(y));
        assert_eq!(ratio, soft_raster::rasterizer::unlerp(top, bottom, y));
    }
}

#[test]
fn flat_triangle_in_a_two_by_two_buffer() {
    let painter = Painter { width: 2, height: 2 };
    let vertices = flat([(0.0, 0.0), (1.0, 0.0), (0.0, 1.0)], 1.0, RED);
    let mut buffer = cleared(2, 2);
    painter.draw(&mut buffer, &vertices, &[0, 1, 2]);
    let out = shown(&buffer);
    assert_eq!(out[0], 0xff0000);
    assert_eq!(out[3], 0x000000);
    assert_eq!(buffer.pixel(0, 0), vec![fx(1.0), fx(0.0), fx(0.0), fx(1.0)]);
    assert_eq!(buffer.pixel(1, 1), vec![Real::neg_infinity(); 4]);
}

#[test]
fn a_row_ends_before_its_right_column_and_the_bottom_row_is_empty() {
    let painter = Painter { width: 2, height: 2 };
    let vertices = flat([(0.0, 0.0), (1.0, 0.0), (0.0, 1.0)], 1.0, RED);
    let mut buffer = cleared(2, 2);
    painter.draw(&mut buffer, &vertices, &[0, 1, 2]);
    assert_eq!(shown(&buffer), vec![0xff0000, 0x000000, 0x000000, 0x000000]);
}

#[test]
fn a_triangle_over_the_whole_buffer_covers_every_pixel() {
    let painter = Painter { width: 2, height: 2 };
    let vertices = flat([(0.0, 0.0), (4.0, 0.0), (0.0, 4.0)], 1.0, RED);
    let mut buffer = Buffer::new(2, 2, 4);
    painter.draw(&mut buffer, &vertices, &[0, 1, 2]);
    assert_eq!(shown(&buffer), vec![0xff0000; 4]);
}

#[test]
fn drawing_no_triangle_changes_nothing() {
    let painter = Painter { width: 3, height: 3 };
    let mut buffer = cleared(3, 3);
    let before = contents(&buffer);
    painter.draw(&mut buffer, &[], &[]);
    assert_eq!(contents(&buffer), before);
    let vertices = flat([(0.0, 0.0), (2.0, 0.0), (0.0, 2.0)], 1.0, RED);
    painter.draw(&mut buffer, &vertices, &[]);
    assert_eq!(contents(&buffer), before);
}

#[test]
fn columns_and_rows_outside_the_buffer_are_skipped() {
    let painter = Painter { width: 3, height: 3 };
    let vertices = flat([(-4.0, -4.0), (12.0, -4.0), (-4.0, 12.0)], 0.5, GREEN);
    let mut buffer = cleared(3, 3);
    painter.draw(&mut buffer, &vertices, &[0, 1, 2]);
    assert_eq!(shown(&buffer), vec![0x00ff00; 9]);
    let away = flat([(5.0, 0.0), (9.0, 0.0), (5.0, 4.0)], 0.9, RED);
    painter.draw(&mut buffer, &away, &[0, 1, 2]);
    assert_eq!(shown(&buffer), vec![0x00ff00; 9]);
}

#[test]
fn colours_and_depth_are_interpolated_across_the_triangle() {
    let painter = Painter { width: 4, height: 4 };
    let vertices = vec![
        dot(0.0, 0.0, 1.0, RED),
        dot(4.0, 0.0, 2.0, GREEN),
        dot(0.0, 4.0, 3.0, BLUE),
    ];
    let mut buffer = cleared(4, 4);
    painter.draw(&mut buffer, &vertices, &[0, 1, 2]);
    // corner pixel: the weight of the first vertex is one
    assert_eq!(buffer.pixel(0, 0), vec![fx(1.0), fx(0.0), fx(0.0), fx(1.0)]);
    // row 0 runs from the first vertex towards the second
    assert_eq!(buffer.pixel(1, 0), vec![fx(0.75), fx(0.25), fx(0.0), fx(1.25)]);
    assert_eq!(buffer.pixel(2, 0), vec![fx(0.5), fx(0.5), fx(0.0), fx(1.5)]);
    assert_eq!(buffer.pixel(3, 0), vec![fx(0.25), fx(0.75), fx(0.0), fx(1.75)]);
    // row 2 covers columns 0 and 1, with weights (0.5, 0, 0.5) and (0.25, 0.25, 0.5)
    assert_eq!(buffer.pixel(0, 2), vec![fx(0.5), fx(0.0), fx(0.5), fx(2.0)]);
    assert_eq!(buffer.pixel(1, 2), vec![fx(0.25), fx(0.25), fx(0.5), fx(2.25)]);
    assert_eq!(buffer.pixel(2, 2), vec![Real::neg_infinity(); 4]);
    // row 3 covers column 0 only
    assert_eq!(buffer.pixel(0, 3), vec![fx(0.25), fx(0.0), fx(0.75), fx(2.5)]);
    assert_eq!(buffer.pixel(1, 3), vec![Real::neg_infinity(); 4]);
}

#[test]
fn interpolated_pixels_follow_the_weights() {
    let painter = Painter { width: 8, height: 8 };
    let vertices = vec![
        dot(1.0, 0.0, 0.5, RED),
        dot(7.0, 3.0, 0.25, GREEN),
        dot(2.0, 7.0, 0.75, BLUE),
    ];
    let mut buffer = cleared(8, 8);
    painter.draw(&mut buffer, &vertices, &[0, 1, 2]);
    let corners = [
        Vec2::new(fx(1.0), fx(0.0)),
        Vec2::new(fx(7.0), fx(3.0)),
        Vec2::new(fx(2.0), fx(7.0)),
    ];
    let setup = soft_raster::rasterizer::TriangleSetup::new(&corners);
    let mut covered = 0;
    for y in 0..8usize {
        let row = setup.row(Real::from_int(y as i64));
        for x in 0..8usize {
            let inside = row.0 .0 <= x as i32 && (x as i32) < row.0 .1;
            if !inside {
                assert_eq!(buffer.pixel(x, y), vec![Real::neg_infinity(); 4]);
                continue;
            }
            covered += 1;
            let w = pixel_weights(&row, x as i64);
            let colour = Vec3::interpolate(
                &vec3(1.0, 0.0, 0.0),
                &vec3(0.0, 1.0, 0.0),
                &vec3(0.0, 0.0, 1.0),
                &w,
            );
            let depth = Real::interpolate(&fx(0.5), &fx(0.25), &fx(0.75), &w);
            assert_eq!(buffer.pixel(x, y), vec![colour.x, colour.y, colour.z, depth]);
        }
    }
    assert!(covered > 10);
}

#[test]
fn drawing_order_does_not_matter_for_distinct_depths() {
    let painter = Painter { width: 8, height: 8 };
    let near = flat([(0.0, 0.0), (8.0, 0.0), (0.0, 8.0)], 0.7, RED);
    let far = flat([(8.0, 8.0), (8.0, 1.0), (1.0, 8.0)], 0.3, GREEN);
    let slanted = vec![
        dot(0.0, 3.0, 0.1, BLUE),
        dot(8.0, 0.0, 0.9, BLUE),
        dot(6.0, 8.0, 0.45, BLUE),
    ];
    let lists = [near, far, slanted];
    let orders = [[0, 1, 2], [0, 2, 1], [1, 0, 2], [1, 2, 0], [2, 0, 1], [2, 1, 0]];
    let mut results = Vec::new();
    for order in orders {
        let mut buffer = cleared(8, 8);
        for k in order {
            painter.draw(&mut buffer, &lists[k], &[0, 1, 2]);
        }
        results.push(contents(&buffer));
    }
    for r in &results {
        assert_eq!(*r, results[0]);
    }
    let mut buffer = cleared(8, 8);
    painter.draw(&mut buffer, &lists[0], &[0, 1, 2]);
    painter.draw(&mut buffer, &lists[1], &[0, 1, 2]);
    let out = shown(&buffer);
    assert_eq!(out[0], 0xff0000);
    assert_eq!(out[3 * 8 + 3], 0xff0000);
    assert_eq!(out[7 * 8 + 7], 0x00ff00);
}

#[test]
fn on_equal_depths_the_first_drawn_survives() {
    let painter = Painter { width: 6, height: 6 };
    let one = flat([(0.0, 0.0), (6.0, 0.0), (0.0, 6.0)], 0.5, RED);
    let two = flat([(0.0, 0.0), (6.0, 0.0), (0.0, 6.0)], 0.5, GREEN);
    let mut buffer = cleared(6, 6);
    painter.draw(&mut buffer, &one, &[0, 1, 2]);
    painter.draw(&mut buffer, &two, &[0, 1, 2]);
    assert_eq!(shown(&buffer)[0], 0xff0000);
    assert_eq!(shown(&buffer)[8], 0xff0000);
    let mut buffer = cleared(6, 6);
    painter.draw(&mut buffer, &two, &[0, 1, 2]);
    painter.draw(&mut buffer, &one, &[0, 1, 2]);
    assert_eq!(shown(&buffer)[0], 0x00ff00);
    assert_eq!(shown(&buffer)[8], 0x00ff00);
}

#[test]
fn two_triangles_that_share_an_edge_cover_each_pixel_once() {
    // With equal depths only the first write to a pixel survives, so a pixel
    // covered by both halves would change colour with the order of drawing.
    let painter = Painter { width: 4, height: 4 };
    let vertices = vec![
        dot(0.0, 0.0, 0.5, RED),
        dot(4.0, 0.0, 0.5, RED),
        dot(0.0, 4.0, 0.5, RED),
        dot(4.0, 0.0, 0.5, GREEN),
        dot(4.0, 4.0, 0.5, GREEN),
        dot(0.0, 4.0, 0.5, GREEN),
    ];
    let mut first = cleared(4, 4);
    painter.draw(&mut first, &vertices, &[0, 1, 2, 3, 4, 5]);
    let mut second = cleared(4, 4);
    painter.draw(&mut second, &vertices, &[3, 4, 5, 0, 1, 2]);
    assert_eq!(contents(&first), contents(&second));
    let r = 0xff0000;
    let g = 0x00ff00;
    assert_eq!(
        shown(&first),
        vec![r, r, r, r, r, r, r, g, r, r, g, g, r, g, g, g]
    );
}

#[test]
fn a_slanted_shared_edge_leaves_no_gap_and_no_overlap() {
    let painter = Painter { width: 10, height: 10 };
    let vertices = vec![
        dot(6.0, 0.0, 0.5, RED),
        dot(3.0, 9.0, 0.5, RED),
        dot(-2.0, 4.0, 0.5, RED),
        dot(6.0, 0.0, 0.5, GREEN),
        dot(12.0, 5.0, 0.5, GREEN),
        dot(3.0, 9.0, 0.5, GREEN),
    ];
    let mut first = cleared(10, 10);
    painter.draw(&mut first, &vertices, &[0, 1, 2, 3, 4, 5]);
    let mut second = cleared(10, 10);
    painter.draw(&mut second, &vertices, &[3, 4, 5, 0, 1, 2]);
    assert_eq!(contents(&first), contents(&second));
    let out = shown(&first);
    for y in 1..9 {
        let row = &out[y * 10..(y + 1) * 10];
        let reds = row.iter().filter(|c| **c == 0xff0000).count();
        let greens = row.iter().filter(|c| **c == 0x00ff00).count();
        assert!(reds > 0 && greens > 0);
        let first_red = row.iter().position(|c| *c == 0xff0000).unwrap();
        let last_green = row.iter().rposition(|c| *c == 0x00ff00).unwrap();
        assert_eq!(last_green - first_red + 1, reds + greens);
    }
}

#[test]
fn draw_triangle_draws_one_triangle() {
    let painter = Painter { width: 4, height: 4 };
    let v = flat([(0.0, 0.0), (4.0, 0.0), (0.0, 4.0)], 1.0, BLUE);
    let mut one = cleared(4, 4);
    draw_triangle(&painter, &mut one, &v[0], &v[1], &v[2]);
    let mut other = cleared(4, 4);
    painter.draw(&mut other, &v, &[0, 1, 2]);
    assert_eq!(contents(&one), contents(&other));
    let b = 0x0000ff;
    assert_eq!(shown(&one), vec![b, b, b, b, b, b, b, 0, b, b, 0, 0, b, 0, 0, 0]);
}

#[test]
fn draw_row_draws_the_columns_of_one_row() {
    let painter = Painter { width: 4, height: 2 };
    let staged = Staged {
        positions: (
            Vec4::new(fx(0.0), fx(0.0), fx(1.0), fx(1.0)),
            Vec4::new(fx(0.0), fx(0.0), fx(2.0), fx(1.0)),
            Vec4::new(fx(0.0), fx(0.0), fx(3.0), fx(1.0)),
        ),
        varyings: (vec3(1.0, 0.0, 0.0), vec3(0.0, 1.0, 0.0), vec3(0.0, 0.0, 1.0)),
    };
    let row: Row = ((-2, 2), (fx(1.0), fx(0.0), fx(0.0)), (fx(0.0), fx(1.0), fx(0.0)));
    let mut buffer = cleared(4, 2);
    draw_row(&painter, &mut buffer, &staged, &row, 1);
    assert_eq!(buffer.pixel(0, 1), vec![fx(0.5), fx(0.5), fx(0.0), fx(1.5)]);
    assert_eq!(buffer.pixel(1, 1), vec![fx(0.25), fx(0.75), fx(0.0), fx(1.75)]);
    assert_eq!(buffer.pixel(2, 1), vec![Real::neg_infinity(); 4]);
    assert_eq!(buffer.pixel(0, 0), vec![Real::neg_infinity(); 4]);
    let backwards: Row = ((3, 1), row.1, row.2);
    let before = contents(&buffer);
    draw_row(&painter, &mut buffer, &staged, &backwards, 0);
    assert_eq!(contents(&buffer), before);
}

#[test]
fn a_grouped_varying_reaches_the_fragment_stage_member_by_member() {
    struct Grouped;
    impl Shader for Grouped {
        type Vertex = (f64, f64, f64);
        type VertexShaderOut = (Vec3, Vec2);

        fn vertex(&self, v: &(f64, f64, f64)) -> (Vec4, (Vec3, Vec2)) {
            let x = 2.0 * (v.0 + 0.5) / 5.0 - 1.0;
            let y = 1.0 - 2.0 * (v.1 + 0.5) / 5.0;
            (
                Vec4::new(fx(x), fx(y), fx(1.0), fx(1.0)),
                (vec3(v.2, 0.0, 0.0), Vec2::new(fx(0.0), fx(v.2))),
            )
        }

        fn fragment(&self, varyings: &(Vec3, Vec2)) -> Vec4 {
            Vec4::new(varyings.0.x, varyings.1.x, varyings.1.y, fx(1.0))
        }
    }
    let mut buffer = cleared(4, 4);
    Grouped.draw(&mut buffer, &[(0.0, 0.0, 1.0), (4.0, 0.0, 0.0), (0.0, 4.0, 0.0)], &[0, 1, 2]);
    assert_eq!(buffer.pixel(0, 0), vec![fx(1.0), fx(0.0), fx(1.0), fx(1.0)]);
    assert_eq!(buffer.pixel(2, 0), vec![fx(0.5), fx(0.0), fx(0.5), fx(1.0)]);
    assert_eq!(buffer.pixel(0, 3), vec![fx(0.25), fx(0.0), fx(0.25), fx(1.0)]);
}

/// The same triangle worked out in floating point: for each pixel of an
/// 8 by 8 canvas the weights of the three corners, or nothing where the
/// triangle does not cover the pixel.
fn float_weights(corners: [(f64, f64); 3]) -> Vec<Option<[f64; 3]>> {
    let mut order = [0usize, 1, 2];
    if corners[order[0]].1 > corners[order[1]].1 {
        order.swap(0, 1);
    }
    if corners[order[1]].1 > corners[order[2]].1 {
        order.swap(1, 2);
    }
    if corners[order[0]].1 > corners[order[1]].1 {
        order.swap(0, 1);
    }
    let (top, mid, bottom) = (corners[order[0]], corners[order[1]], corners[order[2]]);
    let cross_at = |a: (f64, f64), b: (f64, f64), y: f64| a.0 + (y - a.1) * (b.0 - a.0) / (b.1 - a.1);
    let mid_on_left = cross_at(top, bottom, mid.1) > mid.0;
    let mut all = Vec::new();
    for y in 0..8 {
        let yf = y as f64;
        for x in 0..8 {
            if yf < top.1 || yf > bottom.1 {
                all.push(None);
                continue;
            }
            let lower = yf >= mid.1;
            let full_x = cross_at(top, bottom, yf);
            let t_full = (yf - top.1) / (bottom.1 - top.1);
            let mut full_w = [0.0; 3];
            full_w[order[0]] = 1.0 - t_full;
            full_w[order[2]] = t_full;
            let mut part_w = [0.0; 3];
            let part_x = if lower {
                let t = if bottom.1 > mid.1 { (yf - mid.1) / (bottom.1 - mid.1) } else { 0.0 };
                part_w[order[1]] = 1.0 - t;
                part_w[order[2]] = t;
                if bottom.1 > mid.1 { cross_at(mid, bottom, yf) } else { bottom.0 }
            } else {
                let t = (yf - top.1) / (mid.1 - top.1);
                part_w[order[0]] = 1.0 - t;
                part_w[order[1]] = t;
                cross_at(top, mid, yf)
            };
            let (left, right, wl, wr) = if mid_on_left {
                (part_x, full_x, part_w, full_w)
            } else {
                (full_x, part_x, full_w, part_w)
            };
            let (left, right) = ((left + 0.5).floor(), (right + 0.5).floor());
            let xf = x as f64;
            if xf < left || xf >= right {
                all.push(None);
                continue;
            }
            let t = (xf - left) / (right - left);
            all.push(Some([
                (1.0 - t) * wl[0] + t * wr[0],
                (1.0 - t) * wl[1] + t * wr[1],
                (1.0 - t) * wl[2] + t * wr[2],
            ]));
        }
    }
    all
}

#[test]
fn fixed_point_agrees_with_floating_point_within_a_millionth() {
    let painter = Painter { width: 8, height: 8 };
    let triangles = [
        [(1.0, 0.0), (7.0, 3.0), (2.0, 7.0)],
        [(0.0, 6.0), (3.0, 1.0), (7.0, 5.0)],
        [(6.0, 0.0), (0.0, 2.0), (7.0, 7.0)],
        [(0.0, 0.0), (7.0, 0.0), (3.0, 6.0)],
        [(2.0, 1.0), (2.0, 7.0), (6.0, 4.0)],
    ];
    let depths = [0.25, 0.5, 0.75];
    for corners in triangles {
        let vertices = vec![
            dot(corners[0].0, corners[0].1, depths[0], RED),
            dot(corners[1].0, corners[1].1, depths[1], GREEN),
            dot(corners[2].0, corners[2].1, depths[2], BLUE),
        ];
        let mut buffer = cleared(8, 8);
        painter.draw(&mut buffer, &vertices, &[0, 1, 2]);
        let expected = float_weights(corners);
        let mut covered = 0;
        for y in 0..8 {
            for x in 0..8 {
                let pixel = buffer.pixel(x, y);
                match expected[y * 8 + x] {
                    None => assert_eq!(pixel, vec![Real::neg_infinity(); 4]),
                    Some(w) => {
                        covered += 1;
                        let depth = w[0] * depths[0] + w[1] * depths[1] + w[2] * depths[2];
                        let wanted = [w[0], w[1], w[2], depth];
                        for c in 0..4 {
                            let got = pixel[c].raw as f64 / ONE_RAW as f64;
                            assert!((got - wanted[c]).abs() < 1e-6);
                        }
                    }
                }
            }
        }
        assert!(covered > 5);
    }
}
