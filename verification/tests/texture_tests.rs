use image::{DynamicImage, GrayImage, Luma, Rgb, RgbImage, Rgba, RgbaImage};
use soft_raster::scalar::Real;
use soft_raster::texture::{
    light_level, lit, sample, texel_position, try_sample, AMBIENT_RAW, TEXEL_MARGIN_RAW,
};
use soft_raster::vector::{Vec2, Vec3, Vec4};

fn fx(v: f64) -> Real {
    Real { raw: (v * 4294967296.0).round() as i64 }
}

fn uv(x: f64, y: f64) -> Vec2 {
    Vec2::new(fx(x), fx(y))
}

fn vec3(x: f64, y: f64, z: f64) -> Vec3 {
    Vec3::new(fx(x), fx(y), fx(z))
}

/// A texture whose texel in column `x`, row `y` is `(x, y, x + y, 255 - x)`.
fn chart(width: u32, height: u32) -> DynamicImage {
    DynamicImage::ImageRgba8(RgbaImage::from_fn(width, height, |x, y| {
        Rgba([x as u8, y as u8, (x + y) as u8, 255 - x as u8])
    }))
}

#[test]
fn constants_stand_for_their_fractions() {
    assert_eq!(AMBIENT_RAW, fx(0.4).raw);
    assert_eq!(TEXEL_MARGIN_RAW, fx(0.001).raw);
}

#[test]
fn dot_product_of_two_vectors() {
    assert_eq!(vec3(1.0, 2.0, 3.0).dot(vec3(4.0, -5.0, 0.5)), fx(-4.5));
    assert_eq!(vec3(0.0, 0.0, 1.0).dot(vec3(0.0, 0.0, 1.0)), fx(1.0));
    assert_eq!(vec3(1.0, 0.0, 0.0).dot(vec3(0.0, 1.0, 0.0)), fx(0.0));
}

#[test]
fn texel_positions_drop_the_fraction() {
    assert_eq!(texel_position(uv(0.0, 0.0), 8, 4), (0, 0));
    assert_eq!(texel_position(uv(0.5, 0.5), 8, 4), (3, 1));
    assert_eq!(texel_position(uv(0.51, 0.51), 8, 4), (4, 2));
    assert_eq!(texel_position(uv(1.0, 1.0), 8, 4), (7, 3));
    assert_eq!(texel_position(uv(0.25, 0.75), 100, 100), (24, 74));
}

#[test]
fn texel_positions_saturate_outside_the_texture() {
    assert_eq!(texel_position(uv(-0.5, -0.01), 8, 4), (0, 0));
    assert_eq!(texel_position(uv(1.5, 2.0), 8, 4), (11, 7));
    assert_eq!(texel_position(uv(0.5, 0.5), 0, 0), (0, 0));
}

#[test]
fn sample_reads_the_texel_under_the_coordinates() {
    let img = chart(8, 4);
    assert_eq!(sample(&img, uv(0.0, 0.0)), (0, 0, 0, 255));
    assert_eq!(sample(&img, uv(0.5, 0.5)), (3, 1, 4, 252));
    assert_eq!(sample(&img, uv(1.0, 1.0)), (7, 3, 10, 248));
    assert_eq!(sample(&img, uv(1.0, 0.0)), (7, 0, 7, 248));
    assert_eq!(sample(&img, uv(0.0, 1.0)), (0, 3, 3, 255));
}

#[test]
fn try_sample_tells_coordinates_off_the_texture() {
    let img = chart(8, 4);
    assert_eq!(try_sample(&img, uv(0.5, 0.5)), Some((3, 1, 4, 252)));
    assert_eq!(try_sample(&img, uv(-3.0, 0.5)), Some((0, 1, 1, 255)));
    assert_eq!(try_sample(&img, uv(1.5, 0.5)), None);
    assert_eq!(try_sample(&img, uv(0.5, 1.5)), None);
    let empty = chart(0, 0);
    assert_eq!(try_sample(&empty, uv(0.0, 0.0)), None);
}

#[test]
fn texels_of_other_formats_are_converted() {
    let grey = DynamicImage::ImageLuma8(GrayImage::from_fn(2, 2, |x, y| Luma([(10 * x + y) as u8])));
    assert_eq!(sample(&grey, uv(1.0, 1.0)), (11, 11, 11, 255));
    let rgb = DynamicImage::ImageRgb8(RgbImage::from_fn(2, 2, |x, y| Rgb([x as u8, y as u8, 9])));
    assert_eq!(sample(&rgb, uv(1.0, 0.0)), (1, 0, 9, 255));
}

#[test]
fn light_falls_off_with_the_angle() {
    let up = vec3(0.0, 1.0, 0.0);
    assert_eq!(light_level(up, up).raw, fx(1.0).raw + AMBIENT_RAW);
    assert_eq!(light_level(up, vec3(0.0, 0.5, 0.0)).raw, fx(0.5).raw + AMBIENT_RAW);
    assert_eq!(light_level(up, vec3(1.0, 0.0, 0.0)).raw, AMBIENT_RAW);
}

#[test]
fn a_surface_that_faces_away_gets_the_ambient_light_only() {
    let up = vec3(0.0, 1.0, 0.0);
    assert_eq!(light_level(up, vec3(0.0, -1.0, 0.0)).raw, AMBIENT_RAW);
    assert_eq!(light_level(up, vec3(3.0, -0.25, 2.0)).raw, AMBIENT_RAW);
}

#[test]
fn lit_scales_every_channel() {
    assert_eq!(lit((255, 0, 255, 255), fx(1.0)), Vec4::new(fx(1.0), fx(0.0), fx(1.0), fx(1.0)));
    // 51/255 is a fifth; both the fraction and the product are rounded down
    assert_eq!(
        lit((255, 51, 0, 255), fx(0.5)),
        Vec4::new(fx(0.5), Real { raw: 429496729 }, fx(0.0), fx(0.5))
    );
    assert_eq!(lit((255, 255, 255, 255), fx(1.4)), Vec4::new(fx(1.4), fx(1.4), fx(1.4), fx(1.4)));
    let dim = lit((94, 81, 57, 255), fx(1.0));
    assert_eq!(dim.x, Real::ratio(94, 255));
    assert_eq!(dim.y, Real::ratio(81, 255));
    assert_eq!(dim.z, Real::ratio(57, 255));
    assert_eq!(dim.w, fx(1.0));
}
