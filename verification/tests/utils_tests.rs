use soft_raster::scalar::{Real, MAX_RAW, ONE_RAW};
use soft_raster::utils::{Interpolate, NumLike, Remap};
use soft_raster::vector::{Vec2, Vec3, Vec4};

fn fx(v: f64) -> Real {
    Real { raw: (v * 4294967296.0).round() as i64 }
}

fn vec2(x: f64, y: f64) -> Vec2 {
    Vec2::new(fx(x), fx(y))
}

fn vec3(x: f64, y: f64, z: f64) -> Vec3 {
    Vec3::new(fx(x), fx(y), fx(z))
}

fn vec4(x: f64, y: f64, z: f64, w: f64) -> Vec4 {
    Vec4::new(fx(x), fx(y), fx(z), fx(w))
}

#[test]
fn remap_maps_the_ends_to_the_ends() {
    let a = fx(-1.0);
    let b = fx(1.0);
    let new_a = fx(-0.5);
    let new_b = fx(900.5);
    assert_eq!(a.remap(a, b, new_a, new_b), new_a);
    assert_eq!(b.remap(a, b, new_a, new_b), new_b);
}

#[test]
fn remap_is_linear_between_the_ends() {
    assert_eq!(fx(0.0).remap(fx(-1.0), fx(1.0), fx(0.0), fx(10.0)), fx(5.0));
    assert_eq!(fx(0.25).remap(fx(0.0), fx(1.0), fx(10.0), fx(20.0)), fx(12.5));
    assert_eq!(fx(0.5).remap(fx(0.0), fx(1.0), fx(0.0), fx(255.0)), fx(127.5));
}

#[test]
fn remap_follows_a_reversed_range() {
    assert_eq!(fx(1.0).remap(fx(1.0), fx(-1.0), fx(-0.5), fx(2.5)), fx(-0.5));
    assert_eq!(fx(-1.0).remap(fx(1.0), fx(-1.0), fx(-0.5), fx(2.5)), fx(2.5));
    assert_eq!(fx(0.0).remap(fx(1.0), fx(-1.0), fx(-0.5), fx(2.5)), fx(1.0));
}

#[test]
fn remap_goes_beyond_the_ends() {
    assert_eq!(fx(3.0).remap(fx(0.0), fx(1.0), fx(0.0), fx(10.0)), fx(30.0));
    assert_eq!(fx(-1.0).remap(fx(0.0), fx(1.0), fx(0.0), fx(10.0)), fx(-10.0));
}

#[test]
fn remap_of_an_empty_range() {
    let a = fx(2.0);
    assert_eq!(a.remap(a, a, fx(0.0), fx(255.0)), fx(0.0));
    assert_eq!(fx(3.0).remap(a, a, fx(0.0), fx(255.0)).raw, MAX_RAW);
}

#[test]
fn remap_of_a_vector_is_by_component() {
    let r = vec2(0.0, 0.5).remap(vec2(-1.0, 0.0), vec2(1.0, 1.0), vec2(0.0, 0.0), vec2(10.0, 4.0));
    assert_eq!(r, vec2(5.0, 2.0));
}

#[test]
fn numbers_and_vectors_scale_and_add() {
    assert_eq!(fx(1.5).scale(fx(2.0)), fx(3.0));
    assert_eq!(fx(1.5).plus(fx(2.0)), fx(3.5));
    assert_eq!(vec2(1.0, -2.0).scale(fx(0.5)), vec2(0.5, -1.0));
    assert_eq!(vec2(1.0, -2.0).plus(vec2(0.5, 0.5)), vec2(1.5, -1.5));
    assert_eq!(vec3(1.0, 2.0, 3.0).scale(fx(2.0)), vec3(2.0, 4.0, 6.0));
    assert_eq!(vec3(1.0, 2.0, 3.0).plus(vec3(1.0, 1.0, 1.0)), vec3(2.0, 3.0, 4.0));
    assert_eq!(vec4(1.0, 2.0, 3.0, 4.0).scale(fx(0.25)), vec4(0.25, 0.5, 0.75, 1.0));
    assert_eq!(
        vec4(1.0, 2.0, 3.0, 4.0).plus(vec4(4.0, 3.0, 2.0, 1.0)),
        vec4(5.0, 5.0, 5.0, 5.0)
    );
}

#[test]
fn interpolate_is_the_weighted_sum() {
    let w = vec3(0.5, 0.25, 0.25);
    assert_eq!(Real::interpolate(&fx(1.0), &fx(2.0), &fx(3.0), &w), fx(1.75));
    assert_eq!(
        Vec2::interpolate(&vec2(0.0, 0.0), &vec2(4.0, 0.0), &vec2(0.0, 8.0), &w),
        vec2(1.0, 2.0)
    );
    assert_eq!(
        Vec3::interpolate(&vec3(1.0, 0.0, 0.0), &vec3(0.0, 1.0, 0.0), &vec3(0.0, 0.0, 1.0), &w),
        vec3(0.5, 0.25, 0.25)
    );
    assert_eq!(
        Vec4::interpolate(
            &vec4(4.0, 4.0, 4.0, 4.0),
            &vec4(8.0, 0.0, 8.0, 0.0),
            &vec4(0.0, 8.0, 0.0, 8.0),
            &w
        ),
        vec4(4.0, 4.0, 4.0, 4.0)
    );
}

#[test]
fn interpolate_does_not_divide_by_the_weights() {
    // Weights that do not sum to one scale the result: the blend is a plain sum.
    let w = vec3(1.0, 1.0, 1.0);
    assert_eq!(Real::interpolate(&fx(1.0), &fx(2.0), &fx(3.0), &w), fx(6.0));
}

#[test]
fn interpolate_at_a_corner_is_the_value_of_the_corner() {
    let p0 = Real { raw: 12345678901 };
    let p1 = Real { raw: -98765432101 };
    let p2 = Real { raw: 7 };
    assert_eq!(Real::interpolate(&p0, &p1, &p2, &vec3(1.0, 0.0, 0.0)), p0);
    assert_eq!(Real::interpolate(&p0, &p1, &p2, &vec3(0.0, 1.0, 0.0)), p1);
    assert_eq!(Real::interpolate(&p0, &p1, &p2, &vec3(0.0, 0.0, 1.0)), p2);
}

#[test]
fn interpolating_a_pair_interpolates_its_members() {
    let w = vec3(0.125, 0.5, 0.375);
    let a = (vec3(1.0, 2.0, 3.0), vec3(-1.0, 0.5, 4.0), vec3(0.0, 0.0, 9.0));
    let b = (vec2(0.0, 1.0), vec2(1.0, 0.0), vec2(0.5, 0.5));
    let together = <(Vec3, Vec2)>::interpolate(&(a.0, b.0), &(a.1, b.1), &(a.2, b.2), &w);
    let apart = (
        Vec3::interpolate(&a.0, &a.1, &a.2, &w),
        Vec2::interpolate(&b.0, &b.1, &b.2, &w),
    );
    assert_eq!(together, apart);
    assert_eq!(together.1, vec2(0.6875, 0.3125));
}

#[test]
fn interpolating_a_triple_interpolates_its_members() {
    let w = vec3(0.25, 0.25, 0.5);
    let a = (fx(1.0), fx(2.0), fx(4.0));
    let b = (vec2(0.0, 1.0), vec2(1.0, 0.0), vec2(0.5, 0.5));
    let c = (vec4(1.0, 0.0, 0.0, 1.0), vec4(0.0, 1.0, 0.0, 1.0), vec4(0.0, 0.0, 1.0, 1.0));
    let together = <(Real, Vec2, Vec4)>::interpolate(
        &(a.0, b.0, c.0),
        &(a.1, b.1, c.1),
        &(a.2, b.2, c.2),
        &w,
    );
    assert_eq!(together.0, Real::interpolate(&a.0, &a.1, &a.2, &w));
    assert_eq!(together.1, Vec2::interpolate(&b.0, &b.1, &b.2, &w));
    assert_eq!(together.2, Vec4::interpolate(&c.0, &c.1, &c.2, &w));
    assert_eq!(together.0, fx(2.75));
    assert_eq!(together.2, vec4(0.25, 0.25, 0.5, 1.0));
}

#[test]
fn interpolating_nested_groupings() {
    let w = vec3(0.5, 0.5, 0.0);
    let p0 = ((fx(0.0), fx(2.0)), vec2(0.0, 0.0));
    let p1 = ((fx(4.0), fx(0.0)), vec2(2.0, 2.0));
    let p2 = ((fx(9.0), fx(9.0)), vec2(9.0, 9.0));
    let r = <((Real, Real), Vec2)>::interpolate(&p0, &p1, &p2, &w);
    assert_eq!(r, ((fx(2.0), fx(1.0)), vec2(1.0, 1.0)));
}

#[test]
fn swizzles_pick_the_leading_components() {
    assert_eq!(vec3(1.0, 2.0, 3.0).xy(), vec2(1.0, 2.0));
    assert_eq!(vec4(1.0, 2.0, 3.0, 4.0).xy(), vec2(1.0, 2.0));
    assert_eq!(vec4(1.0, 2.0, 3.0, 4.0).xyz(), vec3(1.0, 2.0, 3.0));
    assert_eq!(vec2(1.0, 2.0).x.raw, ONE_RAW);
}
